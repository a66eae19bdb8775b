//! The logger: a minimum level, and the line of each record that passes it.

use crate::level::{CaseRule, Color, Level};
use std::sync::Arc;
use vstd::prelude::*;

verus! {

/// A logger. Records below `level` are dropped.
#[derive(Debug, Clone, Copy)]
pub struct Logger {
    pub level: Level,
}

impl Logger {
    /// The minimum level that a setting asks for: the level it parses to
    /// under `rule`, and `Info` where there is no setting or it names no level.
    pub open spec fn configured_level(setting: Option<Seq<char>>, rule: CaseRule) -> Level {
        match setting {
            Some(text) => match Level::parsed(text, rule) {
                Some(level) => level,
                None => Level::Info,
            },
            None => Level::Info,
        }
    }

    /// Whether this logger lets a record of `level` through.
    pub open spec fn passes(&self, level: Level) -> bool {
        level.at_least(self.level)
    }

    /// The line of a record: the level's name in its colour between square
    /// brackets, a space, and the message.
    pub open spec fn line_text(level: Level, message: Seq<char>) -> Seq<char> {
        "["@ + level.color().code_text() + level.name_text() + Color::reset_text() + "] "@
            + message
    }

    /// A logger with the given minimum level.
    pub fn new(level: Level) -> (logger: Logger)
        ensures
            logger.level == level,
    {
        Logger { level }
    }

    /// The logger that the setting of `LOG_LEVEL` asks for. `setting` is the
    /// value of that variable, `None` where it is not set. A setting that
    /// names no level is not an error: the minimum level is then `Info`.
    pub fn default(setting: Option<&str>, rule: CaseRule) -> (logger: Arc<Logger>)
        ensures
            logger.level == Logger::configured_level(
                match setting {
                    Some(text) => Some(text@),
                    None => None,
                },
                rule,
            ),
    {
        let level = match setting {
            Some(text) => match Level::parse(text, rule) {
                Ok(level) => level,
                Err(_) => Level::Info,
            },
            None => Level::Info,
        };
        Arc::new(Logger { level })
    }

    /// Whether this logger lets a record of `level` through.
    pub fn enabled(&self, level: Level) -> (passes: bool)
        ensures
            passes == self.passes(level),
    {
        level >= self.level
    }

    /// The line to write for a record, or `None` where the record is below
    /// the minimum level and nothing is to be written.
    pub fn log(&self, level: Level, message: &str) -> (line: Option<String>)
        ensures
            line is Some <==> self.passes(level),
            line matches Some(text) ==> text@ == Logger::line_text(level, message@),
    {
        if level >= self.level {
            let mut text = "[".to_owned();
            text.append(level.color().code());
            text.append(level.as_str());
            text.append(Color::reset());
            text.append("] ");
            text.append(message);
            Some(text)
        } else {
            None
        }
    }

    /// The line of a record of level `Trace`.
    pub fn trace(&self, message: &str) -> (line: Option<String>)
        ensures
            line is Some <==> self.passes(Level::Trace),
            line matches Some(text) ==> text@ == Logger::line_text(Level::Trace, message@),
    {
        self.log(Level::Trace, message)
    }

    /// The line of a record of level `Debug`.
    pub fn debug(&self, message: &str) -> (line: Option<String>)
        ensures
            line is Some <==> self.passes(Level::Debug),
            line matches Some(text) ==> text@ == Logger::line_text(Level::Debug, message@),
    {
        self.log(Level::Debug, message)
    }

    /// The line of a record of level `Info`.
    pub fn info(&self, message: &str) -> (line: Option<String>)
        ensures
            line is Some <==> self.passes(Level::Info),
            line matches Some(text) ==> text@ == Logger::line_text(Level::Info, message@),
    {
        self.log(Level::Info, message)
    }

    /// The line of a record of level `Warn`.
    pub fn warn(&self, message: &str) -> (line: Option<String>)
        ensures
            line is Some <==> self.passes(Level::Warn),
            line matches Some(text) ==> text@ == Logger::line_text(Level::Warn, message@),
    {
        self.log(Level::Warn, message)
    }

    /// The line of a record of level `Error`.
    pub fn error(&self, message: &str) -> (line: Option<String>)
        ensures
            line is Some <==> self.passes(Level::Error),
            line matches Some(text) ==> text@ == Logger::line_text(Level::Error, message@),
    {
        self.log(Level::Error, message)
    }
}

} // verus!
