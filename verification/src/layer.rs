//! The adapter for structured events: an event becomes one record of the
//! logger.

use crate::fields::{lookup, object_text, without, Entry, FieldVisitor};
use crate::level::Level;
use crate::logger::Logger;
use std::sync::Arc;
use vstd::prelude::*;

verus! {

/// Turns events into records of its logger.
pub struct CustomLoggerLayer {
    pub logger: Arc<Logger>,
}

impl CustomLoggerLayer {
    /// The message of an event: the text recorded under `message` where
    /// there is one, and else the name of the event.
    pub open spec fn message_text(name: Seq<char>, fields: Seq<Entry>) -> Seq<char> {
        match lookup(fields, "message"@) {
            Some(value) => match value.text() {
                Some(text) => text,
                None => name,
            },
            None => name,
        }
    }

    /// What is logged for an event: its message, a space, and the JSON
    /// object of its fields other than `message`.
    pub open spec fn record_text(name: Seq<char>, fields: Seq<Entry>) -> Seq<char> {
        Self::message_text(name, fields) + seq![' '] + object_text(without(fields, "message"@))
    }

    /// The line to write for an event of the given level and name with the
    /// given fields, or `None` where the level is below the logger's minimum.
    pub fn on_event(&self, level: Level, name: &str, fields: FieldVisitor) -> (line: Option<
        String,
    >)
        ensures
            line is Some <==> self.logger.passes(level),
            line matches Some(text) ==> text@ == Logger::line_text(
                level,
                Self::record_text(name@, fields@),
            ),
    {
        if !self.logger.enabled(level) {
            return None;
        }
        let mut fields = fields;
        let message = fields.remove("message");
        let mut record = match &message {
            Some(value) => match value.as_str() {
                Some(text) => text.to_owned(),
                None => name.to_owned(),
            },
            None => name.to_owned(),
        };
        proof {
            reveal_strlit(" ");
        }
        record.append(" ");
        let json = fields.to_json();
        record.append(json.as_str());
        self.logger.log(level, record.as_str())
    }
}

} // verus!
