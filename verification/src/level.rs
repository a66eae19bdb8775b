//! The severity scale: five levels in a fixed order, their names and colours.

use crate::text::{str_eq, to_uppercase, uppercase_text};
use std::cmp::Ordering;
use vstd::prelude::*;
use vstd::std_specs::cmp::PartialOrdSpec;

verus! {

/// The colours a level's name is written in.
#[derive(Debug, Clone, Copy, PartialEq, Eq, Structural)]
pub enum Color {
    Red,
    Yellow,
    Blue,
    Green,
    Gray,
}

impl Color {
    /// The ANSI escape sequence that switches the foreground to this colour.
    pub open spec fn code_text(self) -> Seq<char> {
        match self {
            Color::Red => "\x1b[31m"@,
            Color::Yellow => "\x1b[33m"@,
            Color::Blue => "\x1b[34m"@,
            Color::Green => "\x1b[32m"@,
            Color::Gray => "\x1b[90m"@,
        }
    }

    /// The ANSI escape sequence that switches the colour off again.
    pub open spec fn reset_text() -> Seq<char> {
        "\x1b[0m"@
    }

    /// The ANSI escape sequence that switches the colour off again.
    pub fn reset() -> (code: &'static str)
        ensures
            code@ == Color::reset_text(),
    {
        "\x1b[0m"
    }

    /// The ANSI escape sequence that switches the foreground to this colour.
    pub fn code(&self) -> (code: &'static str)
        ensures
            code@ == self.code_text(),
    {
        match self {
            Color::Red => "\x1b[31m",
            Color::Yellow => "\x1b[33m",
            Color::Blue => "\x1b[34m",
            Color::Green => "\x1b[32m",
            Color::Gray => "\x1b[90m",
        }
    }
}

/// How the case of a level's name is treated when it is parsed.
#[derive(Debug, Clone, Copy, PartialEq, Eq, Structural)]
pub enum CaseRule {
    /// Only the canonical upper-case name is accepted.
    Sensitive,
    /// The text is folded to upper case before it is matched.
    Insensitive,
}

/// Why a text could not be parsed as a level.
#[derive(Debug, PartialEq, Eq)]
pub enum ParseError {
    /// The text is the name of no level. `token` is the text as it was given.
    UnrecognizedLevel { token: String },
}

impl Clone for ParseError {
    fn clone(&self) -> (copy: ParseError)
        ensures
            copy == *self,
    {
        match self {
            ParseError::UnrecognizedLevel { token } => ParseError::UnrecognizedLevel {
                token: token.clone(),
            },
        }
    }
}

impl ParseError {
    /// The message of this error: a fixed prefix and the rejected text.
    pub open spec fn message_text(self) -> Seq<char> {
        match self {
            ParseError::UnrecognizedLevel { token } => "Unknown log level: "@ + token@,
        }
    }

    /// The message of this error.
    pub fn to_string(&self) -> (message: String)
        ensures
            message@ == self.message_text(),
    {
        match self {
            ParseError::UnrecognizedLevel { token } => {
                let mut message = "Unknown log level: ".to_owned();
                message.append(token.as_str());
                message
            },
        }
    }
}

/// The severity of a record. The variants are declared in increasing order.
#[derive(Debug, Clone, Copy, PartialEq, Eq, Structural, Ord)]
pub enum Level {
    Trace,
    Debug,
    Info,
    Warn,
    Error,
}

impl Level {
    /// The five levels, least severe first.
    pub open spec fn declared_order() -> Seq<Level> {
        seq![Level::Trace, Level::Debug, Level::Info, Level::Warn, Level::Error]
    }

    /// The place of this level in the declared order, counted from zero.
    pub open spec fn rank(self) -> int {
        match self {
            Level::Trace => 0,
            Level::Debug => 1,
            Level::Info => 2,
            Level::Warn => 3,
            Level::Error => 4,
        }
    }

    /// Whether this level is `other` or a more severe one.
    pub open spec fn at_least(self, other: Level) -> bool {
        self.rank() >= other.rank()
    }

    /// The colour this level's name is written in.
    pub open spec fn spec_color(&self) -> Color {
        match self {
            Level::Trace => Color::Gray,
            Level::Debug => Color::Blue,
            Level::Info => Color::Green,
            Level::Warn => Color::Yellow,
            Level::Error => Color::Red,
        }
    }

    /// The colour this level's name is written in.
    #[verifier::when_used_as_spec(spec_color)]
    pub fn color(&self) -> (color: Color)
        ensures
            color == self.spec_color(),
    {
        match self {
            Level::Trace => Color::Gray,
            Level::Debug => Color::Blue,
            Level::Info => Color::Green,
            Level::Warn => Color::Yellow,
            Level::Error => Color::Red,
        }
    }

    /// The canonical name of this level.
    pub open spec fn name_text(self) -> Seq<char> {
        match self {
            Level::Trace => "TRACE"@,
            Level::Debug => "DEBUG"@,
            Level::Info => "INFO"@,
            Level::Warn => "WARN"@,
            Level::Error => "ERROR"@,
        }
    }

    /// The level whose canonical name is exactly `token`, if there is one.
    pub open spec fn named(token: Seq<char>) -> Option<Level> {
        if token == "TRACE"@ {
            Some(Level::Trace)
        } else if token == "DEBUG"@ {
            Some(Level::Debug)
        } else if token == "INFO"@ {
            Some(Level::Info)
        } else if token == "WARN"@ {
            Some(Level::Warn)
        } else if token == "ERROR"@ {
            Some(Level::Error)
        } else {
            None
        }
    }

    /// Whether `text` stands for `level` under `rule`: it is the level's
    /// canonical name, or, where case is ignored, its upper-case equivalent is.
    pub open spec fn denotes(text: Seq<char>, rule: CaseRule, level: Level) -> bool {
        text == level.name_text() || (rule == CaseRule::Insensitive && uppercase_text(text)
            == level.name_text())
    }

    /// What `text` parses to under `rule`. A canonical name stands for its
    /// level under either rule; any other text is folded to upper case first
    /// where case is ignored.
    pub open spec fn parsed(text: Seq<char>, rule: CaseRule) -> Option<Level> {
        match Level::named(text) {
            Some(level) => Some(level),
            None => match rule {
                CaseRule::Sensitive => None,
                CaseRule::Insensitive => Level::named(uppercase_text(text)),
            },
        }
    }

    /// The canonical name of this level.
    pub fn as_str(&self) -> (name: &'static str)
        ensures
            name@ == self.name_text(),
    {
        match self {
            Level::Trace => "TRACE",
            Level::Debug => "DEBUG",
            Level::Info => "INFO",
            Level::Warn => "WARN",
            Level::Error => "ERROR",
        }
    }

    /// The canonical name of this level, as an owned string.
    pub fn to_string(&self) -> (name: String)
        ensures
            name@ == self.name_text(),
    {
        self.as_str().to_owned()
    }

    /// The level whose canonical name is exactly `token`.
    pub fn from_name(token: &str) -> (level: Option<Level>)
        ensures
            level == Level::named(token@),
    {
        if str_eq(token, "TRACE") {
            Some(Level::Trace)
        } else if str_eq(token, "DEBUG") {
            Some(Level::Debug)
        } else if str_eq(token, "INFO") {
            Some(Level::Info)
        } else if str_eq(token, "WARN") {
            Some(Level::Warn)
        } else if str_eq(token, "ERROR") {
            Some(Level::Error)
        } else {
            None
        }
    }

    /// Decides a text that has already been folded to upper case: the level
    /// that `folded` names, or else an error that carries `text`, the input
    /// as it was given.
    pub fn from_folded(text: &str, folded: &str) -> (result: Result<Level, ParseError>)
        ensures
            match Level::named(folded@) {
                Some(level) => result == Ok::<Level, ParseError>(level),
                None => result matches Err(ParseError::UnrecognizedLevel { token }) && token@
                    == text@,
            },
    {
        match Level::from_name(folded) {
            Some(level) => Ok(level),
            None => Err(ParseError::UnrecognizedLevel { token: text.to_owned() }),
        }
    }

    /// Parses the name of a level.
    ///
    /// Succeeds exactly on the texts that stand for a level under `rule`, and
    /// gives that level. Every other text is rejected with
    /// [`ParseError::UnrecognizedLevel`], which carries the text unchanged.
    pub fn parse(text: &str, rule: CaseRule) -> (result: Result<Level, ParseError>)
        ensures
            match Level::parsed(text@, rule) {
                Some(level) => result == Ok::<Level, ParseError>(level),
                None => result matches Err(ParseError::UnrecognizedLevel { token }) && token@
                    == text@,
            },
            result matches Ok(level) ==> Level::denotes(text@, rule, level),
            result is Err <==> forall|level: Level| !Level::denotes(text@, rule, level),
    {
        proof {
            lemma_parsed_denotes(text@, rule);
        }
        match Level::from_name(text) {
            Some(level) => Ok(level),
            None => match rule {
                CaseRule::Sensitive => Err(ParseError::UnrecognizedLevel { token: text.to_owned() }),
                CaseRule::Insensitive => {
                    let folded = to_uppercase(text);
                    Level::from_folded(text, folded.as_str())
                },
            },
        }
    }

    fn index(&self) -> (i: u8)
        ensures
            i == self.rank(),
    {
        match self {
            Level::Trace => 0,
            Level::Debug => 1,
            Level::Info => 2,
            Level::Warn => 3,
            Level::Error => 4,
        }
    }
}

impl PartialOrd for Level {
    fn partial_cmp(&self, other: &Level) -> (r: Option<Ordering>) {
        let a: u8 = self.index();
        let b: u8 = other.index();
        if a < b {
            Some(Ordering::Less)
        } else if a == b {
            Some(Ordering::Equal)
        } else {
            Some(Ordering::Greater)
        }
    }
}

impl vstd::std_specs::cmp::PartialOrdSpecImpl for Level {
    open spec fn obeys_partial_cmp_spec() -> bool {
        true
    }

    open spec fn partial_cmp_spec(&self, other: &Level) -> Option<Ordering> {
        if self.rank() < other.rank() {
            Some(Ordering::Less)
        } else if self.rank() == other.rank() {
            Some(Ordering::Equal)
        } else {
            Some(Ordering::Greater)
        }
    }
}

/// A level is found again by its canonical name, and by no other text.
pub proof fn lemma_named_is_inverse_of_name(token: Seq<char>, level: Level)
    ensures
        Level::named(token) == Some(level) <==> token == level.name_text(),
        Level::named(level.name_text()) == Some(level),
{
    reveal_strlit("TRACE");
    reveal_strlit("DEBUG");
    reveal_strlit("INFO");
    reveal_strlit("WARN");
    reveal_strlit("ERROR");
    let name = level.name_text();
    assert(name.len() > 0);
    assert(name[0] != 'T' || level == Level::Trace);
    assert(name[0] != 'D' || level == Level::Debug);
    assert(name[0] != 'I' || level == Level::Info);
    assert(name[0] != 'W' || level == Level::Warn);
    assert(name[0] != 'E' || level == Level::Error);
}

/// A text parses to a level exactly if it stands for one, and a text that
/// parses to a level stands for that level.
pub proof fn lemma_parsed_denotes(text: Seq<char>, rule: CaseRule)
    ensures
        Level::parsed(text, rule) matches Some(level) ==> Level::denotes(text, rule, level),
        Level::parsed(text, rule) is None <==> forall|level: Level|
            !Level::denotes(text, rule, level),
{
    assert forall|level: Level| Level::parsed(text, rule) is None implies !Level::denotes(
        text,
        rule,
        level,
    ) by {
        lemma_named_is_inverse_of_name(text, level);
        lemma_named_is_inverse_of_name(uppercase_text(text), level);
    }
    if let Some(level) = Level::parsed(text, rule) {
        lemma_named_is_inverse_of_name(text, level);
        lemma_named_is_inverse_of_name(uppercase_text(text), level);
    }
}

/// Rendering a level and parsing the result gives the level back, whichever
/// way case is treated.
pub proof fn lemma_parse_inverts_render(level: Level, rule: CaseRule)
    ensures
        Level::parsed(level.name_text(), rule) == Some(level),
{
    lemma_named_is_inverse_of_name(level.name_text(), level);
}

/// The comparison operators order the levels as they are declared. Where
/// `a` stands at place `i` of the declared order and `b` at place `j`, `a` is
/// at least `b` exactly if `i >= j`, and likewise for `<`, `==` and `>`.
pub proof fn lemma_order_is_declared_order(a: Level, b: Level, i: int, j: int)
    requires
        0 <= i < Level::declared_order().len(),
        0 <= j < Level::declared_order().len(),
        Level::declared_order()[i] == a,
        Level::declared_order()[j] == b,
    ensures
        a.at_least(b) <==> i >= j,
        a.partial_cmp_spec(&b) matches Some(Ordering::Greater | Ordering::Equal) <==> i >= j,
        a.partial_cmp_spec(&b) == Some(Ordering::Greater) <==> i > j,
        a.partial_cmp_spec(&b) == Some(Ordering::Less) <==> i < j,
        a.partial_cmp_spec(&b) matches Some(Ordering::Less | Ordering::Equal) <==> i <= j,
        a.partial_cmp_spec(&b) == Some(Ordering::Equal) <==> i == j,
        a == b <==> i == j,
{
}

/// Every level stands in the declared order, at the place that its rank
/// gives and at no other.
pub proof fn lemma_declared_order_is_complete(level: Level, i: int)
    ensures
        0 <= level.rank() < Level::declared_order().len(),
        Level::declared_order()[level.rank()] == level,
        0 <= i < Level::declared_order().len() && Level::declared_order()[i] == level ==> i
            == level.rank(),
{
}

} // verus!
