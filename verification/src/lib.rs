//! A small leveled console logger.
//!
//! A [`Logger`] holds a minimum [`Level`]; a record below it is dropped, any
//! other becomes one line of text that starts with the level's name in its
//! ANSI colour. A [`CustomLoggerLayer`] turns a structured event (a level, a
//! name and keyed fields) into such a line, with the fields as a JSON object.
//!
//! The library computes lines and never writes them: what to do with a line
//! is the caller's choice.

pub mod fields;
pub mod json;
pub mod layer;
pub mod level;
pub mod logger;
pub mod text;

pub use fields::{FieldValue, FieldVisitor};
pub use layer::CustomLoggerLayer;
pub use level::{CaseRule, Color, Level, ParseError};
pub use logger::Logger;
