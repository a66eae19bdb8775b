use custom_logger::fields::FieldVisitor;
use custom_logger::{CaseRule, CustomLoggerLayer, Level, Logger};
use std::sync::Arc;

fn layer(minimum: Level) -> CustomLoggerLayer {
    CustomLoggerLayer { logger: Arc::new(Logger::new(minimum)) }
}

#[test]
fn event_with_message_and_fields() {
    let mut fields = FieldVisitor::new();
    fields.record_debug("message", "saved");
    fields.record_i64("count", 3);
    fields.record_bool("ok", true);
    assert_eq!(
        layer(Level::Info).on_event(Level::Warn, "event src/main.rs:10", fields),
        Some("[\x1b[33mWARN\x1b[0m] saved {\"count\":3,\"ok\":true}".to_string())
    );
}

#[test]
fn event_without_message_falls_back_to_its_name() {
    let mut fields = FieldVisitor::new();
    fields.record_u64("count", 3);
    assert_eq!(
        layer(Level::Info).on_event(Level::Info, "event src/main.rs:10", fields),
        Some("[\x1b[32mINFO\x1b[0m] event src/main.rs:10 {\"count\":3}".to_string())
    );
}

#[test]
fn event_without_fields() {
    assert_eq!(
        layer(Level::Trace).on_event(Level::Debug, "tick", FieldVisitor::new()),
        Some("[\x1b[34mDEBUG\x1b[0m] tick {}".to_string())
    );
}

#[test]
fn message_given_as_text() {
    let mut fields = FieldVisitor::new();
    fields.record_str("message", "hello \"world\"");
    fields.record_str("who", "a \"b\"");
    assert_eq!(
        layer(Level::Trace).on_event(Level::Error, "name", fields),
        Some("[\x1b[31mERROR\x1b[0m] hello \"world\" {\"who\":\"a \\\"b\\\"\"}".to_string())
    );
}

#[test]
fn message_that_is_no_text_falls_back_to_the_name() {
    let mut fields = FieldVisitor::new();
    fields.record_bool("message", true);
    fields.record_i64("n", 1);
    assert_eq!(
        layer(Level::Trace).on_event(Level::Trace, "the name", fields),
        Some("[\x1b[90mTRACE\x1b[0m] the name {\"n\":1}".to_string())
    );
}

#[test]
fn last_message_wins() {
    let mut fields = FieldVisitor::new();
    fields.record_str("message", "first");
    fields.record_str("message", "second");
    assert_eq!(
        layer(Level::Trace).on_event(Level::Info, "name", fields),
        Some("[\x1b[32mINFO\x1b[0m] second {}".to_string())
    );
}

#[test]
fn event_below_the_minimum_gives_no_line() {
    let mut fields = FieldVisitor::new();
    fields.record_debug("message", "saved");
    assert_eq!(layer(Level::Warn).on_event(Level::Info, "name", fields), None);
    assert_eq!(layer(Level::Error).on_event(Level::Warn, "name", FieldVisitor::new()), None);
}

#[test]
fn event_is_filtered_as_a_record_is() {
    let all = [Level::Trace, Level::Debug, Level::Info, Level::Warn, Level::Error];
    for minimum in all {
        for level in all {
            let line = layer(minimum).on_event(level, "name", FieldVisitor::new());
            assert_eq!(line, Logger::new(minimum).log(level, "name {}"));
            assert_eq!(line.is_some(), level >= minimum);
        }
    }
}

#[test]
fn layer_shares_its_logger() {
    let logger = Logger::default(Some("warn"), CaseRule::Insensitive);
    let adapter = CustomLoggerLayer { logger: logger.clone() };
    assert_eq!(adapter.logger.level, Level::Warn);
    assert_eq!(adapter.on_event(Level::Info, "name", FieldVisitor::new()), None);
    assert_eq!(logger.error("x"), Some("[\x1b[31mERROR\x1b[0m] x".to_string()));
}
