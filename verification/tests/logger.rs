use custom_logger::{CaseRule, Level, Logger};

const ALL: [Level; 5] = [Level::Trace, Level::Debug, Level::Info, Level::Warn, Level::Error];

#[test]
fn record_below_the_minimum_gives_no_line() {
    assert_eq!(Logger::new(Level::Warn).log(Level::Info, "x"), None);
}

#[test]
fn record_at_or_above_the_minimum_gives_the_exact_line() {
    assert_eq!(
        Logger::new(Level::Warn).log(Level::Error, "x"),
        Some("[\x1b[31mERROR\x1b[0m] x".to_string())
    );
    assert_eq!(
        Logger::new(Level::Warn).log(Level::Warn, "x"),
        Some("[\x1b[33mWARN\x1b[0m] x".to_string())
    );
}

#[test]
fn line_of_each_level() {
    let logger = Logger::new(Level::Trace);
    assert_eq!(logger.trace("a b"), Some("[\x1b[90mTRACE\x1b[0m] a b".to_string()));
    assert_eq!(logger.debug("a b"), Some("[\x1b[34mDEBUG\x1b[0m] a b".to_string()));
    assert_eq!(logger.info("a b"), Some("[\x1b[32mINFO\x1b[0m] a b".to_string()));
    assert_eq!(logger.warn("a b"), Some("[\x1b[33mWARN\x1b[0m] a b".to_string()));
    assert_eq!(logger.error("a b"), Some("[\x1b[31mERROR\x1b[0m] a b".to_string()));
}

#[test]
fn message_is_kept_as_it_is() {
    let logger = Logger::new(Level::Info);
    assert_eq!(logger.info(""), Some("[\x1b[32mINFO\x1b[0m] ".to_string()));
    assert_eq!(
        logger.info("two\nlines \u{e9}"),
        Some("[\x1b[32mINFO\x1b[0m] two\nlines \u{e9}".to_string())
    );
}

#[test]
fn a_line_is_given_exactly_from_the_minimum_on() {
    for minimum in ALL {
        let logger = Logger::new(minimum);
        for level in ALL {
            assert_eq!(logger.enabled(level), level >= minimum);
            assert_eq!(logger.log(level, "m").is_some(), level >= minimum);
        }
    }
}

#[test]
fn convenience_calls_are_log_with_their_level() {
    for minimum in ALL {
        let logger = Logger::new(minimum);
        assert_eq!(logger.trace("m"), logger.log(Level::Trace, "m"));
        assert_eq!(logger.debug("m"), logger.log(Level::Debug, "m"));
        assert_eq!(logger.info("m"), logger.log(Level::Info, "m"));
        assert_eq!(logger.warn("m"), logger.log(Level::Warn, "m"));
        assert_eq!(logger.error("m"), logger.log(Level::Error, "m"));
    }
}

#[test]
fn new_keeps_the_level() {
    for level in ALL {
        assert_eq!(Logger::new(level).level, level);
    }
}

#[test]
fn unset_setting_means_info() {
    assert_eq!(Logger::default(None, CaseRule::Sensitive).level, Level::Info);
    assert_eq!(Logger::default(None, CaseRule::Insensitive).level, Level::Info);
}

#[test]
fn unparseable_setting_means_info() {
    assert_eq!(Logger::default(Some("bogus"), CaseRule::Sensitive).level, Level::Info);
    assert_eq!(Logger::default(Some("bogus"), CaseRule::Insensitive).level, Level::Info);
    assert_eq!(Logger::default(Some(""), CaseRule::Insensitive).level, Level::Info);
}

#[test]
fn setting_names_the_minimum_level() {
    for level in ALL {
        assert_eq!(Logger::default(Some(level.as_str()), CaseRule::Sensitive).level, level);
        assert_eq!(Logger::default(Some(level.as_str()), CaseRule::Insensitive).level, level);
    }
    assert_eq!(Logger::default(Some("error"), CaseRule::Insensitive).level, Level::Error);
    assert_eq!(Logger::default(Some("error"), CaseRule::Sensitive).level, Level::Info);
}

#[test]
fn loggers_are_independent() {
    let quiet = Logger::default(Some("ERROR"), CaseRule::Sensitive);
    let loud = Logger::default(Some("TRACE"), CaseRule::Sensitive);
    assert_eq!(quiet.warn("w"), None);
    assert_eq!(loud.warn("w"), Some("[\x1b[33mWARN\x1b[0m] w".to_string()));
    let copy = (*quiet).clone();
    assert_eq!(copy.level, Level::Error);
}
