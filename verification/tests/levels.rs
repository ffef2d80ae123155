use loggix::{parse_level, Level};

#[test]
fn test_level_parsing() {
    assert_eq!(Level::from_str("INFO"), Some(Level::Info));
    assert_eq!(Level::from_str("invalid"), None);
}

#[test]
fn every_name_parses_in_any_case() {
    let names = [
        ("trace", Level::Trace),
        ("debug", Level::Debug),
        ("info", Level::Info),
        ("warn", Level::Warn),
        ("error", Level::Error),
        ("fatal", Level::Fatal),
        ("panic", Level::Panic),
    ];
    for (name, level) in names {
        assert_eq!(Level::from_str(name), Some(level));
        assert_eq!(Level::from_str(&name.to_uppercase()), Some(level));
        let mut mixed = name.to_string();
        let first = mixed.remove(0).to_ascii_uppercase();
        mixed.insert(0, first);
        assert_eq!(Level::from_str(&mixed), Some(level));
    }
}

#[test]
fn warning_is_a_synonym_of_warn() {
    assert_eq!(Level::from_str("warning"), Some(Level::Warn));
    assert_eq!(Level::from_str("WARNING"), Some(Level::Warn));
    assert_eq!(Level::from_str("WaRnInG"), Some(Level::Warn));
    assert_eq!(Level::from_str("warnin"), None);
    assert_eq!(Level::from_str("warnings"), None);
}

#[test]
fn parsing_trims_nothing() {
    assert_eq!(Level::from_str(" info"), None);
    assert_eq!(Level::from_str("info "), None);
    assert_eq!(Level::from_str("info\n"), None);
    assert_eq!(Level::from_str(""), None);
    assert_eq!(Level::from_str("inf"), None);
    assert_eq!(Level::from_str("infoo"), None);
}

#[test]
fn letters_outside_ascii_are_not_folded() {
    assert_eq!(Level::from_str("ınfo"), None);
    assert_eq!(Level::from_str("İNFO"), None);
    assert_eq!(Level::from_str("trÅce"), None);
}

#[test]
fn parse_level_is_from_str() {
    assert_eq!(parse_level("Fatal"), Some(Level::Fatal));
    assert_eq!(parse_level("nothing"), None);
}

#[test]
fn levels_are_ordered_by_severity() {
    let order = [
        Level::Trace,
        Level::Debug,
        Level::Info,
        Level::Warn,
        Level::Error,
        Level::Fatal,
        Level::Panic,
    ];
    for (i, low) in order.iter().enumerate() {
        assert_eq!(low.rank() as usize, i);
        for (j, high) in order.iter().enumerate() {
            assert_eq!(low.is_below(*high), i < j);
            assert_eq!(low < high, i < j);
            assert_eq!(low == high, i == j);
        }
    }
}

#[test]
fn display_names_are_upper_case() {
    assert_eq!(Level::Trace.to_string(), "TRACE");
    assert_eq!(Level::Debug.to_string(), "DEBUG");
    assert_eq!(Level::Info.to_string(), "INFO");
    assert_eq!(Level::Warn.to_string(), "WARN");
    assert_eq!(Level::Error.to_string(), "ERROR");
    assert_eq!(Level::Fatal.to_string(), "FATAL");
    assert_eq!(Level::Panic.to_string(), "PANIC");
    assert_eq!(Level::Warn.as_str(), "WARN");
    assert_eq!(Level::Warn.as_lowercase_str(), "warn");
    assert_eq!(Level::Panic.as_lowercase_str(), "panic");
}

#[test]
fn names_parse_back() {
    for level in [
        Level::Trace,
        Level::Debug,
        Level::Info,
        Level::Warn,
        Level::Error,
        Level::Fatal,
        Level::Panic,
    ] {
        assert_eq!(Level::from_str(&level.to_string()), Some(level));
        assert_eq!(Level::from_str(level.as_lowercase_str()), Some(level));
    }
}
