use loggix::{Context, Entry, Fields, Formatter, Level, TextFormatter, Timestamp};

fn line(formatter: &TextFormatter, level: Level) -> String {
    let context = Context { level: Level::Trace, hooks: 0 };
    let entry = Entry {
        timestamp: Timestamp::new(1704164645, 678_000_000),
        level,
        message: "m".to_string(),
        fields: Fields::new(),
        logger: &context,
    };
    String::from_utf8(formatter.format(&entry).unwrap()).unwrap()
}

#[test]
fn level_names_are_painted_when_colors_are_forced() {
    colored::control::set_override(true);
    let formatter = TextFormatter::new();
    let expected = [
        (Level::Trace, "\u{1b}[37mTRACE\u{1b}[0m"),
        (Level::Debug, "\u{1b}[34mDEBUG\u{1b}[0m"),
        (Level::Info, "\u{1b}[32mINFO\u{1b}[0m"),
        (Level::Warn, "\u{1b}[33mWARN\u{1b}[0m"),
        (Level::Error, "\u{1b}[31mERROR\u{1b}[0m"),
        (Level::Fatal, "\u{1b}[1;31mFATAL\u{1b}[0m"),
        (Level::Panic, "\u{1b}[1;31mPANIC\u{1b}[0m"),
    ];
    for (level, shown) in expected {
        assert_eq!(level.colored_name(), shown);
        assert_eq!(
            line(&formatter, level),
            format!("[2024-01-02T03:04:05.678Z] [{}] m\n", shown)
        );
    }
    colored::control::unset_override();
}

#[test]
fn level_names_are_bare_when_colors_are_refused() {
    colored::control::set_override(false);
    let formatter = TextFormatter::new();
    for level in [Level::Trace, Level::Info, Level::Fatal] {
        assert_eq!(level.colored_name(), level.to_string());
        assert_eq!(
            line(&formatter, level),
            format!("[2024-01-02T03:04:05.678Z] [{}] m\n", level.to_string())
        );
    }
    colored::control::unset_override();
}

#[test]
fn colors_off_differs_by_the_escape_sequences_alone() {
    colored::control::set_override(true);
    for level in [Level::Debug, Level::Warn, Level::Panic] {
        let with = line(&TextFormatter::new(), level);
        let without = line(&TextFormatter::new().colors(false), level);
        let code = if level.emphasized() { "1;" } else { "" };
        let number = match level.tint() {
            loggix::color::Tint::White => "37",
            loggix::color::Tint::Blue => "34",
            loggix::color::Tint::Green => "32",
            loggix::color::Tint::Yellow => "33",
            loggix::color::Tint::Red => "31",
        };
        let stripped = with
            .replace(&format!("\u{1b}[{}{}m", code, number), "")
            .replace("\u{1b}[0m", "");
        assert_eq!(stripped, without);
        assert_ne!(with, without);
    }
    colored::control::unset_override();
}
