use loggix::{
    set_level, Dispatch, Entry, Fields, Formatter, Hook, Hooks, JSONFormatter, Level, LogError,
    Logger, PostAction, TextFormatter, Timestamp, Value,
};
use std::sync::{Arc, Mutex};

/// Runs a dispatch to its end: writes into `sink`, fires hooks, collects the
/// reports of failed hooks.
fn drive<F: Formatter, H: Hooks>(
    logger: &Logger<F, H>,
    start: Dispatch,
    sink: &mut Vec<u8>,
    reports: &mut Vec<String>,
) -> Result<PostAction, LogError> {
    let mut state = start;
    loop {
        let outcome = match &state {
            Dispatch::Done(_) => break,
            Dispatch::Write { bytes, .. } => {
                sink.extend_from_slice(bytes);
                Ok(())
            }
            Dispatch::Fire { entry, hook } => logger.fire_hook(*hook, entry),
        };
        let (next, report) = logger.resume(state, outcome);
        if let Some(line) = report {
            reports.push(line);
        }
        state = next;
    }
    match state {
        Dispatch::Done(result) => result,
        _ => unreachable!(),
    }
}

fn log<F: Formatter, H: Hooks>(
    logger: &Logger<F, H>,
    sink: &mut Vec<u8>,
    level: Level,
    message: &str,
    fields: Fields,
) -> Result<PostAction, LogError> {
    let mut reports = Vec::new();
    drive(logger, logger.log(level, message, fields), sink, &mut reports)
}

fn plain() -> TextFormatter {
    TextFormatter::default().colors(false)
}

/// A hook that counts how often it is fired and remembers the messages.
struct TestHook {
    levels: Vec<Level>,
    fired: Arc<Mutex<Vec<String>>>,
    fails: bool,
}

impl TestHook {
    fn new(levels: Vec<Level>) -> (Self, Arc<Mutex<Vec<String>>>) {
        let fired = Arc::new(Mutex::new(Vec::new()));
        (TestHook { levels, fired: Arc::clone(&fired), fails: false }, fired)
    }

    fn failing(levels: Vec<Level>) -> (Self, Arc<Mutex<Vec<String>>>) {
        let (mut hook, fired) = TestHook::new(levels);
        hook.fails = true;
        (hook, fired)
    }
}

impl Hook for TestHook {
    fn levels(&self) -> Vec<Level> {
        self.levels.clone()
    }

    fn fire(&self, entry: &Entry) -> Result<(), String> {
        self.fired.lock().unwrap().push(entry.message.clone());
        if self.fails {
            Err("hook is down".to_string())
        } else {
            Ok(())
        }
    }
}

#[test]
fn test_basic_logging() {
    let logger = Logger::new().formatter(plain()).build();
    let mut sink = Vec::new();
    log(&logger, &mut sink, Level::Info, "test message", Fields::new()).unwrap();
    let output = String::from_utf8(sink).unwrap();
    assert!(output.contains("test message"));
}

#[test]
fn test_json_formatter() {
    let logger = Logger::new().formatter(JSONFormatter::default()).build();
    let mut fields = Fields::new();
    fields.insert("key".to_string(), Value::string("value"));
    let mut sink = Vec::new();
    log(&logger, &mut sink, Level::Info, "test message", fields).unwrap();
    let output = String::from_utf8(sink).unwrap();
    let parsed: serde_json::Value = serde_json::from_str(&output).unwrap();
    assert_eq!(parsed["message"], "test message");
    assert_eq!(parsed["fields"]["key"], "value");
}

#[test]
fn test_hooks() {
    let (hook, fired) = TestHook::new(vec![Level::Info]);
    let logger = Logger::new().add_hook(hook).build();
    let mut sink = Vec::new();
    log(&logger, &mut sink, Level::Info, "test message", Fields::new()).unwrap();
    assert!(!fired.lock().unwrap().is_empty());
}

#[test]
fn test_with_error_and_time() {
    let logger = Logger::new().formatter(plain()).build();
    let error = std::io::Error::new(std::io::ErrorKind::Other, "test error");
    let time = Timestamp::now();
    let mut sink = Vec::new();
    let mut reports = Vec::new();
    let start = logger
        .with_fields(Fields::new())
        .with_error(&error.to_string())
        .with_time(time)
        .info("test message");
    drive(&logger, start, &mut sink, &mut reports).unwrap();
    let output = String::from_utf8(sink).unwrap();
    assert!(output.contains("test message"));
    assert!(output.contains("test error"));
}

#[test]
fn test_with_fields_map() {
    let logger = Logger::new().formatter(plain()).build();
    let fields = vec![("key".to_string(), Value::string("value"))];
    let mut sink = Vec::new();
    let mut reports = Vec::new();
    let start = logger.with_fields(Fields::new()).with_fields_map(&fields).info("test message");
    drive(&logger, start, &mut sink, &mut reports).unwrap();
    let output = String::from_utf8(sink).unwrap();
    assert!(output.contains("test message"));
    assert!(output.contains("key"));
    assert!(output.contains("value"));
}

#[test]
fn test_all_log_levels() {
    let logger = Logger::new().level(Level::Trace).formatter(plain()).build();
    let mut sink = Vec::new();
    log(&logger, &mut sink, Level::Trace, "trace message", Fields::new()).unwrap();
    log(&logger, &mut sink, Level::Debug, "debug message", Fields::new()).unwrap();
    log(&logger, &mut sink, Level::Info, "info message", Fields::new()).unwrap();
    log(&logger, &mut sink, Level::Warn, "warn message", Fields::new()).unwrap();
    log(&logger, &mut sink, Level::Error, "error message", Fields::new()).unwrap();
    log(&logger, &mut sink, Level::Fatal, "fatal message", Fields::new()).unwrap();
    log(&logger, &mut sink, Level::Panic, "panic message", Fields::new()).unwrap();

    let output = String::from_utf8(sink).unwrap();

    assert!(output.contains("trace message"));
    assert!(output.contains("debug message"));
    assert!(output.contains("info message"));
    assert!(output.contains("warn message"));
    assert!(output.contains("error message"));
    assert!(output.contains("fatal message"));
    assert!(output.contains("panic message"));

    assert!(output.contains("TRACE"));
    assert!(output.contains("DEBUG"));
    assert!(output.contains("INFO"));
    assert!(output.contains("WARN"));
    assert!(output.contains("ERROR"));
    assert!(output.contains("FATAL"));
    assert!(output.contains("PANIC"));
}

#[test]
fn entries_below_the_minimum_are_dropped() {
    let order = [
        Level::Trace,
        Level::Debug,
        Level::Info,
        Level::Warn,
        Level::Error,
        Level::Fatal,
        Level::Panic,
    ];
    for minimum in order {
        for level in order {
            let (hook, fired) = TestHook::new(order.to_vec());
            let logger = Logger::new().level(minimum).formatter(plain()).add_hook(hook);
            let mut sink = Vec::new();
            let start = logger.log(level, "message", Fields::new());
            if level < minimum {
                assert!(matches!(start, Dispatch::Done(Ok(PostAction::Return))));
            } else {
                assert!(matches!(start, Dispatch::Write { .. }));
            }
            let mut reports = Vec::new();
            drive(&logger, start, &mut sink, &mut reports).unwrap();
            assert_eq!(sink.is_empty(), level < minimum);
            assert_eq!(fired.lock().unwrap().len(), if level < minimum { 0 } else { 1 });
        }
    }
}

#[test]
fn default_minimum_is_info() {
    let logger = Logger::new();
    assert_eq!(logger.minimum(), Level::Info);
    assert_eq!(logger.context().hooks, 0);
    let mut sink = Vec::new();
    log(&logger, &mut sink, Level::Debug, "quiet", Fields::new()).unwrap();
    assert!(sink.is_empty());
    log(&logger, &mut sink, Level::Info, "loud", Fields::new()).unwrap();
    assert!(!sink.is_empty());
}

#[test]
fn hook_fires_once_for_its_level_only() {
    let (hook, fired) = TestHook::new(vec![Level::Info]);
    let logger = Logger::new().level(Level::Trace).formatter(plain()).add_hook(hook);
    let mut sink = Vec::new();
    log(&logger, &mut sink, Level::Info, "one", Fields::new()).unwrap();
    assert_eq!(*fired.lock().unwrap(), vec!["one".to_string()]);
    log(&logger, &mut sink, Level::Debug, "two", Fields::new()).unwrap();
    log(&logger, &mut sink, Level::Error, "three", Fields::new()).unwrap();
    assert_eq!(*fired.lock().unwrap(), vec!["one".to_string()]);
    assert_eq!(String::from_utf8(sink).unwrap().lines().count(), 3);
}

#[test]
fn hooks_fire_in_the_order_they_were_added() {
    let fired = Arc::new(Mutex::new(Vec::new()));
    let first = TestHook { levels: vec![Level::Warn], fired: Arc::clone(&fired), fails: false };
    let second = TestHook { levels: vec![Level::Info], fired: Arc::clone(&fired), fails: false };
    let third = TestHook {
        levels: vec![Level::Info, Level::Warn],
        fired: Arc::clone(&fired),
        fails: false,
    };
    let logger = Logger::new().formatter(plain()).add_hook(first).add_hook(second).add_hook(third);
    assert_eq!(logger.context().hooks, 3);
    assert_eq!(logger.hooks().len(), 3);

    let start = logger.log(Level::Warn, "w", Fields::new());
    let (state, report) = logger.resume(start, Ok(()));
    assert!(report.is_none());
    assert!(matches!(state, Dispatch::Fire { hook: 0, .. }));
    let (state, _) = logger.resume(state, Ok(()));
    assert!(matches!(state, Dispatch::Fire { hook: 2, .. }));
    let (state, _) = logger.resume(state, Ok(()));
    assert!(matches!(state, Dispatch::Done(Ok(PostAction::Return))));
    let (state, report) = logger.resume(state, Ok(()));
    assert!(matches!(state, Dispatch::Done(Ok(PostAction::Return))));
    assert!(report.is_none());

    let start = logger.log(Level::Info, "i", Fields::new());
    let (state, _) = logger.resume(start, Ok(()));
    assert!(matches!(state, Dispatch::Fire { hook: 1, .. }));
    let (state, _) = logger.resume(state, Ok(()));
    assert!(matches!(state, Dispatch::Fire { hook: 2, .. }));
    let (state, _) = logger.resume(state, Ok(()));
    assert!(matches!(state, Dispatch::Done(Ok(PostAction::Return))));
}

#[test]
fn failing_hook_does_not_fail_the_dispatch() {
    let (broken, broken_fired) = TestHook::failing(vec![Level::Info]);
    let (sound, sound_fired) = TestHook::new(vec![Level::Info]);
    let logger = Logger::new().formatter(plain()).add_hook(broken).add_hook(sound);
    let mut sink = Vec::new();
    let mut reports = Vec::new();
    let start = logger.log_at(Timestamp::new(0, 0), Level::Info, "still there", Fields::new());
    assert_eq!(drive(&logger, start, &mut sink, &mut reports), Ok(PostAction::Return));
    assert_eq!(
        String::from_utf8(sink).unwrap(),
        "[1970-01-01T00:00:00.000Z] [INFO] still there\n"
    );
    assert_eq!(broken_fired.lock().unwrap().len(), 1);
    assert_eq!(sound_fired.lock().unwrap().len(), 1);
    assert_eq!(reports, vec!["Hook failed: hook is down".to_string()]);
}

#[test]
fn failed_write_fails_the_dispatch_and_fires_no_hook() {
    let (hook, fired) = TestHook::new(vec![Level::Info]);
    let logger = Logger::new().formatter(plain()).add_hook(hook);
    let start = logger.log(Level::Info, "lost", Fields::new());
    assert!(matches!(start, Dispatch::Write { .. }));
    let (state, report) = logger.resume(start, Err("disk full".to_string()));
    assert!(report.is_none());
    match state {
        Dispatch::Done(Err(LogError::Write(why))) => assert_eq!(why, "disk full"),
        _ => panic!("the dispatch went on after a failed write"),
    }
    assert!(fired.lock().unwrap().is_empty());
}

#[test]
fn fatal_and_panic_have_consequences_after_the_record_is_out() {
    let (hook, fired) = TestHook::new(vec![Level::Fatal, Level::Panic]);
    let logger = Logger::new().formatter(plain()).add_hook(hook);
    let mut sink = Vec::new();
    assert_eq!(log(&logger, &mut sink, Level::Error, "e", Fields::new()), Ok(PostAction::Return));
    assert_eq!(log(&logger, &mut sink, Level::Fatal, "f", Fields::new()), Ok(PostAction::Exit));
    assert_eq!(log(&logger, &mut sink, Level::Panic, "p", Fields::new()), Ok(PostAction::Panic));
    assert_eq!(*fired.lock().unwrap(), vec!["f".to_string(), "p".to_string()]);
    assert_eq!(String::from_utf8(sink).unwrap().lines().count(), 3);
    assert_eq!(loggix::logger::consequence(Level::Warn), PostAction::Return);
    assert_eq!(loggix::logger::consequence(Level::Fatal), PostAction::Exit);
    assert_eq!(loggix::logger::consequence(Level::Panic), PostAction::Panic);
}

#[test]
fn firing_a_hook_that_is_not_there_fails() {
    let (hook, _) = TestHook::new(vec![Level::Info]);
    let logger = Logger::new().add_hook(hook);
    let context = *logger.context();
    let entry = Entry {
        timestamp: Timestamp::new(0, 0),
        level: Level::Info,
        message: "m".to_string(),
        fields: Fields::new(),
        logger: &context,
    };
    assert_eq!(logger.fire_hook(0, &entry), Ok(()));
    assert_eq!(logger.fire_hook(1, &entry), Err("no hook at this place".to_string()));
    assert_eq!(Logger::new().fire_hook(0, &entry), Err("no hook at this place".to_string()));
    let (broken, _) = TestHook::failing(vec![Level::Info]);
    let chained = Logger::new().add_hook(broken);
    assert_eq!(chained.fire_hook(0, &entry), Err("hook is down".to_string()));
    assert_eq!(chained.hooks().fire(0, &entry), Err("hook is down".to_string()));
    assert_eq!(chained.hooks().fire(7, &entry), Err("no hook at this place".to_string()));
    assert_eq!(loggix::NoHooks.fire(0, &entry), Err("no hook at this place".to_string()));
}

#[test]
fn entry_carries_the_context_of_its_logger() {
    let (hook, _) = TestHook::new(vec![Level::Info]);
    let logger = Logger::new().level(Level::Debug).formatter(plain()).add_hook(hook);
    let mut fields = Fields::new();
    fields.insert("k".to_string(), Value::unsigned(1));
    match logger.log_at(Timestamp::new(5, 6), Level::Warn, "m", fields.clone()) {
        Dispatch::Write { entry, .. } => {
            assert_eq!(entry.timestamp, Timestamp::new(5, 6));
            assert_eq!(entry.level, Level::Warn);
            assert_eq!(entry.message, "m");
            assert_eq!(entry.fields, fields);
            assert_eq!(entry.logger.level, Level::Debug);
            assert_eq!(entry.logger.hooks, 1);
        }
        _ => panic!("the entry was not rendered"),
    }
}

#[test]
fn many_records_each_appear_once_and_whole() {
    let logger = Logger::new().formatter(JSONFormatter::new()).build();
    let mut sink = Vec::new();
    for writer in 0..4 {
        for number in 0..25 {
            let shared = Arc::clone(&logger);
            let message = format!("writer {} message {}", writer, number);
            log(&shared, &mut sink, Level::Info, &message, Fields::new()).unwrap();
        }
    }
    let output = String::from_utf8(sink).unwrap();
    let mut seen = Vec::new();
    for line in output.lines() {
        let parsed: serde_json::Value = serde_json::from_str(line).unwrap();
        seen.push(parsed["message"].as_str().unwrap().to_string());
    }
    assert_eq!(seen.len(), 100);
    for writer in 0..4 {
        for number in 0..25 {
            let message = format!("writer {} message {}", writer, number);
            assert_eq!(seen.iter().filter(|m| **m == message).count(), 1);
        }
    }
}

#[test]
fn set_level_changes_the_logger_itself() {
    let mut logger = Logger::new().formatter(plain());
    let mut sink = Vec::new();
    log(&logger, &mut sink, Level::Debug, "before", Fields::new()).unwrap();
    assert!(sink.is_empty());
    set_level(&mut logger, Level::Debug);
    assert_eq!(logger.minimum(), Level::Debug);
    log(&logger, &mut sink, Level::Debug, "after", Fields::new()).unwrap();
    assert!(String::from_utf8(sink).unwrap().contains("after"));
    logger.set_level(Level::Panic);
    assert_eq!(logger.context().level, Level::Panic);
}

#[test]
fn conclusion_fires_the_hooks_that_ask_in_their_order() {
    let fired = Arc::new(Mutex::new(Vec::new()));
    let first = TestHook { levels: vec![Level::Warn], fired: Arc::clone(&fired), fails: true };
    let second = TestHook { levels: vec![Level::Info], fired: Arc::clone(&fired), fails: false };
    let third = TestHook {
        levels: vec![Level::Info, Level::Warn],
        fired: Arc::clone(&fired),
        fails: true,
    };
    let logger = Logger::new().formatter(plain()).add_hook(first).add_hook(second).add_hook(third);

    let done = logger.conclude(logger.log(Level::Warn, "w", Fields::new()), Ok(()));
    assert_eq!(done.result, Ok(PostAction::Return));
    assert_eq!(done.fired, vec![0, 2]);
    assert_eq!(
        done.reports,
        vec!["Hook failed: hook is down".to_string(), "Hook failed: hook is down".to_string()]
    );
    assert_eq!(*fired.lock().unwrap(), vec!["w".to_string(), "w".to_string()]);

    let done = logger.conclude(logger.log(Level::Info, "i", Fields::new()), Ok(()));
    assert_eq!(done.result, Ok(PostAction::Return));
    assert_eq!(done.fired, vec![1, 2]);
    assert_eq!(done.reports, vec!["Hook failed: hook is down".to_string()]);

    let done = logger.conclude(logger.log(Level::Error, "e", Fields::new()), Ok(()));
    assert_eq!(done.result, Ok(PostAction::Return));
    assert!(done.fired.is_empty());
    assert!(done.reports.is_empty());
}

#[test]
fn conclusion_of_a_failed_write_fires_nothing() {
    let (hook, fired) = TestHook::new(vec![Level::Info]);
    let logger = Logger::new().formatter(plain()).add_hook(hook);
    let start = logger.log(Level::Info, "lost", Fields::new());
    let done = logger.conclude(start, Err("disk full".to_string()));
    assert_eq!(done.result, Err(LogError::Write("disk full".to_string())));
    assert_eq!(done.result.unwrap_err().message(), "disk full");
    assert!(done.fired.is_empty());
    assert!(done.reports.is_empty());
    assert!(fired.lock().unwrap().is_empty());
}

#[test]
fn conclusion_of_a_dropped_entry_is_its_result() {
    let (hook, fired) = TestHook::new(vec![Level::Debug]);
    let logger = Logger::new().level(Level::Warn).add_hook(hook);
    let start = logger.log(Level::Debug, "quiet", Fields::new());
    let done = logger.conclude(start, Err("not looked at".to_string()));
    assert_eq!(done.result, Ok(PostAction::Return));
    assert!(done.fired.is_empty());
    assert!(fired.lock().unwrap().is_empty());
}

#[test]
fn conclusion_goes_on_from_a_hook() {
    let (first, first_fired) = TestHook::new(vec![Level::Fatal]);
    let (second, second_fired) = TestHook::new(vec![Level::Fatal]);
    let logger = Logger::new().formatter(plain()).add_hook(first).add_hook(second);
    let start = logger.log(Level::Fatal, "end", Fields::new());
    let (state, _) = logger.resume(start, Ok(()));
    let (state, _) = logger.resume(state, Ok(()));
    assert!(matches!(state, Dispatch::Fire { hook: 1, .. }));
    let done = logger.conclude(state, Ok(()));
    assert_eq!(done.result, Ok(PostAction::Exit));
    assert_eq!(done.fired, vec![1]);
    assert!(first_fired.lock().unwrap().is_empty());
    assert_eq!(second_fired.lock().unwrap().len(), 1);
}
