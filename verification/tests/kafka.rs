use loggix::{Context, Entry, Fields, FormatError, Hook, KafkaHook, Level, Timestamp, Value};

fn entry<'a>(context: &'a Context, fields: Fields) -> Entry<'a> {
    Entry {
        timestamp: Timestamp::new(1704164645, 0),
        level: Level::Info,
        message: "Test log message".to_string(),
        fields,
        logger: context,
    }
}

#[test]
fn kafka_hook_asks_for_every_level() {
    let hook = KafkaHook::new("localhost:9092", "logs".to_string());
    assert_eq!(
        hook.levels(),
        vec![
            Level::Trace,
            Level::Debug,
            Level::Info,
            Level::Warn,
            Level::Error,
            Level::Fatal,
            Level::Panic,
        ]
    );
    assert_eq!(hook.bootstrap_servers(), "localhost:9092");
    assert_eq!(hook.topic(), "logs");
}

#[test]
fn kafka_hook_cannot_fire_synchronously() {
    let hook = KafkaHook::new("localhost:9092", "logs".to_string());
    let context = Context { level: Level::Info, hooks: 1 };
    assert_eq!(
        hook.fire(&entry(&context, Fields::new())),
        Err("KafkaHook requires an async runtime. Please use fire_async or ensure you're in an async context.".to_string())
    );
}

#[test]
fn kafka_record_holds_topic_key_and_payload() {
    let hook = KafkaHook::new("localhost:9092", "test_logs".to_string())
        .with_key_field("correlation_id".to_string());
    let mut fields = Fields::new();
    fields.insert("correlation_id".to_string(), Value::string("test-123"));
    fields.insert("test_key".to_string(), Value::string("test_value"));
    let context = Context { level: Level::Info, hooks: 1 };
    let record = hook.record(&entry(&context, fields)).unwrap();
    assert_eq!(record.topic, "test_logs");
    assert_eq!(record.key, Some("test-123".to_string()));
    assert_eq!(
        record.payload,
        "{\"timestamp\":\"2024-01-02T03:04:05Z\",\"level\":\"info\",\"message\":\"Test log message\",\"fields\":{\"correlation_id\":\"test-123\",\"test_key\":\"test_value\"}}"
    );
    let parsed: serde_json::Value = serde_json::from_str(&record.payload).unwrap();
    assert_eq!(parsed["message"], "Test log message");
    assert_eq!(parsed["level"], "info");
    assert_eq!(parsed["fields"]["test_key"], "test_value");
}

#[test]
fn kafka_key_is_the_string_value_of_the_key_field() {
    let mut fields = Fields::new();
    fields.insert("id".to_string(), Value::string("abc"));
    fields.insert("count".to_string(), Value::unsigned(3));
    let plain = KafkaHook::new("b", "t".to_string());
    assert_eq!(plain.get_key_from_fields(&fields), None);
    let by_id = plain.clone().with_key_field("id".to_string());
    assert_eq!(by_id.get_key_from_fields(&fields), Some("abc".to_string()));
    let by_count = plain.clone().with_key_field("count".to_string());
    assert_eq!(by_count.get_key_from_fields(&fields), None);
    let by_missing = plain.with_key_field("missing".to_string());
    assert_eq!(by_missing.get_key_from_fields(&fields), None);
    assert_eq!(by_id.get_key_from_fields(&Fields::new()), None);
    let context = Context { level: Level::Info, hooks: 1 };
    assert_eq!(by_count.record(&entry(&context, fields)).unwrap().key, None);
}

#[test]
fn kafka_record_needs_an_instant_of_the_calendar() {
    let hook = KafkaHook::new("b", "t".to_string());
    let context = Context { level: Level::Info, hooks: 1 };
    let mut lost = entry(&context, Fields::new());
    lost.timestamp = Timestamp::new(i64::MAX, 0);
    assert_eq!(hook.record(&lost), Err(FormatError::Timestamp));
}
