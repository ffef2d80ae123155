use loggix::json::encode;
use loggix::{Decimal, Dispatch, Fields, JSONFormatter, Level, Logger, Number, TextFormatter, Timestamp, Value};

const NUMBERS: [&str; 18] = [
    "0",
    "-0",
    "7",
    "10",
    "-12",
    "1.5",
    "-1.5",
    "0.0",
    "0.001",
    "1e10",
    "1E10",
    "1e+10",
    "1e-10",
    "1.5e3",
    "-2.25E-7",
    "0e0",
    "1.7976931348623157e308",
    "123456789012345678901234567890",
];

const NOT_NUMBERS: [&str; 30] = [
    "",
    "-",
    "+1",
    "01",
    "-01",
    "00",
    "1.",
    ".5",
    "-.5",
    "1e",
    "1e+",
    "1e-",
    "1E+-1",
    "1.5.2",
    "1e1.5",
    "1e1e1",
    " 1",
    "1 ",
    "1a",
    "a1",
    "0x10",
    "NaN",
    "Infinity",
    "--1",
    "1,5",
    "1_000",
    "١",
    "1é",
    "e5",
    "1.e5",
];

#[test]
fn decimals_are_the_numbers_of_json() {
    for text in NUMBERS {
        let number = Decimal::parse(text).unwrap();
        assert_eq!(number.as_str(), text);
        assert_eq!(number.clone(), number);
        assert!(serde_json::from_str::<serde_json::Value>(text).unwrap().is_number());
    }
    for text in NOT_NUMBERS {
        assert_eq!(Decimal::parse(text), None);
        if text.trim() == text {
            let parsed = serde_json::from_str::<serde_json::Value>(text);
            assert!(!matches!(parsed, Ok(value) if value.is_number()));
        }
    }
}

#[test]
fn decimal_values_are_written_as_they_are_held() {
    assert_eq!(Value::decimal("1.5").unwrap(), Value::Number(Number::Decimal(Decimal::parse("1.5").unwrap())));
    assert_eq!(Value::decimal("1.5.2"), None);
    assert_eq!(Value::decimal(""), None);
    for text in NUMBERS {
        let value = Value::decimal(text).unwrap();
        assert_eq!(encode(&value, false), text);
        assert_eq!(encode(&value, true), text);
        assert_eq!(value.as_str(), None);
        assert_eq!(value.duplicate(), value);
    }
    assert_eq!(Number::Decimal(Decimal::parse("2.5").unwrap()).duplicate(), Number::Decimal(Decimal::parse("2.5").unwrap()));
    assert_eq!(Number::Signed(-3).clone(), Number::Signed(-3));
    assert_eq!(Number::Unsigned(3).duplicate(), Number::Unsigned(3));
}

#[test]
fn decimal_fields_are_numbers_in_both_formats() {
    let mut fields = Fields::new();
    fields.insert("ratio".to_string(), Value::decimal("0.25").unwrap());
    fields.insert("big".to_string(), Value::decimal("-1.5e300").unwrap());
    let now = Timestamp::new(1704164645, 0);
    let text = Logger::new().formatter(TextFormatter::new().colors(false));
    match text.log_at(now, Level::Info, "m", fields.clone()) {
        Dispatch::Write { bytes, .. } => assert_eq!(
            String::from_utf8(bytes).unwrap(),
            "[2024-01-02T03:04:05.000Z] [INFO] m ratio=0.25 big=-1.5e300\n"
        ),
        _ => panic!("nothing is to be written"),
    }
    let json = Logger::new().formatter(JSONFormatter::new());
    match json.log_at(now, Level::Info, "m", fields) {
        Dispatch::Write { bytes, .. } => {
            let output = String::from_utf8(bytes).unwrap();
            assert_eq!(
                output,
                "{\"timestamp\":\"2024-01-02T03:04:05Z\",\"level\":\"info\",\"message\":\"m\",\"fields\":{\"ratio\":0.25,\"big\":-1.5e300}}\n"
            );
            let parsed: serde_json::Value = serde_json::from_str(&output).unwrap();
            assert_eq!(parsed["fields"]["ratio"].as_f64(), Some(0.25));
            assert_eq!(parsed["fields"]["big"].as_f64(), Some(-1.5e300));
        }
        _ => panic!("nothing is to be written"),
    }
}
