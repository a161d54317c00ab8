use container_monitoring::formatter::{LogFormatter, LogRecord, LogValue};
use container_monitoring::logging::{Level, OutputFormat};

fn record(message: &str) -> LogRecord {
    LogRecord {
        level: Level::Info,
        message: String::from(message),
        file: Some(String::from("app.rs")),
        line: Some(42),
        module: Some(String::from("app::web")),
    }
}

fn formatter(format: OutputFormat) -> LogFormatter {
    LogFormatter::new(true, true, false, None, Vec::new(), format)
}

#[test]
fn test_json_format_plain_message() {
    let f = formatter(OutputFormat::Json);
    let out = f.format(&record("hello world")).unwrap();
    assert_eq!(
        out,
        "{\"level\":\"INFO\",\"message\":\"hello world\",\"location\":\"app.rs:42\",\"module\":\"app::web\"}"
    );
}

#[test]
fn test_json_format_extracts_key_values() {
    let f = LogFormatter::new(false, false, false, None, Vec::new(), OutputFormat::Json);
    let out = f
        .format(&record("user logged in user_id=42 active=true score=4.50 name=alice"))
        .unwrap();
    assert_eq!(
        out,
        "{\"level\":\"INFO\",\"message\":\"user logged in\",\"user_id\":42,\"active\":true,\"score\":4.5,\"name\":\"alice\"}"
    );
}

#[test]
fn test_json_format_escapes_strings() {
    let f = LogFormatter::new(false, false, false, None, Vec::new(), OutputFormat::Json);
    let out = f.format(&record("value v=say\t\"hi\"")).unwrap();
    assert_eq!(
        out,
        "{\"level\":\"INFO\",\"message\":\"value\",\"v\":\"say\\t\\\"hi\\\"\"}"
    );
}

#[test]
fn test_compact_format() {
    let f = LogFormatter::new(false, false, false, None, Vec::new(), OutputFormat::Compact);
    let out = f.format(&record("job done items=3 source=disk")).unwrap();
    assert_eq!(out, "[INFO] job done items=3,source=\"disk\"");
}

#[test]
fn test_signed_integer_value_is_normalized() {
    let f = LogFormatter::new(false, false, false, None, Vec::new(), OutputFormat::Compact);
    let out = f.format(&record("a b n=+42 m=-7")).unwrap();
    assert_eq!(out, "[INFO] a b n=42,m=-7");
}

#[test]
fn test_single_word_message_is_left_alone() {
    let f = LogFormatter::new(false, false, false, None, Vec::new(), OutputFormat::Compact);
    let out = f.format(&record("key=value")).unwrap();
    assert_eq!(out, "[INFO] key=value");
}

#[test]
fn test_global_metadata_is_included_and_overridable() {
    let globals = vec![
        (String::from("service"), String::from("collector")),
        (String::from("region"), String::from("eu")),
    ];
    let f = LogFormatter::new(false, false, false, None, globals, OutputFormat::Json);
    let out = f.format(&record("tick region=us")).unwrap();
    assert_eq!(
        out,
        "{\"level\":\"INFO\",\"message\":\"tick\",\"service\":\"collector\",\"region\":\"us\"}"
    );
}

#[test]
fn test_entry_fields_follow_the_switches() {
    let f = LogFormatter::new(false, false, false, None, Vec::new(), OutputFormat::Json);
    let e = f.create_log_entry(&record("hi there"));
    assert!(e.timestamp.is_none());
    assert!(e.location.is_none());
    assert!(e.module.is_none());
    assert_eq!(e.level, "INFO");
    assert_eq!(e.message, "hi there");
    assert!(e.metadata.is_empty());

    let f = LogFormatter::new(true, true, true, None, Vec::new(), OutputFormat::Json);
    let e = f.create_log_entry(&record("hi there"));
    assert!(e.timestamp.is_some());
    assert_eq!(e.location.as_deref(), Some("app.rs:42"));
    assert_eq!(e.module.as_deref(), Some("app::web"));
}

#[test]
fn test_value_classification() {
    let f = LogFormatter::new(false, false, false, None, Vec::new(), OutputFormat::Json);
    let e = f.create_log_entry(&record("x a=12 b=notanumber c=false d=1e3"));
    assert_eq!(e.metadata.len(), 4);
    assert!(matches!(e.metadata[0], (ref k, LogValue::Int(12)) if k == "a"));
    assert!(matches!(e.metadata[1], (ref k, LogValue::Str(ref v)) if k == "b" && v == "notanumber"));
    assert!(matches!(e.metadata[2], (ref k, LogValue::Bool(false)) if k == "c"));
    assert!(matches!(e.metadata[3], (ref k, LogValue::NumToken(ref v)) if k == "d" && v == "1000.0"));
}

#[test]
fn test_pretty_format_succeeds() {
    let f = LogFormatter::new(true, true, false, None, Vec::new(), OutputFormat::Pretty);
    let out = f.format(&record("hello meta=1"));
    assert!(out.is_ok());
    let text = out.unwrap();
    assert!(text.contains("hello"));
}
