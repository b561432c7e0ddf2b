use method_rs::json_text::json_object;
use method_rs::logger::{log_line, LogType};
use method_rs::text::number_text;

#[test]
fn number_text_writes_decimal_digits() {
    assert_eq!(number_text(0), "0");
    assert_eq!(number_text(7), "7");
    assert_eq!(number_text(10), "10");
    assert_eq!(number_text(1234567890), "1234567890");
    assert_eq!(number_text(u64::MAX), "18446744073709551615");
    for n in [1u64, 9, 99, 100, 101, 4096, 4294967295] {
        assert_eq!(number_text(n), n.to_string());
    }
}

#[test]
fn json_object_writes_members_in_order() {
    let names = vec!["b".to_string(), "a".to_string(), "c".to_string()];
    let values = vec!["1".to_string(), "[2]".to_string(), "null".to_string()];
    assert_eq!(json_object(&names, &values), "{\"b\":1,\"a\":[2],\"c\":null}");
    assert_eq!(json_object(&Vec::new(), &Vec::new()), "{}");
    assert_eq!(json_object(&names[..1].to_vec(), &values[..1].to_vec()), "{\"b\":1}");
}

#[test]
fn json_object_escapes_names() {
    let names = vec!["say \"hi\"".to_string(), "tab\there".to_string(), "é".to_string()];
    let values = vec!["1".to_string(), "2".to_string(), "3".to_string()];
    let text = json_object(&names, &values);
    assert_eq!(text, "{\"say \\\"hi\\\"\":1,\"tab\\there\":2,\"é\":3}");
    let parsed: serde_json::Value = serde_json::from_str(&text).unwrap();
    assert_eq!(parsed.get("say \"hi\"").and_then(|v| v.as_u64()), Some(1));
    assert_eq!(parsed.get("tab\there").and_then(|v| v.as_u64()), Some(2));
}

#[test]
fn log_line_has_time_type_and_message() {
    assert_eq!(
        log_line("2025-03-01 12:00:05", LogType::Info, "Loaded relevant columns"),
        "2025-03-01 12:00:05 - INFO - Loaded relevant columns"
    );
    assert_eq!(
        log_line("2025-03-01 12:00:06", LogType::Error, "Failed to write job 3"),
        "2025-03-01 12:00:06 - ERROR - Failed to write job 3"
    );
    assert_eq!(LogType::Info.label(), "INFO");
    assert_eq!(LogType::Error.label(), "ERROR");
}
