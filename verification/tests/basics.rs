use kiro_rs::clock::UtcTime;
use kiro_rs::json::{Json, JsonObject};
use kiro_rs::random::{generate_message_id, pick_chars, ALPHANUMERIC};
use kiro_rs::sse::to_wire;
use kiro_rs::text::{
    contains_text, first_line, same_text, strip_prefix, trim, trim_quotes, white_space,
};
use kiro_rs::websearch::prompt::date_of;

#[test]
fn dates() {
    assert_eq!(date_of(UtcTime { secs: 1_000_000_000, nanos: 0 }), "2001-09-09");
    assert_eq!(date_of(UtcTime { secs: -1, nanos: 999_999_999 }), "1969-12-31");
}

#[test]
fn instants() {
    assert!(UtcTime { secs: 0, nanos: 999_999_999 }.is_valid());
    assert!(!UtcTime { secs: 0, nanos: 1_000_000_000 }.is_valid());
    assert!(!UtcTime { secs: i64::MAX, nanos: 0 }.is_valid());
    assert_eq!(UtcTime { secs: -1, nanos: 1_999_999 }.timestamp_millis(), -999);
}

#[test]
fn events_on_the_wire() {
    assert_eq!(
        to_wire("message_stop", "{\"type\":\"message_stop\"}"),
        "event: message_stop\ndata: {\"type\":\"message_stop\"}\n\n"
    );
}

#[test]
fn identifiers() {
    assert_eq!(pick_chars(&vec![0, 25, 26, 61], ALPHANUMERIC), "AZa9");
    let id = generate_message_id();
    assert_eq!(id.len(), 28);
    assert!(id.starts_with("msg_01"));
    assert_ne!(id, generate_message_id());
}

#[test]
fn white_space_is_what_the_standard_says() {
    for c in '\u{0}'..='\u{FFFF}' {
        assert_eq!(white_space(c), c.is_whitespace());
    }
}

#[test]
fn texts() {
    assert!(same_text("ab", "ab"));
    assert!(!same_text("ab", "a"));
    assert!(!same_text("ab", "ac"));
    assert_eq!(trim("\u{3000} a b\t\n"), "a b");
    assert_eq!(trim(" \n"), "");
    assert_eq!(trim_quotes("\"\"a\"b\""), "a\"b");
    assert_eq!(trim_quotes("\""), "");
    assert_eq!(strip_prefix("abc", "ab"), "c");
    assert_eq!(strip_prefix("abc", "b"), "abc");
    assert_eq!(strip_prefix("a", "ab"), "a");
    assert!(contains_text("abcabd", "abd"));
    assert!(contains_text("abc", ""));
    assert!(!contains_text("abc", "ac"));
    for s in ["", "a", "a\nb", "a\r\nb", "\n", "a\rb", "a\r", "\r\n"] {
        assert_eq!(first_line(s), s.lines().next().unwrap_or(""));
    }
}

#[test]
fn members_of_an_object() {
    let mut object = JsonObject::new().with("a", Json::Int(1)).with("b", Json::Null);
    assert_eq!(object.len(), 2);
    object.insert("a".to_string(), Json::text("new"));
    assert_eq!(object.len(), 2);
    assert_eq!(object.get("a").unwrap().as_str(), Some("new"));
    assert!(object.get("c").is_none());
    let keys: Vec<&str> = (0..object.len()).map(|i| object.key_at(i)).collect();
    assert_eq!(keys, vec!["a", "b"]);
    assert_eq!(object.value_at(0).as_str(), Some("new"));
    assert!(Json::Bool(true).get("a").is_none());
    assert!(Json::Number("1.5".to_string()).as_str().is_none());
    assert!(Json::Null.as_array().is_none());
}
