use shindaggers::timestamp::{parse_rfc3339, Timestamp};
use shindaggers::user::{user_json, User};

fn ts(year: u16, month: u8, day: u8, hour: u8, minute: u8, second: u8) -> Timestamp {
    Timestamp { year, month, day, hour, minute, second }
}

fn user_named(id: i64, name: &str) -> User {
    User {
        id,
        name: String::from(name),
        twitch_id: String::from("t"),
        twitch_login: String::from("l"),
        created_at: ts(2023, 1, 1, 0, 0, 0),
        updated_at: ts(2023, 1, 1, 0, 0, 0),
    }
}

fn body_around_name(id: &str, escaped_name: &str) -> String {
    let mut body = String::from("{\"id\":");
    body.push_str(id);
    body.push_str(",\"name\":\"");
    body.push_str(escaped_name);
    body.push_str("\",\"twitch_id\":\"t\",\"twitch_login\":\"l\",\"created_at\":\"2023-01-01T00:00:00Z\",\"updated_at\":\"2023-01-01T00:00:00Z\"}");
    body
}

#[test]
fn timestamps_are_zero_padded_rfc3339() {
    assert_eq!(ts(2023, 1, 1, 0, 0, 0).format_rfc3339(), "2023-01-01T00:00:00Z");
    assert_eq!(ts(999, 12, 31, 23, 59, 59).format_rfc3339(), "0999-12-31T23:59:59Z");
    assert_eq!(ts(2024, 2, 29, 12, 30, 45).format_rfc3339(), "2024-02-29T12:30:45Z");
    assert_eq!(ts(0, 1, 1, 0, 0, 0).format_rfc3339(), "0000-01-01T00:00:00Z");
    assert_eq!(ts(9999, 12, 31, 23, 59, 59).format_rfc3339(), "9999-12-31T23:59:59Z");
}

#[test]
fn leap_day_is_well_formed_only_in_leap_years() {
    assert!(ts(2024, 2, 29, 0, 0, 0).is_wf());
    assert!(!ts(2023, 2, 29, 0, 0, 0).is_wf());
    assert!(!ts(1900, 2, 29, 0, 0, 0).is_wf());
    assert!(ts(2000, 2, 29, 0, 0, 0).is_wf());
    assert!(!ts(2023, 13, 1, 0, 0, 0).is_wf());
    assert!(!ts(2023, 4, 31, 0, 0, 0).is_wf());
    assert!(!ts(2023, 1, 1, 24, 0, 0).is_wf());
}

#[test]
fn ids_render_in_plain_decimal() {
    assert_eq!(user_json(&user_named(0, "a")), body_around_name("0", "a"));
    assert_eq!(user_json(&user_named(-42, "a")), body_around_name("-42", "a"));
    assert_eq!(
        user_json(&user_named(i64::MAX, "a")),
        body_around_name("9223372036854775807", "a")
    );
    assert_eq!(
        user_json(&user_named(i64::MIN, "a")),
        body_around_name("-9223372036854775808", "a")
    );
}

#[test]
fn timestamps_round_trip_through_rfc3339() {
    let stamps = vec![
        ts(2023, 1, 1, 0, 0, 0),
        ts(2023, 1, 2, 0, 0, 0),
        ts(2024, 2, 29, 12, 30, 45),
        ts(0, 1, 1, 0, 0, 0),
        ts(9999, 12, 31, 23, 59, 59),
    ];
    for t in stamps {
        let text = t.format_rfc3339();
        assert_eq!(parse_rfc3339(text.as_str()), Some(t));
    }
}

#[test]
fn malformed_rfc3339_is_rejected() {
    assert_eq!(parse_rfc3339(""), None);
    assert_eq!(parse_rfc3339("2023-01-01T00:00:00"), None);
    assert_eq!(parse_rfc3339("2023-01-01 00:00:00Z"), None);
    assert_eq!(parse_rfc3339("2023-01-0xT00:00:00Z"), None);
    assert_eq!(parse_rfc3339("2023-02-29T00:00:00Z"), None);
    assert_eq!(parse_rfc3339("2023-13-01T00:00:00Z"), None);
    assert_eq!(parse_rfc3339("2023-00-01T00:00:00Z"), None);
    assert_eq!(parse_rfc3339("2023-01-01T24:00:00Z"), None);
}

#[test]
fn names_are_json_escaped() {
    assert_eq!(user_json(&user_named(1, "a\"b")), body_around_name("1", "a\\\"b"));
    assert_eq!(user_json(&user_named(1, "a\\b")), body_around_name("1", "a\\\\b"));
    assert_eq!(user_json(&user_named(1, "a\nb")), body_around_name("1", "a\\nb"));
    assert_eq!(user_json(&user_named(1, "a\rb")), body_around_name("1", "a\\rb"));
    assert_eq!(user_json(&user_named(1, "a\tb")), body_around_name("1", "a\\tb"));
    assert_eq!(user_json(&user_named(1, "a\u{8}b")), body_around_name("1", "a\\bb"));
    assert_eq!(user_json(&user_named(1, "a\u{c}b")), body_around_name("1", "a\\fb"));
    assert_eq!(user_json(&user_named(1, "a\u{1}b")), body_around_name("1", "a\\u0001b"));
    assert_eq!(user_json(&user_named(1, "a\u{1f}b")), body_around_name("1", "a\\u001fb"));
    assert_eq!(user_json(&user_named(1, "")), body_around_name("1", ""));
    assert_eq!(user_json(&user_named(1, "caf\u{e9}")), body_around_name("1", "caf\u{e9}"));
}
