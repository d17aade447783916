use sqs_webhook_relay::poll::PollConfig;
use sqs_webhook_relay::summary::{extract_webhook_summary_from_bytes, preview_hex, preview_str};
use sqs_webhook_relay::text::{format_u64, lower_ascii, parse_receive_count, str_eq};

#[test]
fn lowercasing_is_ascii_only() {
    assert_eq!(lower_ascii("X-Hub-Signature-256").as_str(), "x-hub-signature-256");
    assert_eq!(lower_ascii("already-lower").as_str(), "already-lower");
    assert_eq!(lower_ascii("MiXeD \u{00c9}").as_str(), "mixed \u{00c9}");
}

#[test]
fn string_equality_by_characters() {
    assert!(str_eq("abc", "abc"));
    assert!(!str_eq("abc", "abd"));
    assert!(!str_eq("abc", "abcd"));
    assert!(str_eq("", ""));
}

#[test]
fn receive_count_parses_digits() {
    assert_eq!(parse_receive_count("1"), 1);
    assert_eq!(parse_receive_count("37"), 37);
    assert_eq!(parse_receive_count("4294967295"), 4294967295);
}

#[test]
fn receive_count_falls_back_to_one() {
    assert_eq!(parse_receive_count(""), 1);
    assert_eq!(parse_receive_count("abc"), 1);
    assert_eq!(parse_receive_count("12x"), 1);
    assert_eq!(parse_receive_count("-3"), 1);
    assert_eq!(parse_receive_count("4294967296"), 1);
    assert_eq!(parse_receive_count("99999999999999999999"), 1);
}

#[test]
fn decimal_formatting() {
    assert_eq!(format_u64(0).as_str(), "0");
    assert_eq!(format_u64(7).as_str(), "7");
    assert_eq!(format_u64(207).as_str(), "207");
    assert_eq!(format_u64(18446744073709551615).as_str(), "18446744073709551615");
}

#[test]
fn short_text_previewed_whole() {
    assert_eq!(preview_str("hello", 40).as_str(), "hello");
}

#[test]
fn long_text_previewed_truncated() {
    let long = "a".repeat(50);
    assert_eq!(
        preview_str(&long, 40).as_str(),
        format!("{}... (50 chars)", "a".repeat(40))
    );
}

#[test]
fn hex_preview_short() {
    assert_eq!(preview_hex(&[0xde, 0xad], 24).as_str(), "hex:de ad (2 bytes)");
    assert_eq!(preview_hex(&[], 24).as_str(), "hex: (0 bytes)");
}

#[test]
fn hex_preview_truncated() {
    let bytes = [0u8; 30];
    let shown = vec!["00"; 24].join(" ");
    assert_eq!(
        preview_hex(&bytes, 24).as_str(),
        format!("hex:{}... (30 bytes)", shown)
    );
}

#[test]
fn summary_names_event_and_id() {
    let body = b"{\"action\":\"opened\",\"id\":\"1234567890123456\"}";
    assert_eq!(
        extract_webhook_summary_from_bytes(body).as_str(),
        "action:opened id:12345678..."
    );
}

#[test]
fn summary_prefers_type_over_action() {
    let body = b"{\"type\":\"push\",\"action\":\"opened\",\"id\":\"ab\"}";
    assert_eq!(extract_webhook_summary_from_bytes(body).as_str(), "type:push id:ab");
}

#[test]
fn summary_of_plain_text_is_a_preview() {
    assert_eq!(extract_webhook_summary_from_bytes(b"not json").as_str(), "not json");
}

#[test]
fn summary_of_binary_is_hex() {
    assert_eq!(
        extract_webhook_summary_from_bytes(&[0xff, 0xfe]).as_str(),
        "hex:ff fe (2 bytes)"
    );
}

#[test]
fn default_poll_parameters() {
    let c = PollConfig::relay_default();
    assert_eq!(c.batch_size, 10);
    assert_eq!(c.wait_seconds, 20);
    assert_eq!(c.visibility_seconds, 60);
    assert_eq!(c.backoff_seconds, 2);
    assert_eq!(c.http_timeout_seconds, 20);
}
