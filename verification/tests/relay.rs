use base64::Engine;
use sqs_webhook_relay::ack::{classify_response, decide_ack, delivery_action, AckAction, DeliveryOutcome};
use sqs_webhook_relay::request::{build_request, QueueMessage};

fn msg(body: &str, attrs: Vec<(&str, &str)>, receive_count: u32) -> QueueMessage {
    QueueMessage {
        message_id: "m-1".to_string(),
        body: body.to_string(),
        attributes: attrs
            .into_iter()
            .map(|(k, v)| (k.to_string(), v.to_string()))
            .collect(),
        receive_count,
        receipt_handle: "r-1".to_string(),
    }
}

fn header<'a>(headers: &'a [(String, String)], key: &str) -> Option<&'a str> {
    headers
        .iter()
        .find(|(k, _)| k == key)
        .map(|(_, v)| v.as_str())
}

const URL: &str = "http://127.0.0.1:3000/webhook";

#[test]
fn base64_flag_round_trip() {
    let original = b"{\"action\":\"opened\"}";
    let encoded = base64::engine::general_purpose::STANDARD.encode(original);
    let m = msg(&encoded, vec![("BodyIsBase64", "true")], 1);
    let r = build_request(&m, URL);
    assert_eq!(r.body, original.to_vec());
}

#[test]
fn base64_decode_failure_falls_back_to_utf8() {
    let m = msg("!!!not base64!!!", vec![("BodyIsBase64", "true")], 1);
    let r = build_request(&m, URL);
    assert_eq!(r.body, b"!!!not base64!!!".to_vec());
}

#[test]
fn no_flag_body_is_utf8() {
    let m = msg("hello \u{00e9}", vec![], 1);
    let r = build_request(&m, URL);
    assert_eq!(r.body, "hello \u{00e9}".as_bytes().to_vec());
}

#[test]
fn flag_false_body_is_utf8() {
    let encoded = base64::engine::general_purpose::STANDARD.encode(b"payload");
    let m = msg(&encoded, vec![("BodyIsBase64", "false")], 1);
    let r = build_request(&m, URL);
    assert_eq!(r.body, encoded.as_bytes().to_vec());
}

#[test]
fn flag_key_and_value_are_case_insensitive() {
    let encoded = base64::engine::general_purpose::STANDARD.encode(b"payload");
    let m = msg(&encoded, vec![("bodyisbase64", "TRUE")], 1);
    let r = build_request(&m, URL);
    assert_eq!(r.body, b"payload".to_vec());
}

#[test]
fn content_type_defaults_to_json() {
    let m = msg("{}", vec![], 1);
    let r = build_request(&m, URL);
    assert_eq!(header(&r.headers, "content-type"), Some("application/json"));
}

#[test]
fn supplied_content_type_is_kept() {
    let m = msg("x", vec![("Content-Type", "text/plain")], 1);
    let r = build_request(&m, URL);
    assert_eq!(header(&r.headers, "content-type"), Some("text/plain"));
    assert_eq!(
        r.headers
            .iter()
            .filter(|(k, _)| k == "content-type")
            .count(),
        1
    );
}

#[test]
fn header_keys_lowercased_values_unchanged() {
    let m = msg("x", vec![("X-Hub-Signature-256", "sha256=AbC")], 1);
    let r = build_request(&m, URL);
    assert_eq!(header(&r.headers, "x-hub-signature-256"), Some("sha256=AbC"));
    assert!(!r.signature_missing);
}

#[test]
fn missing_signature_is_flagged_not_blocking() {
    let m = msg("x", vec![], 1);
    let r = build_request(&m, URL);
    assert!(r.signature_missing);
    assert_eq!(header(&r.headers, "content-type"), Some("application/json"));
}

#[test]
fn malformed_header_is_skipped_alone() {
    let m = msg(
        "x",
        vec![("bad key", "v"), ("good-key", "v2"), ("also-good", "bad\nvalue")],
        1,
    );
    let r = build_request(&m, URL);
    assert_eq!(header(&r.headers, "bad key"), None);
    assert_eq!(header(&r.headers, "also-good"), None);
    assert_eq!(header(&r.headers, "good-key"), Some("v2"));
}

#[test]
fn forwarded_for_extends_existing() {
    let m = msg(
        "x",
        vec![("X-Forwarded-For", "1.2.3.4"), ("SourceIp", "5.6.7.8")],
        1,
    );
    let r = build_request(&m, URL);
    assert_eq!(r.source_ip.as_deref(), Some("5.6.7.8"));
    assert_eq!(header(&r.headers, "x-forwarded-for"), Some("1.2.3.4, 5.6.7.8"));
}

#[test]
fn forwarded_for_duplicates_collapse_on_compose() {
    let m = msg(
        "x",
        vec![
            ("X-Forwarded-For", "1.2.3.4"),
            ("x-forwarded-for", "9.9.9.9"),
            ("SourceIp", "5.6.7.8"),
        ],
        1,
    );
    let r = build_request(&m, URL);
    let xff: Vec<&str> = r
        .headers
        .iter()
        .filter(|(k, _)| k == "x-forwarded-for")
        .map(|(_, v)| v.as_str())
        .collect();
    assert_eq!(xff, vec!["1.2.3.4, 5.6.7.8"]);
}

#[test]
fn unusable_ip_is_reported_but_never_becomes_a_header() {
    let body = "{\"sourceIp\":\"bad\\nip\"}";
    let m = msg(body, vec![], 1);
    let r = build_request(&m, URL);
    assert_eq!(r.source_ip.as_deref(), Some("bad\nip"));
    assert_eq!(header(&r.headers, "x-forwarded-for"), None);
}

#[test]
fn forwarded_for_created_when_absent() {
    let m = msg("x", vec![("client-ip", "5.6.7.8")], 1);
    let r = build_request(&m, URL);
    assert_eq!(header(&r.headers, "x-forwarded-for"), Some("5.6.7.8"));
}

#[test]
fn ip_probed_from_nested_json_body() {
    let body = "{\"requestContext\":{\"identity\":{\"sourceIp\":\"9.9.9.9\"}}}";
    let m = msg(body, vec![], 1);
    let r = build_request(&m, URL);
    assert_eq!(r.source_ip.as_deref(), Some("9.9.9.9"));
    assert_eq!(header(&r.headers, "x-forwarded-for"), Some("9.9.9.9"));
}

#[test]
fn ip_probe_order_is_fixed() {
    let body = "{\"ip\":\"1.1.1.1\",\"sourceIp\":\"2.2.2.2\"}";
    let m = msg(body, vec![], 1);
    let r = build_request(&m, URL);
    assert_eq!(r.source_ip.as_deref(), Some("2.2.2.2"));
}

#[test]
fn attribute_ip_wins_over_body_ip() {
    let body = "{\"sourceIp\":\"2.2.2.2\"}";
    let m = msg(body, vec![("sourceip", "3.3.3.3")], 1);
    let r = build_request(&m, URL);
    assert_eq!(r.source_ip.as_deref(), Some("3.3.3.3"));
}

#[test]
fn no_ip_anywhere_leaves_headers_alone() {
    let m = msg("plain text", vec![], 1);
    let r = build_request(&m, URL);
    assert_eq!(header(&r.headers, "x-forwarded-for"), None);
    assert_eq!(r.source_ip, None);
}

#[test]
fn classify_covers_every_band() {
    assert_eq!(classify_response(Some(200)), DeliveryOutcome::Success(200));
    assert_eq!(classify_response(Some(299)), DeliveryOutcome::Success(299));
    assert_eq!(classify_response(Some(404)), DeliveryOutcome::ClientError(404));
    assert_eq!(classify_response(Some(503)), DeliveryOutcome::ServerError(503));
    assert_eq!(classify_response(Some(302)), DeliveryOutcome::ServerError(302));
    assert_eq!(classify_response(Some(100)), DeliveryOutcome::ServerError(100));
    assert_eq!(classify_response(None), DeliveryOutcome::NetworkFailure);
}

#[test]
fn ack_matrix_examples() {
    assert_eq!(delivery_action(Some(404), 5), AckAction::Acknowledge);
    assert_eq!(delivery_action(Some(401), 1), AckAction::Leave);
    assert_eq!(delivery_action(Some(401), 2), AckAction::Acknowledge);
    assert_eq!(delivery_action(Some(503), 100), AckAction::Leave);
    assert_eq!(delivery_action(Some(200), 1), AckAction::Acknowledge);
    assert_eq!(delivery_action(Some(200), 9), AckAction::Acknowledge);
    assert_eq!(delivery_action(None, 1), AckAction::Leave);
    assert_eq!(delivery_action(Some(302), 2), AckAction::Leave);
    assert_eq!(
        decide_ack(DeliveryOutcome::ClientError(404), 1),
        AckAction::Acknowledge
    );
}

#[test]
fn delivered_message_acknowledged_once() {
    let original = b"{\"action\":\"opened\"}";
    let encoded = base64::engine::general_purpose::STANDARD.encode(original);
    let m = msg(
        &encoded,
        vec![("BodyIsBase64", "true"), ("x-hub-signature-256", "abc")],
        1,
    );
    let r = build_request(&m, URL);
    assert_eq!(r.body, original.to_vec());
    assert!(!r.signature_missing);

    let mut queue: Vec<String> = vec![m.receipt_handle.clone()];
    let action = delivery_action(Some(200), m.receive_count);
    assert_eq!(action, AckAction::Acknowledge);
    queue.retain(|h| h != &m.receipt_handle);
    assert!(queue.is_empty());
    // a second acknowledgment of the consumed receipt changes nothing
    queue.retain(|h| h != &m.receipt_handle);
    assert!(queue.is_empty());
}

#[test]
fn rejected_message_retried_once_then_dropped() {
    let original = b"{\"action\":\"opened\"}";
    let encoded = base64::engine::general_purpose::STANDARD.encode(original);
    let m1 = msg(
        &encoded,
        vec![("BodyIsBase64", "true"), ("x-hub-signature-256", "abc")],
        1,
    );
    let r1 = build_request(&m1, URL);
    assert_eq!(r1.body, original.to_vec());
    assert_eq!(delivery_action(Some(401), m1.receive_count), AckAction::Leave);

    // redelivery: the queue raises the receive count to 2
    let m2 = msg(
        &encoded,
        vec![("BodyIsBase64", "true"), ("x-hub-signature-256", "abc")],
        2,
    );
    assert_eq!(
        delivery_action(Some(401), m2.receive_count),
        AckAction::Acknowledge
    );
}
