use base64::Engine as _;
use md5::{Digest, Md5};
use std::cell::Cell;
use std::rc::Rc;
use unitree_webrtc_connect_rs::constants::WebRTCConnectionMethod;
use unitree_webrtc_connect_rs::json::{JsonMember, JsonNumber, JsonValue};
use unitree_webrtc_connect_rs::msgs::error_handler::{
    get_error_code_text, get_error_source_text, handle_error, integer_to_hex_string,
};
use unitree_webrtc_connect_rs::msgs::future_resolver::FutureResolver;
use unitree_webrtc_connect_rs::msgs::heartbeat::WebRTCDataChannelHeartBeat;
use unitree_webrtc_connect_rs::msgs::pubsub::WebRTCDataChannelPubSub;
use unitree_webrtc_connect_rs::msgs::rtc_inner_req::{
    WebRTCDataChannelFileUploader, WebRTCDataChannelNetworkStatus,
};
use unitree_webrtc_connect_rs::msgs::validation::WebRTCDataChannelValidation;
use unitree_webrtc_connect_rs::time::{Duration, Instant};

fn model(v: &serde_json::Value) -> JsonValue {
    match v {
        serde_json::Value::Null => JsonValue::Null,
        serde_json::Value::Bool(b) => JsonValue::Bool(*b),
        serde_json::Value::Number(n) => {
            if let Some(u) = n.as_u64() {
                JsonValue::Number(JsonNumber::PosInt(u))
            } else if let Some(i) = n.as_i64() {
                JsonValue::Number(JsonNumber::NegInt(i))
            } else {
                JsonValue::Number(JsonNumber::Float(n.to_string()))
            }
        }
        serde_json::Value::String(s) => JsonValue::String(s.clone()),
        serde_json::Value::Array(a) => JsonValue::Array(a.iter().map(model).collect()),
        serde_json::Value::Object(m) => JsonValue::Object(
            m.iter()
                .map(|(k, v)| JsonMember { key: k.clone(), value: model(v) })
                .collect(),
        ),
    }
}

fn parse(text: &str) -> JsonValue {
    model(&serde_json::from_str::<serde_json::Value>(text).unwrap())
}

fn at<'a>(v: &'a JsonValue, key: &str) -> &'a JsonValue {
    v.get(key).unwrap()
}

fn text(s: &str) -> JsonValue {
    JsonValue::String(s.to_string())
}

fn num(n: u64) -> JsonValue {
    JsonValue::Number(JsonNumber::PosInt(n))
}

fn after(start: Instant, d: Duration) -> Instant {
    start.checked_add(d).unwrap()
}

#[test]
fn test_future_resolver_generates_key() {
    let key = FutureResolver::generate_message_key("req", "topic/a", None);
    assert_eq!(key, "req $ topic/a");

    let key_with_id = FutureResolver::generate_message_key("req", "topic/a", Some("abc"));
    assert_eq!(key_with_id, "abc");
}

#[test]
fn test_future_resolver_merges_chunks() {
    let mut resolver = FutureResolver::new();
    resolver.save_resolve("res", "topic/chunk", Some("u1"));

    let mut first = parse(
        r#"{"type": "res", "topic": "topic/chunk",
            "data": {"uuid": "u1",
                     "content_info": {"enable_chunking": true, "chunk_index": 1, "total_chunk_num": 2},
                     "data": [65, 66]}}"#,
    );
    let mut last = parse(
        r#"{"type": "res", "topic": "topic/chunk",
            "data": {"uuid": "u1",
                     "content_info": {"enable_chunking": true, "chunk_index": 2, "total_chunk_num": 2},
                     "data": [67]}}"#,
    );

    let first_result = resolver.run_resolve_for_topic(&mut first).unwrap();
    assert!(first_result.is_none());

    let resolved_key = resolver.run_resolve_for_topic(&mut last).unwrap();
    assert_eq!(resolved_key, Some("u1".to_string()));

    let resolved = resolver.take_resolved("u1").unwrap();
    let merged = resolved.get("data").and_then(|v| v.get("data")).and_then(|v| v.as_array()).unwrap();
    assert_eq!(merged, &vec![num(65), num(66), num(67)]);
}

#[test]
fn test_pubsub_throttle_and_subscription_callback() {
    let ten_hz = Duration::from_millis(100);
    let mut pubsub: WebRTCDataChannelPubSub<Box<dyn Fn(&JsonValue)>> = WebRTCDataChannelPubSub::new(ten_hz, ten_hz);

    let now = Instant::from_nanos(1_000_000_000);
    assert!(pubsub.should_process("vid", now));
    assert!(!pubsub.should_process("vid", after(now, Duration::from_millis(20))));
    assert!(pubsub.should_process("vid", after(now, Duration::from_millis(120))));

    let called = Rc::new(Cell::new(false));
    let called_clone = Rc::clone(&called);
    pubsub.subscribe(
        "topic/cb",
        Box::new(move |_| {
            called_clone.set(true);
        }),
    );

    pubsub.save_resolve("res", "topic/cb", Some("id-cb"));
    let mut message = parse(r#"{"type": "res", "topic": "topic/cb", "data": {"uuid": "id-cb", "data": "ok"}}"#);

    let resolved = pubsub.run_resolve(&mut message).unwrap();
    assert_eq!(resolved, Some("id-cb".to_string()));
    assert!(called.get());
}

#[test]
fn test_heartbeat_timeout() {
    let mut heartbeat = WebRTCDataChannelHeartBeat::new();
    let start = Instant::from_nanos(1_000_000_000);
    heartbeat.start_heartbeat(start);

    assert!(!heartbeat.is_timed_out(after(start, Duration::from_secs(5))));
    assert!(heartbeat.is_timed_out(after(start, Duration::from_secs(7))));
}

#[test]
fn test_validation_encrypt_key() {
    let encrypted = WebRTCDataChannelValidation::encrypt_key("abc").unwrap();
    assert!(!encrypted.is_empty());
}

#[test]
fn test_network_status_mapping() {
    let mut status = WebRTCDataChannelNetworkStatus::new();

    let local = status.handle_status("NetworkStatus.ON_WIFI_CONNECTED", WebRTCConnectionMethod::LocalSTA);
    assert_eq!(local, Some("STA-L".to_string()));

    let remote = status.handle_status("NetworkStatus.ON_WIFI_CONNECTED", WebRTCConnectionMethod::Remote);
    assert_eq!(remote, Some("STA-T".to_string()));

    let on_4g = status.handle_status("NetworkStatus.ON_4G_CONNECTED", WebRTCConnectionMethod::Remote);
    assert_eq!(on_4g, Some("4G".to_string()));
}

#[test]
fn test_file_uploader_chunk_slice() {
    let chunks = WebRTCDataChannelFileUploader::slice_base64_into_chunks("ABCDEFGHIJ", 4);
    assert_eq!(chunks, vec!["ABCD", "EFGH", "IJ"]);
}

#[test]
fn test_error_handler_mappings() {
    assert_eq!(integer_to_hex_string(16).unwrap(), "10");
    assert_eq!(get_error_code_text(100, "10"), "Battery communication error");
    assert_eq!(get_error_source_text(300), "Motor malfunction");

    let lines = handle_error(&parse(r#"{"data": [[1700000000, 100, 16]]}"#));
    assert_eq!(lines.len(), 1);
    assert!(lines[0].contains("Battery communication error"));
}

#[test]
fn test_resolver_numeric_identifier_and_unexpected_reply() {
    let mut resolver = FutureResolver::new();
    resolver.save_resolve("req", "rt/x", Some("42"));
    assert!(resolver.has_pending("42"));
    // A reply for another key leaves the pending one alone.
    let mut other = parse(r#"{"type": "res", "topic": "rt/x", "data": {"header": {"identity": {"id": 7}}}}"#);
    assert_eq!(resolver.run_resolve_for_topic(&mut other).unwrap(), None);
    assert!(resolver.has_pending("42"));
    // The identity id is a number; its decimal text is the key.
    let mut reply = parse(r#"{"type": "res", "topic": "rt/x", "data": {"header": {"identity": {"id": 42}}}}"#);
    assert_eq!(resolver.run_resolve_for_topic(&mut reply).unwrap(), Some("42".to_string()));
    assert!(!resolver.has_pending("42"));
    assert_eq!(resolver.take_resolved("42"), Some(reply));
    assert_eq!(resolver.take_resolved("42"), None);
}

#[test]
fn test_resolver_key_without_identifier() {
    let mut resolver = FutureResolver::new();
    resolver.save_resolve("res", "rt/y", None);
    let mut reply = parse(r#"{"type": "res", "topic": "rt/y", "data": {}}"#);
    assert_eq!(resolver.run_resolve_for_topic(&mut reply).unwrap(), Some("res $ rt/y".to_string()));
}

#[test]
fn test_resolver_errors() {
    let mut resolver = FutureResolver::new();
    let mut no_type = parse(r#"{"topic": "t"}"#);
    assert_eq!(resolver.run_resolve_for_topic(&mut no_type).unwrap_err(), "Message type missing");
    let mut zero_total = parse(
        r#"{"type": "res", "data": {"content_info": {"enable_chunking": true, "chunk_index": 1, "total_chunk_num": 0}, "data": [1]}}"#,
    );
    assert_eq!(
        resolver.run_resolve_for_topic(&mut zero_total).unwrap_err(),
        "Total number of chunks cannot be zero"
    );
    let mut big_byte = parse(
        r#"{"type": "res", "data": {"content_info": {"enable_chunking": true, "chunk_index": 1, "total_chunk_num": 1}, "data": [1, 300]}}"#,
    );
    assert_eq!(resolver.run_resolve_for_topic(&mut big_byte).unwrap_err(), "Chunk byte out of range");
    let mut not_int = parse(
        r#"{"type": "res", "data": {"content_info": {"enable_chunking": true, "chunk_index": 1, "total_chunk_num": 1}, "data": ["a"]}}"#,
    );
    assert_eq!(
        resolver.run_resolve_for_topic(&mut not_int).unwrap_err(),
        "Chunk array must contain integers"
    );
    let mut bad_kind = parse(
        r#"{"type": "res", "data": {"content_info": {"enable_chunking": true, "chunk_index": 1, "total_chunk_num": 1}, "data": true}}"#,
    );
    assert_eq!(resolver.run_resolve_for_topic(&mut bad_kind).unwrap_err(), "Unsupported chunk data type");
    let mut no_info = parse(r#"{"type": "res", "data": {"content_info": {"enable_chunking": true}}}"#);
    assert_eq!(resolver.run_resolve_for_topic(&mut no_info).unwrap_err(), "Chunk index is missing");
}

#[test]
fn test_resolver_file_chunks_join_as_text() {
    let mut resolver = FutureResolver::new();
    resolver.save_resolve("res", "rt/file", Some("f1"));
    let mut a = parse(
        r#"{"type": "res", "topic": "rt/file", "info": {"req_uuid": "f1", "file": {"enable_chunking": true, "chunk_index": 1, "total_chunk_num": 2, "data": "Hel"}}}"#,
    );
    let mut b = parse(
        r#"{"type": "res", "topic": "rt/file", "info": {"req_uuid": "f1", "file": {"enable_chunking": true, "chunk_index": 2, "total_chunk_num": 2, "data": "lo"}}}"#,
    );
    assert_eq!(resolver.run_resolve_for_topic_for_file(&mut a).unwrap(), None);
    assert_eq!(resolver.run_resolve_for_topic_for_file(&mut b).unwrap(), Some("f1".to_string()));
    let got = resolver.take_resolved("f1").unwrap();
    assert_eq!(at(at(at(&got, "info"), "file"), "data"), &text("Hello"));

    let mut missing = parse(r#"{"type": "res", "info": {}}"#);
    assert_eq!(resolver.run_resolve_for_topic_for_file(&mut missing).unwrap_err(), "Missing info.file");
}

#[test]
fn test_pubsub_unthrottled_topic_and_unsubscribe() {
    let mut pubsub: WebRTCDataChannelPubSub<Box<dyn Fn(&JsonValue)>> =
        WebRTCDataChannelPubSub::new(Duration::from_millis(100), Duration::from_millis(100));
    let t = Instant::from_nanos(10);
    assert!(pubsub.should_process("rt/other", t));
    assert!(pubsub.should_process("rt/other", t));
    let hits = Rc::new(Cell::new(0));
    let h = Rc::clone(&hits);
    pubsub.subscribe("rt/a", Box::new(move |_| h.set(h.get() + 1)));
    let mut m = parse(r#"{"type": "msg", "topic": "rt/a"}"#);
    pubsub.run_resolve(&mut m).unwrap();
    pubsub.unsubscribe("rt/a");
    pubsub.run_resolve(&mut m).unwrap();
    assert_eq!(hits.get(), 1);
}

#[test]
fn test_build_publish_message_shape() {
    let m = WebRTCDataChannelPubSub::<()>::build_publish_message("rt/t", Some(text("x")), "msg");
    assert_eq!(at(&m, "type"), &text("msg"));
    assert_eq!(at(&m, "topic"), &text("rt/t"));
    assert_eq!(at(&m, "data"), &text("x"));
    let bare = WebRTCDataChannelPubSub::<()>::build_publish_message("rt/t", None, "msg");
    assert!(bare.get("data").is_none());
}

#[test]
fn test_heartbeat_threshold_is_strict() {
    let mut heartbeat = WebRTCDataChannelHeartBeat::new();
    let start = Instant::from_nanos(0);
    assert!(!heartbeat.is_timed_out(after(start, Duration::from_secs(100))));
    heartbeat.start_heartbeat(start);
    assert!(!heartbeat.is_timed_out(after(start, Duration::from_secs(6))));
    assert!(heartbeat.is_timed_out(after(start, Duration::from_nanos(6_000_000_001))));
    heartbeat.handle_response(after(start, Duration::from_secs(5)));
    assert!(!heartbeat.is_timed_out(after(start, Duration::from_secs(10))));
}

#[test]
fn test_validation_answer_exact() {
    let digest = Md5::digest(b"UnitreeGo2_abc");
    let expected = base64::engine::general_purpose::STANDARD.encode(digest);
    assert_eq!(WebRTCDataChannelValidation::encrypt_key("abc").unwrap(), expected);
    assert_eq!(
        WebRTCDataChannelValidation::encrypt_by_md5("password123"),
        "482c811da5d5b4bc6d497ffa98491e38"
    );
    assert_eq!(WebRTCDataChannelValidation::hex_to_base64("48656c6c6f").unwrap(), "SGVsbG8=");
    assert!(WebRTCDataChannelValidation::hex_to_base64("zz").unwrap_err().starts_with("Invalid hex: "));
}

#[test]
fn test_validation_state() {
    let mut v = WebRTCDataChannelValidation::new();
    assert_eq!(v.key(), "");
    assert!(!v.is_validated());
    v.set_key("k1");
    assert_eq!(v.key(), "k1");
    v.mark_validated();
    assert!(v.is_validated());
}

#[test]
fn test_heartbeat_response_restarts_six_second_window() {
    let mut heartbeat = WebRTCDataChannelHeartBeat::new();
    let start = Instant::from_nanos(3);
    heartbeat.start_heartbeat(start);
    let t1 = after(start, Duration::from_secs(4));
    heartbeat.handle_response(t1);
    assert!(!heartbeat.is_timed_out(after(t1, Duration::from_secs(6))));
    assert!(heartbeat.is_timed_out(after(t1, Duration::from_nanos(6_000_000_001))));
    assert_eq!(heartbeat.timeout_threshold(), Duration::from_secs(6));
    assert_eq!(heartbeat.heartbeat_interval(), Duration::from_secs(2));
}

#[test]
fn test_validation_answer_is_24_characters() {
    for key in ["", "abc", "a much longer validation key from the robot"] {
        let answer = WebRTCDataChannelValidation::encrypt_key(key).unwrap();
        assert_eq!(answer.len(), 24);
        assert!(answer.ends_with("=="));
    }
}
