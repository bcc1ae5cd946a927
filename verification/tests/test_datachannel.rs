use unitree_webrtc_connect_rs::datachannel::{BinaryOutcome, WebRTCDataChannel};
use unitree_webrtc_connect_rs::json::{JsonMember, JsonNumber, JsonValue};
use unitree_webrtc_connect_rs::message::parse_array_buffer;
use unitree_webrtc_connect_rs::time::{Duration, Instant};

type Callback = Box<dyn Fn(&JsonValue)>;

fn fifteen_hz() -> Duration {
    Duration::from_nanos(66_666_667)
}

fn channel() -> WebRTCDataChannel<Callback> {
    WebRTCDataChannel::new(fifteen_hz(), fifteen_hz())
}

fn model(v: &serde_json::Value) -> JsonValue {
    match v {
        serde_json::Value::Null => JsonValue::Null,
        serde_json::Value::Bool(b) => JsonValue::Bool(*b),
        serde_json::Value::Number(n) => {
            if let Some(u) = n.as_u64() {
                JsonValue::Number(JsonNumber::PosInt(u))
            } else if let Some(i) = n.as_i64() {
                JsonValue::Number(JsonNumber::NegInt(i))
            } else {
                JsonValue::Number(JsonNumber::Float(n.to_string()))
            }
        }
        serde_json::Value::String(s) => JsonValue::String(s.clone()),
        serde_json::Value::Array(a) => JsonValue::Array(a.iter().map(model).collect()),
        serde_json::Value::Object(m) => JsonValue::Object(
            m.iter()
                .map(|(k, v)| JsonMember { key: k.clone(), value: model(v) })
                .collect(),
        ),
    }
}

fn parse(text: &str) -> JsonValue {
    model(&serde_json::from_str::<serde_json::Value>(text).unwrap())
}

fn at<'a>(v: &'a JsonValue, key: &str) -> &'a JsonValue {
    v.get(key).unwrap()
}

fn text(s: &str) -> JsonValue {
    JsonValue::String(s.to_string())
}

fn num(n: u64) -> JsonValue {
    JsonValue::Number(JsonNumber::PosInt(n))
}

#[test]
fn test_set_decoder_validation() {
    let mut dc = channel();
    assert_eq!(dc.decoder_type(), "libvoxel");

    dc.set_decoder("native").unwrap();
    assert_eq!(dc.decoder_type(), "native");

    let err = dc.set_decoder("invalid").unwrap_err();
    assert!(err.contains("Invalid decoder type"));
}

#[test]
fn test_handle_validation_opens_channel() {
    let mut dc = channel();
    let now = Instant::from_nanos(1_000_000_000);
    dc.handle_text_message(parse(r#"{"type":"validation","data":"Validation Ok."}"#), now)
        .unwrap();
    assert!(dc.is_open());
}

#[test]
fn test_switch_payload_builders() {
    let dc = channel();

    let traffic = dc.disable_traffic_saving(true);
    assert_eq!(at(&traffic, "type"), &text("rtc_inner_req"));
    assert_eq!(at(at(&traffic, "data"), "instruction"), &text("on"));

    let vid = dc.switch_video_channel(false);
    assert_eq!(at(&vid, "type"), &text("vid"));
    assert_eq!(at(&vid, "data"), &text("off"));

    let aud = dc.switch_audio_channel(true);
    assert_eq!(at(&aud, "type"), &text("aud"));
    assert_eq!(at(&aud, "data"), &text("on"));
}

#[test]
fn test_reconnect_flag() {
    let mut dc = channel();
    assert!(!dc.reconnect_requested());
    dc.trigger_reconnect();
    assert!(dc.reconnect_requested());
}

#[test]
fn test_handle_binary_message() {
    let mut dc = channel();
    let now = Instant::from_nanos(1_000_000_000);

    let json_str = r#"{"topic":"a","data":{}}"#;
    let json_bytes = json_str.as_bytes();
    let header_length = json_bytes.len() as u16;

    let mut buffer = Vec::new();
    buffer.extend_from_slice(&header_length.to_le_bytes());
    buffer.extend_from_slice(&[0, 0]);
    buffer.extend_from_slice(json_bytes);
    buffer.extend_from_slice(&[10, 20, 30]);

    let frame = parse_array_buffer(&buffer).unwrap();
    let json = parse(std::str::from_utf8(&frame.json_text).unwrap());
    let out = dc.handle_binary_message(frame.is_lidar, json, frame.binary_data, now).unwrap();
    let out = match out {
        BinaryOutcome::Message(m) => m,
        _ => panic!("expected a message"),
    };
    assert_eq!(at(&out, "topic"), &text("a"));
    let data = at(at(&out, "data"), "data");
    assert_eq!(data, &JsonValue::Array(vec![num(10), num(20), num(30)]));
}

#[test]
fn test_validation_key_is_recorded_and_heartbeat_starts() {
    let mut dc = channel();
    let now = Instant::from_nanos(5);
    dc.handle_text_message(parse(r#"{"type":"validation","data":"some-key"}"#), now).unwrap();
    assert!(!dc.is_open());
    dc.handle_text_message(parse(r#"{"type":"validation","data":"Validation Ok."}"#), now).unwrap();
    assert!(dc.is_open());
}

#[test]
fn test_text_message_without_type_is_rejected() {
    let mut dc = channel();
    let err = dc.handle_text_message(parse(r#"{"data":1}"#), Instant::from_nanos(0)).unwrap_err();
    assert_eq!(err, "Message type missing");
    assert!(!dc.is_open());
}

#[test]
fn test_binary_video_is_throttled() {
    let mut dc = channel();
    let msg = || parse(r#"{"type":"vid","data":{}}"#);
    let first = dc.handle_binary_message(false, msg(), vec![1], Instant::from_nanos(1_000)).unwrap();
    assert!(matches!(first, BinaryOutcome::Message(_)));
    let second = dc.handle_binary_message(false, msg(), vec![1], Instant::from_nanos(2_000)).unwrap();
    assert!(matches!(second, BinaryOutcome::Throttled));
    let third = dc
        .handle_binary_message(false, msg(), vec![1], Instant::from_nanos(1_000 + 66_666_667))
        .unwrap();
    assert!(matches!(third, BinaryOutcome::Message(_)));
}

#[test]
fn test_lidar_frame_needs_metadata() {
    let mut dc = channel();
    let err = dc
        .handle_binary_message(true, parse(r#"{"type":"x"}"#), vec![], Instant::from_nanos(0))
        .err()
        .unwrap();
    assert_eq!(err, "Missing metadata for LiDAR decoding");
    let ok = dc
        .handle_binary_message(true, parse(r#"{"type":"x","data":{"resolution":0.05}}"#), vec![7, 8], Instant::from_nanos(0))
        .unwrap();
    match ok {
        BinaryOutcome::Lidar { payload, .. } => assert_eq!(payload, vec![7, 8]),
        _ => panic!("expected a lidar frame"),
    }
}
