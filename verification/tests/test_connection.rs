use unitree_webrtc_connect_rs::connection::{
    backoff_delay, reconnect_wait, request_id, request_new_response, text_payload, UnitreeWebRTCConnection,
};
use unitree_webrtc_connect_rs::constants::WebRTCConnectionMethod;
use unitree_webrtc_connect_rs::json::{JsonMember, JsonNumber, JsonValue};
use unitree_webrtc_connect_rs::time::{Duration, Instant};

type Conn = UnitreeWebRTCConnection<Box<dyn Fn(&JsonValue)>>;

fn model(v: &serde_json::Value) -> JsonValue {
    match v {
        serde_json::Value::Null => JsonValue::Null,
        serde_json::Value::Bool(b) => JsonValue::Bool(*b),
        serde_json::Value::Number(n) => {
            if let Some(u) = n.as_u64() {
                JsonValue::Number(JsonNumber::PosInt(u))
            } else if let Some(i) = n.as_i64() {
                JsonValue::Number(JsonNumber::NegInt(i))
            } else {
                JsonValue::Number(JsonNumber::Float(n.to_string()))
            }
        }
        serde_json::Value::String(s) => JsonValue::String(s.clone()),
        serde_json::Value::Array(a) => JsonValue::Array(a.iter().map(model).collect()),
        serde_json::Value::Object(m) => JsonValue::Object(
            m.iter()
                .map(|(k, v)| JsonMember { key: k.clone(), value: model(v) })
                .collect(),
        ),
    }
}

fn parse(text: &str) -> JsonValue {
    model(&serde_json::from_str::<serde_json::Value>(text).unwrap())
}

fn at<'a>(v: &'a JsonValue, key: &str) -> &'a JsonValue {
    v.get(key).unwrap()
}

fn text(s: &str) -> JsonValue {
    JsonValue::String(s.to_string())
}

fn num(n: u64) -> JsonValue {
    JsonValue::Number(JsonNumber::PosInt(n))
}

fn auto_reconnect(conn: &mut Conn, max_retries: u32, base: Duration) -> bool {
    if !conn.begin_auto_reconnect() {
        return false;
    }
    let mut attempt = 0;
    while let Some(_wait) = reconnect_wait(attempt, max_retries, base) {
        if conn.reconnect_attempt(attempt).is_ok() {
            conn.end_auto_reconnect();
            return true;
        }
        attempt += 1;
    }
    conn.end_auto_reconnect();
    false
}

#[test]
fn test_reconnect_wait_steps() {
    let base = Duration::from_millis(200);
    assert_eq!(reconnect_wait(0, 3, base), Some(None));
    assert_eq!(reconnect_wait(1, 3, base), Some(Some(Duration::from_millis(400))));
    assert_eq!(reconnect_wait(2, 3, base), Some(Some(Duration::from_millis(800))));
    assert_eq!(reconnect_wait(3, 3, base), None);
    assert_eq!(reconnect_wait(0, 0, base), None);
    assert_eq!(reconnect_wait(9, 10, base), Some(Some(Duration::from_millis(12_800))));
}

fn open_channel(conn: &mut Conn) {
    conn.datachannel
        .as_mut()
        .unwrap()
        .handle_text_message(parse(r#"{"type":"validation","data":"Validation Ok."}"#), Instant::from_nanos(0))
        .unwrap();
}

#[test]
fn test_connect_local_ap_sets_default_ip() {
    let mut conn: Conn = UnitreeWebRTCConnection::new(WebRTCConnectionMethod::LocalAP, None, None);
    conn.connect().unwrap();

    assert!(conn.is_connected);
    assert_eq!(conn.ip.as_deref(), Some("192.168.12.1"));
    assert!(conn.datachannel.is_some());
    assert!(conn.audio.is_some());
    assert!(conn.video.is_some());
}

#[test]
fn test_connect_local_sta_requires_ip() {
    let mut conn: Conn = UnitreeWebRTCConnection::new(WebRTCConnectionMethod::LocalSTA, None, None);
    let err = conn.connect().unwrap_err();
    assert!(err.contains("requires ip"));
}

#[test]
fn test_disconnect_and_reconnect() {
    let mut conn: Conn =
        UnitreeWebRTCConnection::new(WebRTCConnectionMethod::LocalSTA, None, Some("192.168.0.10".to_string()));
    conn.connect().unwrap();
    conn.disconnect();
    assert!(!conn.is_connected);

    conn.reconnect().unwrap();
    assert!(conn.is_connected);
}

#[test]
fn test_auto_reconnect_stops_when_intentional_disconnect() {
    let mut conn: Conn =
        UnitreeWebRTCConnection::new(WebRTCConnectionMethod::LocalSTA, None, Some("192.168.0.10".to_string()));
    conn.disconnect();
    let ok = auto_reconnect(&mut conn, 3, Duration::from_millis(0));
    assert!(!ok);
}

#[test]
fn test_auto_reconnect_failure_path() {
    let mut conn: Conn = UnitreeWebRTCConnection::new(WebRTCConnectionMethod::LocalSTA, None, None);
    let ok = auto_reconnect(&mut conn, 2, Duration::from_millis(0));
    assert!(!ok);
    assert_eq!(conn.reconnect_attempts, 2);
}

#[test]
fn test_auto_reconnect_success_counts_one_attempt() {
    let mut conn: Conn = UnitreeWebRTCConnection::new(WebRTCConnectionMethod::Remote, Some("SN1".to_string()), None);
    assert!(auto_reconnect(&mut conn, 5, Duration::from_millis(200)));
    assert_eq!(conn.reconnect_attempts, 1);
    assert!(conn.is_connected);
    assert!(!conn.is_reconnecting);
}

#[test]
fn test_remote_requires_serial_number() {
    let mut conn: Conn = UnitreeWebRTCConnection::new(WebRTCConnectionMethod::Remote, None, None);
    assert_eq!(conn.connect().unwrap_err(), "Remote connection requires serial_number");
    assert!(!conn.is_connected);
}

#[test]
fn test_backoff_delays() {
    let base = Duration::from_millis(200);
    let expect = [200u64, 400, 800, 1600, 3200, 6400, 12800, 12800, 12800];
    for (attempt, ms) in expect.iter().enumerate() {
        assert_eq!(backoff_delay(base, attempt as u32).as_nanos(), (*ms as u128) * 1_000_000);
    }
    assert_eq!(backoff_delay(Duration::from_nanos(u64::MAX / 2), 3).as_nanos(), (u64::MAX / 2) as u128 * 8);
    let longest = u64::MAX as u128 * 1_000_000_000 + 999_999_999;
    assert_eq!(backoff_delay(Duration::from_secs(u64::MAX / 2), 2).as_nanos(), longest);
    assert_eq!(backoff_delay(Duration::from_secs(u64::MAX / 2), 1).as_nanos(), (u64::MAX / 2) as u128 * 2_000_000_000);
}

#[test]
fn test_webrtc_configuration() {
    let conn: Conn = UnitreeWebRTCConnection::new(WebRTCConnectionMethod::LocalAP, None, None);
    let none = conn.create_webrtc_configuration(None, true, false).unwrap();
    assert!(none.ice_servers.is_empty());
    assert_eq!(
        conn.create_webrtc_configuration(None, true, true).unwrap_err(),
        "TURN enabled but turn_server_info is missing"
    );
    let both = conn.create_webrtc_configuration(Some(("user", "pass", "turn:host")), true, true).unwrap();
    assert_eq!(both.ice_servers.len(), 2);
    assert_eq!(both.ice_servers[0].urls, vec!["turn:host".to_string()]);
    assert_eq!(both.ice_servers[0].username.as_deref(), Some("user"));
    assert_eq!(both.ice_servers[0].credential.as_deref(), Some("pass"));
    assert_eq!(both.ice_servers[1].urls, vec!["stun:stun.l.google.com:19302".to_string()]);
    assert_eq!(both.ice_servers[1].username, None);
    let stun_only = conn.create_webrtc_configuration(Some(("u", "p", "turn:h")), true, false).unwrap();
    assert_eq!(stun_only.ice_servers.len(), 1);
}

#[test]
fn test_publish_needs_open_channel() {
    let mut conn: Conn = UnitreeWebRTCConnection::new(WebRTCConnectionMethod::LocalAP, None, None);
    let err = conn.publish_without_callback("rt/t", None, "msg").unwrap_err();
    assert_eq!(err, "Connection or Data channel is not established");
    conn.connect().unwrap();
    assert!(conn.publish_without_callback("rt/t", None, "msg").is_err());
    open_channel(&mut conn);
    let m = conn.publish_without_callback("rt/t", Some(text("d")), "msg").unwrap();
    assert_eq!(at(&m, "type"), &text("msg"));
    assert_eq!(at(&m, "data"), &text("d"));
}

#[test]
fn test_publish_send_req_and_reply() {
    let mut conn: Conn = UnitreeWebRTCConnection::new(WebRTCConnectionMethod::LocalAP, None, None);
    conn.connect().unwrap();
    open_channel(&mut conn);
    let payload = parse(r#"{"id": 77, "parameter": "p"}"#);
    let req = conn.publish_send_req("rt/api/sport/request", &payload).unwrap();
    assert_eq!(req.identity_id, 77);
    assert_eq!(req.key, "77");
    let data = at(&req.message, "data");
    assert_eq!(at(data, "api_id"), &num(1001));
    assert_eq!(at(data, "id"), &num(77));
    assert_eq!(at(&req.message, "type"), &text("req"));
    let key = conn.request_sent("rt/api/sport/request", &req);
    assert_eq!(key, "77");
    let dc = conn.datachannel.as_mut().unwrap();
    dc.handle_text_message(
        parse(r#"{"type":"res","topic":"rt/api/sport/request","data":{"header":{"identity":{"id":77}}}}"#),
        Instant::from_nanos(0),
    )
    .unwrap();
    assert!(dc.take_resolved("77").is_some());
}

#[test]
fn test_subscribe_builds_sub_message() {
    let mut conn: Conn = UnitreeWebRTCConnection::new(WebRTCConnectionMethod::LocalAP, None, None);
    conn.connect().unwrap();
    open_channel(&mut conn);
    let m = conn.subscribe("rt/lf/lowstate", Box::new(|_: &JsonValue| {})).unwrap();
    assert_eq!(at(&m, "type"), &text("sub"));
    assert_eq!(at(&m, "data"), &text(""));
    let u = conn.unsubscribe("rt/lf/lowstate").unwrap();
    assert_eq!(at(&u, "type"), &text("unsub"));
}

#[test]
fn test_request_new_message() {
    let mut conn: Conn = UnitreeWebRTCConnection::new(WebRTCConnectionMethod::LocalAP, None, None);
    let payload = parse(r#"{"api_id": 1008, "parameter": {"x": 1}, "priority": true}"#);
    assert_eq!(
        conn.request_new_message("rt/t", &payload, 5, Some("{\"x\":1}")).unwrap_err(),
        "Connection is not established"
    );
    conn.connect().unwrap();
    assert_eq!(
        conn.request_new_message("rt/t", &parse(r#"{"id": 1}"#), 5, None).unwrap_err(),
        "Please provide api id"
    );
    let m = conn.request_new_message("rt/t", &payload, 5, Some("{\"x\":1}")).unwrap();
    let body = at(&m, "data");
    let identity = at(at(body, "header"), "identity");
    assert_eq!(at(identity, "id"), &num(5));
    assert_eq!(at(identity, "api_id"), &num(1008));
    assert_eq!(at(at(at(body, "header"), "policy"), "priority"), &num(1));
    assert_eq!(at(body, "parameter"), &text("{\"x\":1}"));
    let r = request_new_response("rt/t", "echo");
    assert_eq!(at(&r, "type"), &text("res"));
    assert_eq!(at(at(at(at(&r, "data"), "header"), "status"), "code"), &num(0));
    assert_eq!(at(at(&r, "data"), "data"), &text("echo"));
}

#[test]
fn test_text_payload_detection() {
    assert_eq!(text_payload(b"{\"a\":1}\r\n"), Some("{\"a\":1}\r\n".to_string()));
    assert_eq!(text_payload(&[0x7b, 0x00]), None);
    assert_eq!(text_payload(&[]), Some(String::new()));
}

#[test]
fn test_request_id_formula() {
    assert_eq!(request_id(2_147_483_648 + 5, 1001 + 7), 12);
    assert_eq!(request_id(10, 0), 10);
    assert_eq!(request_id(-5, 3), -2);
}

#[test]
fn test_connect_success_state() {
    let mut conn: Conn = UnitreeWebRTCConnection::new(WebRTCConnectionMethod::Remote, Some("SN1".to_string()), None);
    conn.connect().unwrap();
    let dc = conn.datachannel.as_ref().unwrap();
    assert_eq!(dc.decoder_type(), "libvoxel");
    assert!(!dc.is_open());
    assert!(conn.audio.as_ref().unwrap().is_enabled());
    assert!(conn.video.as_ref().unwrap().is_enabled());
}

#[test]
fn test_failed_reconnect_keeps_address() {
    let mut conn: Conn =
        UnitreeWebRTCConnection::new(WebRTCConnectionMethod::Remote, None, Some("10.0.0.7".to_string()));
    let err = conn.reconnect().unwrap_err();
    assert_eq!(err, "Remote connection requires serial_number");
    assert_eq!(conn.ip.as_deref(), Some("10.0.0.7"));
    assert!(!conn.is_connected);
    assert!(conn.reconnect_attempt(0).is_err());
    assert_eq!(conn.ip.as_deref(), Some("10.0.0.7"));
    assert_eq!(conn.reconnect_attempts, 1);
}
