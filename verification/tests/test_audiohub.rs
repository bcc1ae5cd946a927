use unitree_webrtc_connect_rs::audiohub::WebRTCAudioHub;
use unitree_webrtc_connect_rs::json::{JsonNumber, JsonValue};

fn at<'a>(v: &'a JsonValue, key: &str) -> &'a JsonValue {
    v.get(key).unwrap()
}

fn text(s: &str) -> JsonValue {
    JsonValue::String(s.to_string())
}

fn num(n: u64) -> JsonValue {
    JsonValue::Number(JsonNumber::PosInt(n))
}

#[test]
fn test_audiohub_basic_requests() {
    let _hub = WebRTCAudioHub::new();

    let get_list = WebRTCAudioHub::get_audio_list_request();
    assert_eq!(at(&get_list, "topic"), &text("rt/api/audiohub/request"));
    assert_eq!(at(&get_list, "api_id"), &num(1001));

    let play = WebRTCAudioHub::play_by_uuid_request("uuid-1");
    assert_eq!(at(&play, "api_id"), &num(1002));
    assert_eq!(at(at(&play, "parameter"), "unique_id"), &text("uuid-1"));

    let pause = WebRTCAudioHub::pause_request();
    assert_eq!(at(&pause, "api_id"), &num(1003));

    let resume = WebRTCAudioHub::resume_request();
    assert_eq!(at(&resume, "api_id"), &num(1004));

    let mode = WebRTCAudioHub::set_play_mode_request("list_loop");
    assert_eq!(at(&mode, "api_id"), &num(1007));
    assert_eq!(at(at(&mode, "parameter"), "play_mode"), &text("list_loop"));
}

#[test]
fn test_audiohub_upload_request_chunking() {
    let requests = WebRTCAudioHub::upload_audio_file_requests("sample", 12, "md5", "ABCDEFGHIJ", 4);
    assert_eq!(requests.len(), 3);
    assert_eq!(at(&requests[0], "api_id"), &num(2001));
    assert_eq!(at(at(&requests[0], "parameter"), "current_block_index"), &num(1));
    assert_eq!(at(at(&requests[0], "parameter"), "total_block_number"), &num(3));
    assert_eq!(at(at(&requests[2], "parameter"), "block_content"), &text("IJ"));

    let megaphone = WebRTCAudioHub::upload_megaphone_requests("ABCDEFG", 3);
    assert_eq!(megaphone.len(), 3);
    assert_eq!(at(&megaphone[0], "api_id"), &num(4003));
    assert_eq!(at(at(&megaphone[1], "parameter"), "current_block_index"), &num(2));
}

#[test]
fn test_audiohub_other_requests() {
    let rename = WebRTCAudioHub::rename_record_request("u", "n");
    assert_eq!(at(&rename, "api_id"), &num(1008));
    let delete = WebRTCAudioHub::delete_record_request("u");
    assert_eq!(at(&delete, "api_id"), &num(1009));
    assert_eq!(at(&WebRTCAudioHub::get_play_mode_request(), "api_id"), &num(1010));
    assert_eq!(at(&WebRTCAudioHub::enter_megaphone_request(), "api_id"), &num(4001));
    assert_eq!(at(&WebRTCAudioHub::exit_megaphone_request(), "api_id"), &num(4002));
    let upload = WebRTCAudioHub::upload_audio_file_requests("f", 3, "m", "ABC", 0);
    assert_eq!(upload.len(), 1);
    assert_eq!(at(at(&upload[0], "parameter"), "block_content"), &text("ABC"));
    assert_eq!(at(at(&upload[0], "parameter"), "current_block_size"), &num(3));
}
