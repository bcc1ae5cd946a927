use std::sync::{Arc, Mutex};
use unitree_webrtc_connect_rs::audio::WebRTCAudioChannel;
use unitree_webrtc_connect_rs::json::{JsonMember, JsonValue};
use unitree_webrtc_connect_rs::video::WebRTCVideoChannel;

type Callback = Box<dyn Fn(&JsonValue)>;

fn kind(k: &str) -> JsonValue {
    JsonValue::Object(vec![JsonMember { key: "kind".to_string(), value: JsonValue::String(k.to_string()) }])
}

#[test]
fn test_video_channel_callbacks_and_switch() {
    let mut video: WebRTCVideoChannel<Callback> = WebRTCVideoChannel::new();
    assert!(video.is_enabled());

    let called = Arc::new(Mutex::new(false));
    let called_clone = Arc::clone(&called);
    video.add_track_callback(Box::new(move |_| {
        if let Ok(mut guard) = called_clone.lock() {
            *guard = true;
        }
    }));

    assert_eq!(video.callback_count(), 1);
    video.track_handler(&kind("video"));
    assert!(*called.lock().unwrap());

    video.switch_video_channel(false);
    assert!(!video.is_enabled());
}

#[test]
fn test_audio_channel_callbacks_and_switch() {
    let mut audio: WebRTCAudioChannel<Callback> = WebRTCAudioChannel::new();
    assert!(audio.is_enabled());

    let called = Arc::new(Mutex::new(false));
    let called_clone = Arc::clone(&called);
    audio.add_track_callback(Box::new(move |_| {
        if let Ok(mut guard) = called_clone.lock() {
            *guard = true;
        }
    }));

    assert_eq!(audio.callback_count(), 1);
    audio.frame_handler(&kind("audio"));
    assert!(*called.lock().unwrap());

    audio.switch_audio_channel(false);
    assert!(!audio.is_enabled());
}

#[test]
fn test_callbacks_run_in_order() {
    let log = Arc::new(Mutex::new(Vec::new()));
    let mut video: WebRTCVideoChannel<Callback> = WebRTCVideoChannel::new();
    for i in 0..3 {
        let l = Arc::clone(&log);
        video.add_track_callback(Box::new(move |_| l.lock().unwrap().push(i)));
    }
    video.track_handler(&kind("video"));
    assert_eq!(*log.lock().unwrap(), vec![0, 1, 2]);
    assert_eq!(video.track_callbacks().len(), 3);
}
