use unitree_webrtc_connect_rs::tables;
use unitree_webrtc_connect_rs::multicast::discovery_entry;
use unitree_webrtc_connect_rs::json::{JsonMember, JsonValue};
use unitree_webrtc_connect_rs::strmap::StrMap;

fn obj(pairs: &[(&str, &str)]) -> JsonValue {
    JsonValue::Object(
        pairs
            .iter()
            .map(|(k, v)| JsonMember { key: k.to_string(), value: JsonValue::String(v.to_string()) })
            .collect(),
    )
}

#[test]
fn test_strmap_insert_get_remove() {
    let mut m: StrMap<u32> = StrMap::new();
    m.insert("a", 1);
    m.insert("b", 2);
    m.insert("a", 3);
    assert_eq!(m.len(), 2);
    assert_eq!(m.get("a"), Some(&3));
    assert!(m.contains_key("b"));
    assert_eq!(m.remove("b"), Some(2));
    assert_eq!(m.remove("b"), None);
    assert_eq!(m.len(), 1);
}

#[test]
fn test_discovery_entry() {
    let with_ip = obj(&[("sn", "B42"), ("ip", "10.0.0.5")]);
    assert_eq!(discovery_entry(&with_ip, "10.0.0.9"), Some(("B42".to_string(), "10.0.0.5".to_string())));
    let without_ip = obj(&[("sn", "B43")]);
    assert_eq!(discovery_entry(&without_ip, "10.0.0.9"), Some(("B43".to_string(), "10.0.0.9".to_string())));
    let no_sn = obj(&[("ip", "10.0.0.5")]);
    assert_eq!(discovery_entry(&no_sn, "10.0.0.9"), None);
}

#[test]
fn test_constant_tables() {
    let types = tables::data_channel_types();
    assert_eq!(types.len(), 15);
    assert!(types.contains(&("REQUEST", "req")));
    let topics = tables::rtc_topics();
    assert_eq!(topics.len(), 45);
    assert!(topics.contains(&("ULIDAR_ARRAY", "rt/utlidar/voxel_map_compressed")));
    let sport = tables::sport_commands();
    assert_eq!(sport.len(), 49);
    assert!(sport.contains(&("Hello", 1016)));
    assert_eq!(tables::audio_api_ids().len(), 21);
    assert!(tables::app_error_messages().contains(&("app_error_source_300", "Motor malfunction")));
}
