use unitree_webrtc_connect_rs::message::parse_array_buffer;

#[test]
fn test_parse_normal_message() {
    let json_str = r#"{"topic":"a"}"#;
    let json_bytes = json_str.as_bytes();
    let header_length = json_bytes.len() as u16;

    let mut buffer = Vec::new();
    buffer.extend_from_slice(&header_length.to_le_bytes());
    buffer.extend_from_slice(&[0, 0]);
    buffer.extend_from_slice(json_bytes);
    buffer.extend_from_slice(&[10, 20, 30]);

    let parsed = parse_array_buffer(&buffer).expect("Should parse successfully");

    assert!(!parsed.is_lidar);
    let json: serde_json::Value = serde_json::from_slice(&parsed.json_text).unwrap();
    let expected: serde_json::Value = serde_json::from_str(r#"{"topic": "a"}"#).unwrap();
    assert_eq!(json, expected);
    assert_eq!(parsed.binary_data, vec![10, 20, 30]);
}

#[test]
fn test_parse_lidar_message() {
    let mut buffer = Vec::new();
    buffer.extend_from_slice(&2u16.to_le_bytes());
    buffer.extend_from_slice(&0u16.to_le_bytes());

    let json_str = r#"{"type":"lidar"}"#;
    let json_bytes = json_str.as_bytes();
    let header_length = json_bytes.len() as u32;

    buffer.extend_from_slice(&header_length.to_le_bytes());
    buffer.extend_from_slice(&[0, 0, 0, 0]);
    buffer.extend_from_slice(json_bytes);
    buffer.extend_from_slice(&[255, 128]);

    let parsed = parse_array_buffer(&buffer).expect("Should parse successfully");

    assert!(parsed.is_lidar);
    let json: serde_json::Value = serde_json::from_slice(&parsed.json_text).unwrap();
    let expected: serde_json::Value = serde_json::from_str(r#"{"type": "lidar"}"#).unwrap();
    assert_eq!(json, expected);
    assert_eq!(parsed.binary_data, vec![255, 128]);
}

#[test]
fn test_parse_errors() {
    assert_eq!(parse_array_buffer(&[1, 2, 3]).unwrap_err(), "Buffer too small to contain header");
    assert_eq!(parse_array_buffer(&[9, 0, 0, 0, 1]).unwrap_err(), "Buffer too small for normal json data");
    assert_eq!(parse_array_buffer(&[2, 0, 0, 0, 1, 2]).unwrap_err(), "Buffer too small for lidar header");
    assert_eq!(
        parse_array_buffer(&[2, 0, 0, 0, 5, 0, 0, 0, 0, 0, 0, 0, 1]).unwrap_err(),
        "Buffer too small for lidar json data"
    );
}

#[test]
fn test_two_byte_json_reads_as_lidar_marker() {
    // A normal frame whose JSON is two bytes long starts like the lidar marker.
    let buffer = vec![2, 0, 0, 0, b'{', b'}'];
    assert_eq!(parse_array_buffer(&buffer).unwrap_err(), "Buffer too small for lidar header");
}

#[test]
fn test_empty_json_and_payload() {
    let parsed = parse_array_buffer(&[0, 0, 0, 0]).unwrap();
    assert!(!parsed.is_lidar);
    assert!(parsed.json_text.is_empty());
    assert!(parsed.binary_data.is_empty());
}
