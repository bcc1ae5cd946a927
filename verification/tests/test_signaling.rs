use aes_gcm::aead::{Aead, KeyInit};
use aes_gcm::{Aes128Gcm, Nonce};
use base64::Engine as _;
use unitree_webrtc_connect_rs::encryption::aes_decrypt;
use unitree_webrtc_connect_rs::signaling::{
    calc_local_path_ending, con_ing_parameters, con_ing_request, decode_con_notify_response, con_ing_url, con_notify_url, decrypt_con_notify_data,
    local_offer_url,
};

fn b64(bytes: &[u8]) -> String {
    base64::engine::general_purpose::STANDARD.encode(bytes)
}

#[test]
fn test_calc_local_path_ending_extracts_expected_digits() {
    let sample = "1234567A8B";
    assert_eq!(calc_local_path_ending(sample), "01");
}

#[test]
fn test_decrypt_con_notify_data_invalid_base64_returns_error() {
    let result = decrypt_con_notify_data("@@@not_base64@@@");
    assert!(result.is_err());
}

#[test]
fn test_decrypt_con_notify_data_too_short_returns_error() {
    let short_payload = b64(&[1u8, 2, 3, 4, 5]);
    let result = decrypt_con_notify_data(&short_payload);
    assert!(result.is_err());
}

#[test]
fn test_decrypt_con_notify_data_valid_payload() {
    let key = [232, 86, 130, 189, 22, 84, 155, 0, 142, 4, 166, 104, 43, 179, 235, 227u8];
    let nonce_bytes = [1u8, 3, 5, 7, 9, 11, 13, 15, 2, 4, 6, 8];
    let plaintext = b"hello-con-notify";

    let cipher = Aes128Gcm::new(&key.into());
    let nonce = Nonce::from_slice(&nonce_bytes);
    let encrypted = cipher.encrypt(nonce, plaintext.as_ref()).expect("encryption should work in test");

    let tag_start = encrypted.len() - 16;
    let ciphertext = &encrypted[..tag_start];
    let tag = &encrypted[tag_start..];

    let mut python_style_payload = Vec::new();
    python_style_payload.extend_from_slice(ciphertext);
    python_style_payload.extend_from_slice(&nonce_bytes);
    python_style_payload.extend_from_slice(tag);

    let encoded = b64(&python_style_payload);
    let decrypted = decrypt_con_notify_data(&encoded).expect("decryption should succeed");

    assert_eq!(decrypted, "hello-con-notify");
}

#[test]
fn test_decrypt_con_notify_data_tampered_tag_fails() {
    let key = [232, 86, 130, 189, 22, 84, 155, 0, 142, 4, 166, 104, 43, 179, 235, 227u8];
    let nonce_bytes = [0u8; 12];
    let cipher = Aes128Gcm::new(&key.into());
    let encrypted = cipher.encrypt(Nonce::from_slice(&nonce_bytes), b"abc".as_ref()).unwrap();
    let tag_start = encrypted.len() - 16;
    let mut payload = Vec::new();
    payload.extend_from_slice(&encrypted[..tag_start]);
    payload.extend_from_slice(&nonce_bytes);
    let mut tag = encrypted[tag_start..].to_vec();
    tag[0] ^= 1;
    payload.extend_from_slice(&tag);
    assert!(decrypt_con_notify_data(&b64(&payload)).is_err());
}

#[test]
fn test_path_ending_of_longer_text() {
    // Only the last ten characters count; every second one is a letter code.
    assert_eq!(calc_local_path_ending("xxxx0A1B2C3D4E"), "01234");
}

#[test]
fn test_con_ing_parameters_split() {
    let data1 = "0123456789KEYTEXT1234567A8B";
    let (key, ending) = con_ing_parameters(data1).unwrap();
    assert_eq!(key, "KEYTEXT");
    assert_eq!(ending, "01");
    assert!(con_ing_parameters("short").is_err());
}

#[test]
fn test_signaling_urls() {
    assert_eq!(local_offer_url("1.2.3.4"), "http://1.2.3.4:8081/offer");
    assert_eq!(con_notify_url("1.2.3.4"), "http://1.2.3.4:9991/con_notify");
    assert_eq!(con_ing_url("1.2.3.4", "01"), "http://1.2.3.4:9991/con_ing_01");
}

#[test]
fn test_decode_con_notify_response_trims_and_decodes() {
    let encoded = format!("  {}\n", b64(br#"{"data1":"x","data2":1}"#));
    assert_eq!(decode_con_notify_response(&encoded).unwrap(), r#"{"data1":"x","data2":1}"#);
    assert!(decode_con_notify_response("not base64!").is_err());
    assert!(decode_con_notify_response(&b64(&[0xff, 0xfe])).is_err());
}

#[test]
fn test_con_ing_request_builds_encrypted_parts() {
    let pem = "\
MIIBIjANBgkqhkiG9w0BAQEFAAOCAQ8AMIIBCgKCAQEAnOc1sgpzL4GTVp9/oQ0H\
D7eeAO2GJUABfjX3TitgXiXN1Ktn2WLsLrtAiIuj3OrrRogx8fCT16oxnXx/Xrap\
BRHD/ufHZ08A2IRVw6U6vKDv8TpQH22sAEtUji4/P2AaZmeOxFsYW5FshQr37KBG\
+cBb7rJWLWEJpIXmCpnt37GGCtsACqRegkl7qQ8Q0OiJmtrYLPi00xSstZb+Wv1v\
8B0eTY3POAUXjgl357L5dc6vS99rYFkYeUCTWHaH4d51Z/KgCRYUadboDc2cgNg/\
z2dbO9S3HADegbIsN3fTbjDCruKfvc5ejxlFZ0Xbu6SScQbmkP8t3TPvy/DXGJAh\
NwIDAQAB";
    let data1 = format!("0123456789{}1234567A8B", pem);
    let req = con_ing_request("10.1.1.1", "v=0 offer", &data1, None).unwrap().unwrap();
    assert_eq!(req.url, "http://10.1.1.1:9991/con_ing_01");
    assert_eq!(req.aes_key.len(), 32);
    assert_eq!(aes_decrypt(&req.data1, &req.aes_key).unwrap(), "v=0 offer");
    let raw = base64::engine::general_purpose::STANDARD.decode(&req.data2).unwrap();
    assert_eq!(raw.len(), 256);
    assert!(con_ing_request("10.1.1.1", "o", "too short", None).is_err());
    assert!(con_ing_request("10.1.1.1", "o", "@@@", Some(2)).is_err());
}
