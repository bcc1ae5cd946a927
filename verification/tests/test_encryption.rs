use aes::cipher::{BlockEncrypt, KeyInit};
use base64::Engine as _;
use unitree_webrtc_connect_rs::encryption::{
    aes_decrypt, aes_encrypt, generate_aes_key, generate_uuid, rsa_encrypt, rsa_load_public_key,
};

#[test]
fn test_generate_aes_key_has_expected_length() {
    let key = generate_aes_key();
    assert_eq!(key.len(), 32);
}

#[test]
fn test_aes_encrypt_decrypt() {
    let key = "26a663562a6f4dfbbbbf2b50c1a278cb";
    let message = "Hello, world! This is a longer test to span blocks.";

    let encrypted = aes_encrypt(message, key);
    let decrypted = aes_decrypt(&encrypted, key).unwrap();
    assert_eq!(message, decrypted);
}

#[test]
fn test_aes_decrypt_with_invalid_key_length() {
    let key = "26a663562a6f4dfbbbbf2b50c1a278cb";
    let encrypted = aes_encrypt("hello", key);
    let invalid_key = "short_key";

    let result = aes_decrypt(&encrypted, invalid_key);
    assert!(result.is_err());
}

#[test]
fn test_rsa_encrypt() {
    let public_key_base64 = "\
MIIBIjANBgkqhkiG9w0BAQEFAAOCAQ8AMIIBCgKCAQEAnOc1sgpzL4GTVp9/oQ0H\
D7eeAO2GJUABfjX3TitgXiXN1Ktn2WLsLrtAiIuj3OrrRogx8fCT16oxnXx/Xrap\
BRHD/ufHZ08A2IRVw6U6vKDv8TpQH22sAEtUji4/P2AaZmeOxFsYW5FshQr37KBG\
+cBb7rJWLWEJpIXmCpnt37GGCtsACqRegkl7qQ8Q0OiJmtrYLPi00xSstZb+Wv1v\
8B0eTY3POAUXjgl357L5dc6vS99rYFkYeUCTWHaH4d51Z/KgCRYUadboDc2cgNg/\
z2dbO9S3HADegbIsN3fTbjDCruKfvc5ejxlFZ0Xbu6SScQbmkP8t3TPvy/DXGJAh\
NwIDAQAB";

    let pub_key = rsa_load_public_key(public_key_base64).unwrap();
    let value = "test_uuid_value";
    let encrypted = rsa_encrypt(value, &pub_key).unwrap();
    assert!(!encrypted.is_empty());
}

#[test]
fn test_rsa_encrypt_output_is_whole_blocks() {
    let public_key_base64 = "\
MIIBIjANBgkqhkiG9w0BAQEFAAOCAQ8AMIIBCgKCAQEAnOc1sgpzL4GTVp9/oQ0H\
D7eeAO2GJUABfjX3TitgXiXN1Ktn2WLsLrtAiIuj3OrrRogx8fCT16oxnXx/Xrap\
BRHD/ufHZ08A2IRVw6U6vKDv8TpQH22sAEtUji4/P2AaZmeOxFsYW5FshQr37KBG\
+cBb7rJWLWEJpIXmCpnt37GGCtsACqRegkl7qQ8Q0OiJmtrYLPi00xSstZb+Wv1v\
8B0eTY3POAUXjgl357L5dc6vS99rYFkYeUCTWHaH4d51Z/KgCRYUadboDc2cgNg/\
z2dbO9S3HADegbIsN3fTbjDCruKfvc5ejxlFZ0Xbu6SScQbmkP8t3TPvy/DXGJAh\
NwIDAQAB";
    let pub_key = rsa_load_public_key(public_key_base64).unwrap();
    assert_eq!(pub_key.size(), 256);
    // 300 bytes need two chunks of at most 245 bytes, so two 256-byte blocks.
    let value = "x".repeat(300);
    let encrypted = rsa_encrypt(&value, &pub_key).unwrap();
    let raw = base64::engine::general_purpose::STANDARD.decode(encrypted).unwrap();
    assert_eq!(raw.len(), 512);
}

#[test]
fn test_rsa_load_rejects_bad_key() {
    assert!(rsa_load_public_key("@@@").is_err());
    assert!(rsa_load_public_key("AAAA").is_err());
}

#[test]
fn test_aes_encrypt_known_answer() {
    let key = "26a663562a6f4dfbbbbf2b50c1a278cb";
    let encrypted = aes_encrypt("hello", key);
    // One block: "hello" padded with eleven bytes of 11, encrypted with AES-256.
    let cipher = aes::Aes256::new_from_slice(key.as_bytes()).unwrap();
    let mut block = [11u8; 16];
    block[..5].copy_from_slice(b"hello");
    let mut b = aes::Block::clone_from_slice(&block);
    cipher.encrypt_block(&mut b);
    let expected = base64::engine::general_purpose::STANDARD.encode(b.as_slice());
    assert_eq!(encrypted, expected);
}

#[test]
fn test_aes_decrypt_rejects_bad_input() {
    let key = "26a663562a6f4dfbbbbf2b50c1a278cb";
    assert!(aes_decrypt("@@@", key).is_err());
    // Valid base64 but not a whole number of blocks.
    assert!(aes_decrypt("AAAA", key).is_err());
}

#[test]
fn test_generate_uuid_and_key_are_hex() {
    let key = generate_aes_key();
    assert!(key.chars().all(|c| c.is_ascii_hexdigit() && !c.is_ascii_uppercase()));
    let uuid = generate_uuid();
    assert_eq!(uuid.len(), 32);
    assert!(uuid.chars().all(|c| c.is_ascii_hexdigit()));
}

#[test]
fn test_generate_aes_key_version_and_variant_digits() {
    for _ in 0..20 {
        let key = generate_aes_key();
        let chars: Vec<char> = key.chars().collect();
        assert_eq!(chars[12], '4');
        assert!(matches!(chars[16], '8' | '9' | 'a' | 'b'));
    }
}

#[test]
fn test_aes_encrypt_length_and_block_prefix() {
    let key = "26a663562a6f4dfbbbbf2b50c1a278cb";
    let engine = base64::engine::general_purpose::STANDARD;
    for n in [0usize, 1, 15, 16, 17, 31, 32, 45] {
        let data = "x".repeat(n);
        let decoded = engine.decode(aes_encrypt(&data, key)).unwrap();
        assert_eq!(decoded.len(), 16 * (n / 16 + 1));
    }
    let a = "0123456789abcdef0123456789ABCDEF";
    let b = "tail text";
    let joined = format!("{}{}", a, b);
    let whole = engine.decode(aes_encrypt(&joined, key)).unwrap();
    let alone = engine.decode(aes_encrypt(a, key)).unwrap();
    let rest = engine.decode(aes_encrypt(b, key)).unwrap();
    assert_eq!(&whole[..32], &alone[..32]);
    assert_eq!(&whole[32..], &rest[..]);
    assert_eq!(aes_encrypt(&joined, key), aes_encrypt(&joined, key));
}
