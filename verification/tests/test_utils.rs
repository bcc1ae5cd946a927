use unitree_webrtc_connect_rs::utils::{generate_md5, generate_uuid_js_style};

#[test]
fn test_generate_md5() {
    let test_str = "password123";
    let hash = generate_md5(test_str);
    assert_eq!(hash, "482c811da5d5b4bc6d497ffa98491e38");
}

#[test]
fn test_generate_uuid_js_style() {
    let uuid_str = generate_uuid_js_style();
    assert_eq!(uuid_str.len(), 36);
    assert_eq!(uuid_str.chars().nth(14), Some('4'));
    let y_char = uuid_str.chars().nth(19).unwrap();
    assert!(['8', '9', 'a', 'b'].contains(&y_char));
}

#[test]
fn test_generate_md5_of_empty_text() {
    assert_eq!(generate_md5(""), "d41d8cd98f00b204e9800998ecf8427e");
}

#[test]
fn test_uuid_js_style_shape() {
    for _ in 0..20 {
        let u = generate_uuid_js_style();
        for (i, c) in u.chars().enumerate() {
            if [8, 13, 18, 23].contains(&i) {
                assert_eq!(c, '-');
            } else {
                assert!(c.is_ascii_digit() || ('a'..='f').contains(&c));
            }
        }
    }
}

#[test]
fn test_generate_md5_is_32_lowercase_hex_digits() {
    for s in ["", "a", "hello world", "ünïcödé"] {
        let hash = generate_md5(s);
        assert_eq!(hash.len(), 32);
        assert!(hash.chars().all(|c| c.is_ascii_digit() || ('a'..='f').contains(&c)));
    }
}
