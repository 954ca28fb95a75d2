use fish_bot::fish_sign;
use fish_bot::sign::{decrypt, epoch_ms, generate_device_id, generate_mid, generate_sign, generate_uuid};

fn b64(bytes: &[u8]) -> String {
    base64::Engine::encode(&base64::engine::general_purpose::STANDARD, bytes)
}

#[test]
fn sign_t3_21_generate_device_id() {
    let did = fish_sign::generate_device_id("user123");
    assert!(did.contains("user123"));
}

#[test]
fn sign_t3_22_generate_sign() {
    let sig = generate_sign("1700000000000", "abc123", "{}").unwrap();
    assert_eq!(sig, "0de974d31357bb908f6e33b5c404f0b9");
}

#[test]
fn t3_22b_generate_sign_cross_verify() {
    assert_eq!(
        generate_sign("1700000000000", "abc123", "{}").unwrap(),
        "0de974d31357bb908f6e33b5c404f0b9"
    );
    assert_eq!(generate_sign("t", "token", "data").unwrap(), "4d63fc0d3ae96eb57b92cb12637e6269");
    assert_eq!(generate_sign("", "", "").unwrap(), "4d04f571711c7683d0c5b45abfdc8ccb");
}

#[test]
fn t3_19_generate_mid() {
    let mid = generate_mid();
    assert!(mid.ends_with(" 0"));
    let body = mid.strip_suffix(" 0").unwrap();
    assert!(body.len() >= 14);
}

#[test]
fn t3_20_generate_uuid() {
    let uuid = generate_uuid();
    assert!(uuid.starts_with('-'));
    assert!(uuid.ends_with('1'));
    assert!(uuid.len() >= 15);
}

#[test]
fn t3_21_generate_device_id() {
    let did = generate_device_id("user123");
    assert!(did.ends_with("-user123"));
    let base = did.strip_suffix("-user123").unwrap();
    assert_eq!(base.len(), 36);
    assert_eq!(base.matches('-').count(), 4);
    assert_eq!(base.chars().nth(14).unwrap(), '4');
    let v = base.chars().nth(19).unwrap();
    assert!(matches!(v, '8' | '9' | 'A' | 'B'));
    let did = generate_device_id("");
    assert_eq!(did.len(), 37);
    assert!(did.ends_with('-'));
}

#[test]
fn t3_23_decrypt_valid() {
    let b64 = b64(br#"{"key":"value"}"#);
    let result = decrypt(&b64).unwrap();
    assert_eq!(result.get_str("key"), Some("value"));
}

#[test]
fn t3_24_decrypt_invalid_base64() {
    assert!(decrypt("!!!invalid-base64!!!").is_err());
}

#[test]
fn legacy_generate_sign_joins_with_underscores() {
    assert_eq!(fish_sign::generate_sign("t", "token", "data").unwrap(), "t_token_data");
}

#[test]
fn legacy_ids_are_uuids() {
    let mid = fish_sign::generate_mid();
    assert_eq!(mid.len(), 36);
    assert_eq!(mid.chars().filter(|&c| c == '-').count(), 4);
    assert_eq!(fish_sign::generate_uuid().len(), 36);
    assert_eq!(fish_sign::generate_device_id("u1"), "device_u1");
    for id in [fish_sign::generate_mid(), fish_sign::generate_uuid()] {
        let cs: Vec<char> = id.chars().collect();
        for (i, c) in cs.iter().enumerate() {
            if [8, 13, 18, 23].contains(&i) {
                assert_eq!(*c, '-');
            } else {
                assert!(c.is_ascii_digit() || ('a'..='f').contains(c), "{id}");
            }
        }
        assert_eq!(cs[14], '4');
        assert!(['8', '9', 'a', 'b'].contains(&cs[19]));
    }
}

#[test]
fn legacy_decrypt_reads_json() {
    let b64 = b64(br#"{"key":"value"}"#);
    let v = fish_sign::decrypt(&b64).unwrap();
    assert_eq!(v.get_str("key"), Some("value"));
    assert!(fish_sign::decrypt("!!!invalid-base64!!!").is_err());
}

#[test]
fn mid_and_uuid_texts_are_exact() {
    assert_eq!(fish_bot::sign::mid_text(7, 1700000000000), "71700000000000 0");
    assert_eq!(fish_bot::sign::uuid_text(1700000000000), "-17000000000001");
}

#[test]
fn device_id_text_places_version_and_variant() {
    let ds: Vec<u8> = (0..30).map(|i| (i % 16) as u8).collect();
    let id = fish_bot::sign::device_id_text(&ds, 3, "me");
    assert_eq!(id, "01234567-89AB-4CDE-BF01-23456789ABCD-me");
}

#[test]
fn epoch_ms_is_after_2023() {
    assert!(epoch_ms() > 1_700_000_000_000);
}

#[test]
fn hex_lower_of_bytes() {
    assert_eq!(fish_bot::sign::hex_lower_of(&[0x00, 0x0f, 0xa5, 0xff]), "000fa5ff");
}
