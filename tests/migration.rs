use base64::engine::general_purpose;
use base64::Engine;
use otp_search::get_qr_code;
use otp_search::migration::{
    create_migration_qr, create_migration_uri, encode_params, encode_payload, DigitCount, OtpCode,
};

fn sample() -> OtpCode {
    OtpCode::new(vec![1, 2, 3], Some("Acme".to_string()), "bob".to_string(), 6)
}

fn sample_params() -> Vec<u8> {
    vec![
        0x0A, 3, 1, 2, 3, 0x12, 3, b'b', b'o', b'b', 0x1A, 4, b'A', b'c', b'm', b'e', 0x20, 1,
        0x28, 1, 0x30, 2,
    ]
}

#[test]
fn digit_count_mapping() {
    let code = |n| OtpCode::new(vec![0], None, "a".to_string(), n).digit_count;
    assert_eq!(code(6), DigitCount::Six);
    assert_eq!(code(8), DigitCount::Eight);
    assert_eq!(code(7), DigitCount::Unspecified);
    assert_eq!(DigitCount::Eight.wire_value(), 2);
}

#[test]
fn params_message_bytes() {
    assert_eq!(encode_params(&sample()), sample_params());
    let no_issuer = OtpCode::new(vec![9], None, "x".to_string(), 8);
    assert_eq!(
        encode_params(&no_issuer),
        vec![0x0A, 1, 9, 0x12, 1, b'x', 0x20, 1, 0x28, 2, 0x30, 2]
    );
}

#[test]
fn payload_message_bytes() {
    let mut expected = vec![0x0A, 22];
    expected.extend(sample_params());
    expected.extend([0x10, 1, 0x18, 1, 0x20, 0, 0x28, 1]);
    assert_eq!(encode_payload(&vec![sample()]), expected);
    assert_eq!(encode_payload(&vec![]), vec![0x10, 1, 0x18, 1, 0x20, 0, 0x28, 1]);
}

#[test]
fn long_fields_use_multi_byte_lengths() {
    let code = OtpCode::new(vec![7u8; 200], None, "".to_string(), 6);
    let bytes = encode_params(&code);
    assert_eq!(&bytes[..3], &[0x0A, 0xC8, 0x01]);
    assert_eq!(bytes.len(), 3 + 200 + 2 + 6);
}

#[test]
fn migration_uri_wraps_encoded_payload() {
    let payload = encode_payload(&vec![sample()]);
    let b64 = general_purpose::STANDARD.encode(&payload);
    let data: String = url::form_urlencoded::byte_serialize(b64.as_bytes()).collect();
    let uri = create_migration_uri(vec![sample()]);
    assert_eq!(uri, format!("otpauth-migration://offline?data={}", data));
    assert!(uri.len() > "otpauth-migration://offline?data=".len());
}

#[test]
fn migration_qr_is_base64() {
    let qr = create_migration_qr(vec![sample()]).unwrap();
    assert!(!qr.is_empty());
    assert!(general_purpose::STANDARD.decode(&qr).is_ok());
}

#[test]
fn qr_code_rejects_bad_configuration() {
    assert_eq!(
        get_qr_code(vec![0u8; 20], None, "bob".to_string(), 5),
        Err("Invalid configuration".to_string())
    );
    assert_eq!(
        get_qr_code(vec![0u8; 10], None, "bob".to_string(), 6),
        Err("Invalid configuration".to_string())
    );
    assert_eq!(
        get_qr_code(vec![0u8; 20], Some("a:b".to_string()), "bob".to_string(), 6),
        Err("Invalid configuration".to_string())
    );
}

#[test]
fn qr_code_of_valid_generator() {
    let qr = get_qr_code(b"12345678901234567890".to_vec(), Some("Acme".to_string()), "bob".to_string(), 6)
        .unwrap();
    assert!(general_purpose::STANDARD.decode(&qr).is_ok());
}

#[test]
fn migration_uri_exact_text() {
    // Payload of no entries: 10 01 18 01 20 00 28 01, base64 "EAEYASAAKAE=".
    assert_eq!(
        create_migration_uri(vec![]),
        "otpauth-migration://offline?data=EAEYASAAKAE%3D"
    );
}

#[test]
fn migration_uri_escapes_plus_and_slash() {
    // 0xFB 0xFF encode to "+/8=".
    let code = OtpCode::new(vec![0xFB, 0xFF], None, "".to_string(), 6);
    let payload = encode_payload(&vec![code]);
    let b64 = general_purpose::STANDARD.encode(&payload);
    let uri = create_migration_uri(vec![OtpCode::new(vec![0xFB, 0xFF], None, "".to_string(), 6)]);
    let data = &uri["otpauth-migration://offline?data=".len()..];
    assert_eq!(data, b64.replace('+', "%2B").replace('/', "%2F").replace('=', "%3D"));
}

#[test]
fn qr_outcomes_repeat() {
    let a = get_qr_code(vec![5u8; 20], None, "bob".to_string(), 8);
    let b = get_qr_code(vec![5u8; 20], None, "bob".to_string(), 8);
    assert_eq!(a, b);
    assert!(a.is_ok());
    let c = create_migration_qr(vec![sample()]);
    let d = create_migration_qr(vec![sample()]);
    assert_eq!(c, d);
}
