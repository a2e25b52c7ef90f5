use base64::Engine;
use oidc::state::{AuthStateError, SignedState};

const STATE_ID: &str = "01ARZ3NDEKTSV4RRFFQ69G5FAV";
const SECRET: &str = "s3cret";
const SIGNATURE: &str = "e82911a9fab2f7f5ad8db5f4888d82f6839d93f3d892792e0532393fd6e537ae";
const TOKEN: &str = "eyJzdGF0ZV9pZCI6IjAxQVJaM05ERUtUU1Y0UlJGRlE2OUc1RkFWIiwidGltZXN0YW1wIjoxNzAwMDAwMDAwLCJzaWduYXR1cmUiOiJlODI5MTFhOWZhYjJmN2Y1YWQ4ZGI1ZjQ4ODhkODJmNjgzOWQ5M2YzZDg5Mjc5MmUwNTMyMzkzZmQ2ZTUzN2FlIn0";

fn b64(s: &str) -> String {
    base64::engine::general_purpose::URL_SAFE_NO_PAD.encode(s.as_bytes())
}

#[test]
fn signature_is_hmac_sha256_over_id_and_little_endian_timestamp() {
    let s = SignedState::signed_at(STATE_ID, 1_700_000_000, SECRET);
    assert_eq!(s.state_id, STATE_ID);
    assert_eq!(s.timestamp, 1_700_000_000);
    assert_eq!(s.signature, SIGNATURE);
}

#[test]
fn encode_gives_unpadded_url_safe_base64_of_the_json_frame() {
    let s = SignedState::signed_at(STATE_ID, 1_700_000_000, SECRET);
    assert_eq!(s.encode().unwrap(), TOKEN);
}

#[test]
fn decode_reads_a_known_token() {
    let s = SignedState::decode(TOKEN, SECRET).unwrap();
    assert_eq!(s.state_id, STATE_ID);
    assert_eq!(s.timestamp, 1_700_000_000);
    assert_eq!(s.signature, SIGNATURE);
}

#[test]
fn round_trip_with_the_same_secret() {
    let s = SignedState::new(STATE_ID, SECRET).unwrap();
    let token = s.encode().unwrap();
    let back = SignedState::decode(&token, SECRET).unwrap();
    assert_eq!(back.state_id, STATE_ID);
    assert_eq!(back, s);
}

#[test]
fn round_trip_of_a_zero_timestamp() {
    let s = SignedState::signed_at("abc", 0, "k");
    let back = SignedState::decode(&s.encode().unwrap(), "k").unwrap();
    assert_eq!(back, s);
}

#[test]
fn round_trip_of_the_largest_timestamp_and_non_ascii_id() {
    let s = SignedState::signed_at("état-ü", u64::MAX, "k");
    let back = SignedState::decode(&s.encode().unwrap(), "k").unwrap();
    assert_eq!(back, s);
}

#[test]
fn other_secret_is_a_signature_mismatch() {
    let token = SignedState::new(STATE_ID, "secret-one").unwrap().encode().unwrap();
    let r = SignedState::decode(&token, "secret-two");
    assert!(matches!(r, Err(AuthStateError::SignatureMismatchError(_))));
}

#[test]
fn flipping_any_byte_of_a_token_fails_decoding() {
    let token = SignedState::signed_at(STATE_ID, 1_700_000_000, SECRET).encode().unwrap();
    let bytes = token.as_bytes().to_vec();
    for i in 0..bytes.len() {
        for replacement in [b'A', b'z', b'0', b'-', b'_', b'!'] {
            if bytes[i] == replacement {
                continue;
            }
            let mut tampered = bytes.clone();
            tampered[i] = replacement;
            let tampered = String::from_utf8(tampered).unwrap();
            assert!(SignedState::decode(&tampered, SECRET).is_err(), "byte {} as {}", i, replacement);
        }
    }
}

#[test]
fn text_that_is_not_base64_is_a_decode_error() {
    assert!(matches!(SignedState::decode("not base64!", SECRET), Err(AuthStateError::DecodeError(_))));
    assert!(matches!(SignedState::decode("aGVsbG8=", SECRET), Err(AuthStateError::DecodeError(_))));
}

#[test]
fn base64_that_is_not_a_frame_is_a_deserialize_error() {
    assert!(matches!(SignedState::decode(&b64("hello"), SECRET), Err(AuthStateError::DeserializeError(_))));
    assert!(matches!(SignedState::decode("", SECRET), Err(AuthStateError::DeserializeError(_))));
}

#[test]
fn leading_zeros_in_the_timestamp_are_refused() {
    let frame = format!(
        "{{\"state_id\":\"{}\",\"timestamp\":0{},\"signature\":\"{}\"}}",
        STATE_ID, 1_700_000_000u64, SIGNATURE
    );
    assert!(matches!(SignedState::decode(&b64(&frame), SECRET), Err(AuthStateError::DeserializeError(_))));
    let canonical = format!(
        "{{\"state_id\":\"{}\",\"timestamp\":{},\"signature\":\"{}\"}}",
        STATE_ID, 1_700_000_000u64, SIGNATURE
    );
    assert_eq!(b64(&canonical), TOKEN);
}

#[test]
fn timestamp_past_u64_is_refused() {
    let frame = format!(
        "{{\"state_id\":\"a\",\"timestamp\":18446744073709551616,\"signature\":\"{}\"}}",
        SIGNATURE
    );
    assert!(matches!(SignedState::decode(&b64(&frame), SECRET), Err(AuthStateError::DeserializeError(_))));
}

#[test]
fn ids_that_need_escaping_round_trip() {
    for id in ["a\"b", "back\\slash", "line\nbreak", "tab\tand\u{1}ctl", "\u{7f}é\u{1F600}", "\"", ""] {
        let s = SignedState::signed_at(id, 42, SECRET);
        let token = s.encode().unwrap();
        assert_eq!(SignedState::decode(&token, SECRET).unwrap(), s, "id {:?}", id);
    }
}

#[test]
fn escapes_are_written_as_json_writes_them() {
    let s = SignedState::signed_at("a\"\\\n\u{1}", 7, SECRET);
    let token = s.encode().unwrap();
    let bytes = base64::engine::general_purpose::URL_SAFE_NO_PAD.decode(token).unwrap();
    let text = String::from_utf8(bytes).unwrap();
    assert!(text.starts_with("{\"state_id\":\"a\\\"\\\\\\n\\u0001\",\"timestamp\":7,\"signature\":\""), "{}", text);
}

fn framed(json: &str) -> String {
    b64(json)
}

#[test]
fn decode_accepts_whitespace_and_any_member_order() {
    let spaced = format!(
        " \n{{ \"signature\" : \"{}\" ,\t\"timestamp\":1700000000 , \"state_id\":\"{}\" }}\r\n",
        SIGNATURE, STATE_ID
    );
    let s = SignedState::decode(&framed(&spaced), SECRET).unwrap();
    assert_eq!(s.state_id, STATE_ID);
    assert_eq!(s.timestamp, 1_700_000_000);
}

#[test]
fn decode_reads_json_escapes() {
    let id = "é😀/x";
    let signed = SignedState::signed_at(id, 9, SECRET);
    let json = format!(
        "{{\"state_id\":\"\\u00e9\\ud83d\\ude00\\/x\",\"timestamp\":9,\"signature\":\"{}\"}}",
        signed.signature
    );
    let s = SignedState::decode(&framed(&json), SECRET).unwrap();
    assert_eq!(s.state_id, id);
}

#[test]
fn decode_refuses_malformed_objects() {
    let good = format!("\"state_id\":\"{}\",\"timestamp\":1700000000,\"signature\":\"{}\"", STATE_ID, SIGNATURE);
    for json in [
        format!("{{{},\"timestamp\":1}}", good),
        format!("{{{},\"extra\":1}}", good),
        format!("{{{}}} x", good),
        format!("{{{},}}", good),
        format!("{{\"state_id\":\"{}\",\"signature\":\"{}\"}}", STATE_ID, SIGNATURE),
        format!("{{\"state_id\":\"\\ud800\",\"timestamp\":1,\"signature\":\"{}\"}}", SIGNATURE),
        format!("{{\"state_id\":\"a\nb\",\"timestamp\":1,\"signature\":\"{}\"}}", SIGNATURE),
        format!("{{\"state_id\":\"{}\",\"timestamp\":1.5,\"signature\":\"{}\"}}", STATE_ID, SIGNATURE),
        "{}".to_string(),
    ] {
        assert!(
            matches!(SignedState::decode(&framed(&json), SECRET), Err(AuthStateError::DeserializeError(_))),
            "{}",
            json
        );
    }
}

#[test]
fn signatures_are_64_hex_digits() {
    let s = SignedState::new("", "").unwrap();
    assert_eq!(s.signature.len(), 64);
    assert!(s.signature.chars().all(|c| c.is_ascii_hexdigit() && !c.is_ascii_uppercase()));
}

#[test]
fn verify_signature_checks_the_secret() {
    let s = SignedState::signed_at(STATE_ID, 1_700_000_000, SECRET);
    assert!(s.verify_signature(SECRET).is_ok());
    assert!(matches!(s.verify_signature("other"), Err(AuthStateError::SignatureMismatchError(_))));
}
