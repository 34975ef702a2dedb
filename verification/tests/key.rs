use websocket_key::{WebSocketError, WebSocketKey};

const MUST_BE_16: &str = "Sec-WebSocket-Key must be 16 bytes";
const INVALID: &str = "Invalid Sec-WebSocket-Key";

fn octets(result: Result<WebSocketKey, WebSocketError>) -> [u8; 16] {
    match result {
        Ok(key) => key.0,
        Err(error) => panic!("expected a key, got {:?}", error),
    }
}

fn fault(result: Result<WebSocketKey, WebSocketError>) -> WebSocketError {
    match result {
        Ok(key) => panic!("expected an error, got {}", key.to_debug_string()),
        Err(error) => error,
    }
}

#[test]
fn test_header_from_str() {
    let key = WebSocketKey::from_str("YSByZWFsbCBnb29kIGtleQ==");
    assert!(key.is_ok()); // 16 bytes

    let key = WebSocketKey::from_str("YSBzaG9ydCBrZXk=");
    assert!(key.is_err()); // < 16 bytes

    let key = WebSocketKey::from_str("YSB2ZXJ5IHZlcnkgbG9uZyBrZXk=");
    assert!(key.is_err()); // > 16 bytes
}

#[test]
fn from_str_gives_the_decoded_octets() {
    let key = WebSocketKey::from_str("YSByZWFsbCBnb29kIGtleQ==");
    assert_eq!(&octets(key), b"a reall good key");
    let key = WebSocketKey::from_str("dGhlIHNhbXBsZSBub25jZQ==");
    assert_eq!(&octets(key), b"the sample nonce");
    let key = WebSocketKey::from_str("AAECAwQFBgcICQoLDA0ODw==");
    assert_eq!(octets(key), [0, 1, 2, 3, 4, 5, 6, 7, 8, 9, 10, 11, 12, 13, 14, 15]);
}

#[test]
fn from_str_short_key_is_a_length_error() {
    let error = fault(WebSocketKey::from_str("YSBzaG9ydCBrZXk="));
    assert_eq!(error, WebSocketError::ProtocolError(MUST_BE_16));
}

#[test]
fn from_str_long_key_is_a_length_error() {
    let error = fault(WebSocketKey::from_str("YSB2ZXJ5IHZlcnkgbG9uZyBrZXk="));
    assert_eq!(error, WebSocketError::ProtocolError(MUST_BE_16));
}

#[test]
fn from_str_empty_is_a_length_error() {
    let error = fault(WebSocketKey::from_str(""));
    assert_eq!(error, WebSocketError::ProtocolError(MUST_BE_16));
}

#[test]
fn from_str_fifteen_and_seventeen_octets_are_length_errors() {
    // fifteen and seventeen times 'A'
    let error = fault(WebSocketKey::from_str("QUFBQUFBQUFBQUFBQUFB"));
    assert_eq!(error, WebSocketError::ProtocolError(MUST_BE_16));
    let error = fault(WebSocketKey::from_str("QUFBQUFBQUFBQUFBQUFBQUE="));
    assert_eq!(error, WebSocketError::ProtocolError(MUST_BE_16));
    let error = fault(WebSocketKey::from_str("QQ=="));
    assert_eq!(error, WebSocketError::ProtocolError(MUST_BE_16));
}

#[test]
fn from_str_not_base64_is_invalid() {
    let error = fault(WebSocketKey::from_str("!!!not base64!!!"));
    assert_eq!(error, WebSocketError::ProtocolError(INVALID));
}

#[test]
fn from_str_foreign_characters_are_invalid() {
    // the first text is a key's; each of the others has one character changed
    assert!(WebSocketKey::from_str("QUFBQUFBQUFBQUFBQUFBQQ==").is_ok());
    for text in [
        "QUFBQUFB*UFBQUFBQUFBQQ==",
        "QUFBQUFB UFBQUFBQUFBQQ==",
        "QUFBQUFB-UFBQUFBQUFBQQ==",
        "QUFBQUFB_UFBQUFBQUFBQQ==",
        "QUFBQUFB\u{e9}UFBQUFBQUFBQQ==",
        "QUFBQUFBQUFBQUFBQUFBQQ=\n",
    ] {
        let error = fault(WebSocketKey::from_str(text));
        assert_eq!(error, WebSocketError::ProtocolError(INVALID));
    }
}

#[test]
fn from_str_does_not_trim() {
    let error = fault(WebSocketKey::from_str(" QUFBQUFBQUFBQUFBQUFBQQ=="));
    assert_eq!(error, WebSocketError::ProtocolError(INVALID));
    let error = fault(WebSocketKey::from_str("QUFBQUFBQUFBQUFBQUFBQQ== "));
    assert_eq!(error, WebSocketError::ProtocolError(INVALID));
}

#[test]
fn from_str_padding_inside_is_invalid() {
    let error = fault(WebSocketKey::from_str("QUFBQUFB=UFBQUFBQUFBQQ=="));
    assert_eq!(error, WebSocketError::ProtocolError(INVALID));
    let error = fault(WebSocketKey::from_str("QUFBQUFBQUFBQUFBQUFB=Q=="));
    assert_eq!(error, WebSocketError::ProtocolError(INVALID));
}

#[test]
fn from_str_text_that_is_no_padded_encoding_is_invalid() {
    // padding left out, in part or whole
    let error = fault(WebSocketKey::from_str("QUFBQUFBQUFBQUFBQUFBQQ"));
    assert_eq!(error, WebSocketError::ProtocolError(INVALID));
    let error = fault(WebSocketKey::from_str("QUFBQUFBQUFBQUFBQUFBQQ="));
    assert_eq!(error, WebSocketError::ProtocolError(INVALID));
    // one padding character too many
    let error = fault(WebSocketKey::from_str("QUFBQUFBQUFBQUFBQUFBQQ==="));
    assert_eq!(error, WebSocketError::ProtocolError(INVALID));
    // bits set behind the sixteenth octet
    let error = fault(WebSocketKey::from_str("QUFBQUFBQUFBQUFBQUFBQR=="));
    assert_eq!(error, WebSocketError::ProtocolError(INVALID));
    // a length that no encoding has
    let error = fault(WebSocketKey::from_str("QUFBQ"));
    assert_eq!(error, WebSocketError::ProtocolError(INVALID));
}

#[test]
fn serialize_all_a() {
    let key = WebSocketKey([65; 16]);
    assert_eq!(key.serialize(), "QUFBQUFBQUFBQUFBQUFBQQ==");
}

#[test]
fn serialize_exact_values() {
    assert_eq!(WebSocketKey([0; 16]).serialize(), "AAAAAAAAAAAAAAAAAAAAAA==");
    assert_eq!(WebSocketKey([0xff; 16]).serialize(), "/////////////////////w==");
    let counting = WebSocketKey([0, 1, 2, 3, 4, 5, 6, 7, 8, 9, 10, 11, 12, 13, 14, 15]);
    assert_eq!(counting.serialize(), "AAECAwQFBgcICQoLDA0ODw==");
    let plus = WebSocketKey([
        0xfb, 0xef, 0xbe, 0xfb, 0xef, 0xbe, 0xfb, 0xef, 0xbe, 0xfb, 0xef, 0xbe, 0xfb, 0xef, 0xbe,
        0xfb,
    ]);
    assert_eq!(plus.serialize(), "+++++++++++++++++++++w==");
    assert_eq!(WebSocketKey(*b"the sample nonce").serialize(), "dGhlIHNhbXBsZSBub25jZQ==");
}

fn is_alphabet(c: char) -> bool {
    c.is_ascii_alphanumeric() || c == '+' || c == '/'
}

fn has_key_shape(text: &str) -> bool {
    let chars: Vec<char> = text.chars().collect();
    chars.len() == 24
        && text.is_ascii()
        && chars[..22].iter().all(|c| is_alphabet(*c))
        && chars[22] == '='
        && chars[23] == '='
}

#[test]
fn serialize_has_the_canonical_shape() {
    let mut payload = [0u8; 16];
    for seed in 0..=255u8 {
        for (i, octet) in payload.iter_mut().enumerate() {
            *octet = seed.wrapping_mul(31).wrapping_add((i as u8).wrapping_mul(17));
        }
        let text = WebSocketKey(payload).serialize();
        assert!(has_key_shape(&text), "{}", text);
    }
}

#[test]
fn parse_of_serialize_is_the_key() {
    let mut payload = [0u8; 16];
    for seed in 0..=255u8 {
        for (i, octet) in payload.iter_mut().enumerate() {
            *octet = seed.wrapping_mul(13).wrapping_add((i as u8).wrapping_mul(29));
        }
        let key = WebSocketKey(payload);
        let again = WebSocketKey::from_str(&key.serialize());
        assert_eq!(octets(again), payload);
    }
}

#[test]
fn parse_of_serialize_of_random_keys() {
    for _ in 0..100 {
        let key = WebSocketKey::new();
        let again = WebSocketKey::from_str(&key.serialize());
        assert_eq!(octets(again), key.0);
        assert!(has_key_shape(&key.serialize()));
    }
}

#[test]
fn from_slice_takes_sixteen_octets() {
    let key = WebSocketKey::from_slice(b"a reall good key");
    assert_eq!(&octets(key), b"a reall good key");
}

#[test]
fn from_slice_turns_down_other_lengths() {
    let error = fault(WebSocketKey::from_slice(b""));
    assert_eq!(error, WebSocketError::ProtocolError(MUST_BE_16));
    let error = fault(WebSocketKey::from_slice(b"a short key"));
    assert_eq!(error, WebSocketError::ProtocolError(MUST_BE_16));
    let error = fault(WebSocketKey::from_slice(&[7u8; 15]));
    assert_eq!(error, WebSocketError::ProtocolError(MUST_BE_16));
    let error = fault(WebSocketKey::from_slice(&[7u8; 17]));
    assert_eq!(error, WebSocketError::ProtocolError(MUST_BE_16));
}

#[test]
fn new_keys_differ() {
    let k1 = WebSocketKey::new();
    let k2 = WebSocketKey::new();
    assert!(k1 != k2);
}

#[test]
fn new_keys_do_not_repeat() {
    let mut seen = std::collections::HashSet::new();
    for _ in 0..1000 {
        assert!(seen.insert(WebSocketKey::new().0));
    }
    assert_eq!(seen.len(), 1000);
}

#[test]
fn equality_is_bytewise() {
    let a = WebSocketKey([65; 16]);
    let b = WebSocketKey([65; 16]);
    let mut payload = [65u8; 16];
    payload[15] = 66;
    let c = WebSocketKey(payload);
    assert!(a == b);
    assert!(a != c);
    assert!(c != a);
    payload[15] = 65;
    payload[0] = 0;
    assert!(a != WebSocketKey(payload));
}

#[test]
fn keys_are_copied() {
    let a = WebSocketKey([9; 16]);
    let b = a;
    let c = a.clone();
    assert!(a == b);
    assert!(a == c);
}

#[test]
fn default_is_all_zero() {
    let key = WebSocketKey::default();
    assert_eq!(key.0, [0u8; 16]);
    assert_eq!(key.serialize(), "AAAAAAAAAAAAAAAAAAAAAA==");
}

#[test]
fn debug_form_is_not_the_wire_form() {
    let key = WebSocketKey([65; 16]);
    assert_eq!(key.to_debug_string(), "WebSocketKey(QUFBQUFBQUFBQUFBQUFBQQ==)");
    assert_ne!(key.to_debug_string(), key.serialize());
}

#[test]
fn padded_texts_of_other_lengths_decode_but_are_no_keys() {
    for text in ["Zg==", "Zm8=", "Zm9v", "Zm9vYg==", "Zm9vYmE=", "Zm9vYmFy"] {
        let error = fault(WebSocketKey::from_str(text));
        assert_eq!(error, WebSocketError::ProtocolError(MUST_BE_16));
    }
}

#[test]
fn texts_with_bits_left_over_are_invalid() {
    // "Zg==" and "Zm8=" with a last character that sets bits behind the last octet
    for text in ["Zh==", "Zm9=", "Zg=", "Zg", "Zm8", "Z", "Z===", "===="] {
        let error = fault(WebSocketKey::from_str(text));
        assert_eq!(error, WebSocketError::ProtocolError(INVALID));
    }
}
