use participant_registry::attachment::{
    decode, decode_attachment, encode, encode_attachment, MalformedAttachment,
};
use participant_registry::base64::{decode_codes, encode_codes, symbol, value_of};

#[test]
fn known_encodings() {
    assert_eq!(encode(b""), "");
    assert_eq!(encode(b"f"), "Zg==");
    assert_eq!(encode(b"fo"), "Zm8=");
    assert_eq!(encode(b"foo"), "Zm9v");
    assert_eq!(encode(b"foob"), "Zm9vYg==");
    assert_eq!(encode(b"fooba"), "Zm9vYmE=");
    assert_eq!(encode(b"foobar"), "Zm9vYmFy");
    assert_eq!(encode(&[0xfb, 0xff, 0xbe]), "+/++");
    assert_eq!(encode(&[0, 0, 0]), "AAAA");
    assert_eq!(encode(&[255]), "/w==");
}

#[test]
fn known_decodings() {
    assert_eq!(decode(""), Some(vec![]));
    assert_eq!(decode("Zg=="), Some(b"f".to_vec()));
    assert_eq!(decode("Zm8="), Some(b"fo".to_vec()));
    assert_eq!(decode("Zm9v"), Some(b"foo".to_vec()));
    assert_eq!(decode("Zm9vYg=="), Some(b"foob".to_vec()));
    assert_eq!(decode("Zm9vYmE="), Some(b"fooba".to_vec()));
    assert_eq!(decode("Zm9vYmFy"), Some(b"foobar".to_vec()));
    assert_eq!(decode("+/++"), Some(vec![0xfb, 0xff, 0xbe]));
}

#[test]
fn malformed_text_is_rejected() {
    assert_eq!(decode("Z"), None);
    assert_eq!(decode("Zg"), None);
    assert_eq!(decode("Zg="), None);
    assert_eq!(decode("Zm9"), None);
    assert_eq!(decode("Zm9v="), None);
    assert_eq!(decode("===="), None);
    assert_eq!(decode("Z==="), None);
    assert_eq!(decode("Zg==Zg=="), None);
    assert_eq!(decode("Zm=v"), None);
    assert_eq!(decode("Zm9v\n"), None);
    assert_eq!(decode("Zm 9v"), None);
    assert_eq!(decode("Zm9-"), None);
    assert_eq!(decode("Zm9_"), None);
    assert_eq!(decode("Zmé="), None);
    assert_eq!(decode("éééé"), None);
}

#[test]
fn stray_bits_before_padding_are_rejected() {
    assert_eq!(decode("Zh=="), None);
    assert_eq!(decode("Zm9="), None);
    assert_eq!(decode("Zm8="), Some(b"fo".to_vec()));
}

#[test]
fn every_length_round_trips() {
    for n in 0usize..70 {
        let data: Vec<u8> = (0..n).map(|i| (i * 37 + n * 11) as u8).collect();
        let text = encode(&data);
        assert_eq!(text.len(), 4 * ((n + 2) / 3));
        assert_eq!(decode(&text), Some(data));
    }
}

#[test]
fn every_byte_value_round_trips() {
    let data: Vec<u8> = (0..=255u8).collect();
    assert_eq!(decode(&encode(&data)), Some(data.clone()));
    for b in 0..=255u8 {
        assert_eq!(decode(&encode(&[b])), Some(vec![b]));
        assert_eq!(decode(&encode(&[b, b ^ 0x5a])), Some(vec![b, b ^ 0x5a]));
    }
}

#[test]
fn codes_and_text_agree() {
    let data = b"curriculum vitae".to_vec();
    let codes = encode_codes(&data);
    assert_eq!(codes, encode(&data).into_bytes());
    assert_eq!(decode_codes(&codes), Some(data));
    assert_eq!(decode_codes(&[200, 200, 200, 200]), None);
}

#[test]
fn symbols_and_values_are_inverse() {
    let alphabet = b"ABCDEFGHIJKLMNOPQRSTUVWXYZabcdefghijklmnopqrstuvwxyz0123456789+/";
    for v in 0..64u8 {
        assert_eq!(symbol(v), alphabet[v as usize]);
        assert_eq!(value_of(symbol(v)), Some(v));
    }
    for code in 0..=255u8 {
        assert_eq!(value_of(code).is_some(), alphabet.contains(&code));
    }
    assert_eq!(value_of(b'='), None);
}

#[test]
fn absent_attachment_stays_absent() {
    assert_eq!(encode_attachment(&None), None);
    assert_eq!(decode_attachment(&None), Ok(None));
}

#[test]
fn empty_attachment_is_present_not_absent() {
    let text = encode_attachment(&Some(vec![]));
    assert_eq!(text, Some(String::new()));
    assert_eq!(decode_attachment(&text), Ok(Some(vec![])));
}

#[test]
fn present_attachment_round_trips() {
    let photo: Vec<u8> = vec![0x89, b'P', b'N', b'G', 0x0d, 0x0a, 0x1a, 0x0a, 0, 255];
    let text = encode_attachment(&Some(photo.clone()));
    assert_eq!(text, Some("iVBORw0KGgoA/w==".to_string()));
    assert_eq!(decode_attachment(&text), Ok(Some(photo)));
}

#[test]
fn malformed_attachment_is_an_error() {
    assert_eq!(decode_attachment(&Some("%%%%".to_string())), Err(MalformedAttachment));
    assert_eq!(decode_attachment(&Some("abc".to_string())), Err(MalformedAttachment));
}
