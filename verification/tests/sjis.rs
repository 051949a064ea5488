use ps2_suitcase::sjis::{decode_sjis, encode_sjis, is_roundtrip_sjis, SjisEncodeError};

fn assert_decodes_to(input: [u8; 2], expected: &str) {
    assert_eq!(decode_sjis(&input), expected);
}

#[test]
fn decode_crlf_preserves_both_characters() {
    assert_decodes_to([0x0D, 0x0A], "\r\n");
}

#[test]
fn decode_cr_only() {
    assert_decodes_to([0x0D, 0x00], "\r");
}

#[test]
fn decode_lf_only() {
    assert_decodes_to([0x0A, 0x00], "\n");
}

#[test]
fn encode_decode_roundtrip_ascii_punctuation() {
    let input = "SAVE!&LOAD";
    let encoded = encode_sjis(input).expect("encode ASCII punctuation");
    let decoded = decode_sjis(&encoded);

    assert_eq!(decoded, input);
}

#[test]
fn encode_decode_roundtrip_multibyte_japanese() {
    let input = "セーブテスト";
    let encoded = encode_sjis(input).expect("encode Japanese text");
    let decoded = decode_sjis(&encoded);

    assert_eq!(decoded, input);
}

#[test]
fn reports_unmappable_characters() {
    assert!(matches!(
        encode_sjis("𝄞"),
        Err(SjisEncodeError::UnmappableCharacter)
    ));
    assert!(!is_roundtrip_sjis("𝄞"));
    assert!(is_roundtrip_sjis("テスト"));
}

#[test]
fn ascii_text_encodes_to_its_own_bytes() {
    assert_eq!(encode_sjis("ABC 123").unwrap(), b"ABC 123".to_vec());
    assert!(is_roundtrip_sjis("plain ascii"));
}

#[test]
fn japanese_text_takes_two_bytes_per_character() {
    assert_eq!(encode_sjis("テスト").unwrap().len(), 6);
}
