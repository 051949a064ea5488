//! Shift-JIS, the text encoding of icon.sys titles, through `encoding_rs`.
use vstd::prelude::*;
use crate::text::str_eq;
use crate::text::string_from_chars;
use crate::text::chars_of;
use crate::text::bytes_before_nul;

verus! {

/// What `encoding_rs::SHIFT_JIS.encode` returns for a string: the bytes and
/// whether some character had no Shift-JIS form.
pub uninterp spec fn sjis_encode(s: Seq<char>) -> (Seq<u8>, bool);

/// What `encoding_rs::SHIFT_JIS.decode` returns for bytes: the text and
/// whether some sequence was malformed.
pub uninterp spec fn sjis_decode(b: Seq<u8>) -> (Seq<char>, bool);

/// Whether every character is ASCII.
pub open spec fn all_ascii(s: Seq<char>) -> bool {
    forall|i: int| 0 <= i < s.len() ==> (#[trigger] s[i]) < '\u{80}'
}

/// Whether every byte is below 0x80.
pub open spec fn all_ascii_bytes(b: Seq<u8>) -> bool {
    forall|i: int| 0 <= i < b.len() ==> (#[trigger] b[i]) < 0x80
}

/// The Shift-JIS encoding of a text and whether some character had no
/// Shift-JIS form: ASCII text is its own encoding, without error (Shift-JIS
/// is ASCII-compatible); other text gives what `sjis_encode` names.
pub open spec fn shift_jis_encoded(s: Seq<char>) -> (Seq<u8>, bool) {
    if all_ascii(s) {
        (s.map_values(|c: char| c as u8), false)
    } else {
        sjis_encode(s)
    }
}

/// The text Shift-JIS bytes decode to and whether some sequence was
/// malformed: bytes below 0x80 decode to the same code points, without
/// error; other bytes give what `sjis_decode` names.
pub open spec fn shift_jis_decoded(b: Seq<u8>) -> (Seq<char>, bool) {
    if all_ascii_bytes(b) {
        (b.map_values(|x: u8| x as char), false)
    } else {
        sjis_decode(b)
    }
}

/// Calls `encoding_rs::SHIFT_JIS.encode`.  Shift-JIS is an ASCII-compatible
/// encoding in `encoding_rs`, so ASCII text comes back unchanged and
/// without error; for other text only the name is stated.
#[verifier::external_body]
fn sjis_encode_call(input: &str) -> (r: (Vec<u8>, bool))
    ensures
        all_ascii(input@) ==> r.0@ == input@.map_values(|c: char| c as u8) && !r.1,
        !all_ascii(input@) ==> (r.0@, r.1) == sjis_encode(input@),
{
    let (encoded, _, had_errors) = encoding_rs::SHIFT_JIS.encode(input);
    (encoded.into_owned(), had_errors)
}

/// Calls `encoding_rs::SHIFT_JIS.decode`.  Its decoder passes bytes below
/// 0x80 through as ASCII, and such bytes hold no byte order mark; for other
/// bytes only the name is stated.
#[verifier::external_body]
fn sjis_decode_call(input: &[u8]) -> (r: (Vec<char>, bool))
    ensures
        all_ascii_bytes(input@) ==> r.0@ == input@.map_values(|x: u8| x as char) && !r.1,
        !all_ascii_bytes(input@) ==> (r.0@, r.1) == sjis_decode(input@),
{
    let (decoded, _, had_errors) = encoding_rs::SHIFT_JIS.decode(input);
    (decoded.chars().collect(), had_errors)
}

/// Encoding fails because a character has no Shift-JIS form.
#[derive(Debug, Clone, Copy, PartialEq, Eq, Structural)]
pub enum SjisEncodeError {
    UnmappableCharacter,
}

/// Encodes text as Shift-JIS; fails when some character has no Shift-JIS
/// form.
pub fn encode_sjis(input: &str) -> (r: Result<Vec<u8>, SjisEncodeError>)
    ensures
        r is Err <==> shift_jis_encoded(input@).1,
        r matches Ok(b) ==> b@ == shift_jis_encoded(input@).0,
{
    let (encoded, had_errors) = sjis_encode_call(input);
    if had_errors {
        return Err(SjisEncodeError::UnmappableCharacter);
    }
    Ok(encoded)
}

/// Decodes a NUL-terminated Shift-JIS string: the bytes before the first
/// zero byte; malformed sequences come out as replacement characters.
pub fn decode_sjis(input: &[u8]) -> (s: String)
    ensures
        s@ == shift_jis_decoded(bytes_before_nul(input@)).0,
{
    let text = crate::text::nul_terminated(input);
    let (decoded, _) = sjis_decode_call(text.as_slice());
    string_from_chars(decoded.as_slice())
}

/// Whether text encodes to Shift-JIS without loss and decodes back to
/// itself.
pub fn is_roundtrip_sjis(value: &str) -> (r: bool)
    ensures
        r == {
            let (bytes, enc_err) = shift_jis_encoded(value@);
            let (text, dec_err) = shift_jis_decoded(bytes);
            !enc_err && !dec_err && text == value@
        },
{
    let (encoded, encode_errors) = sjis_encode_call(value);
    if encode_errors {
        return false;
    }
    let (decoded, decode_errors) = sjis_decode_call(encoded.as_slice());
    if decode_errors {
        return false;
    }
    let decoded = string_from_chars(decoded.as_slice());
    str_eq(decoded.as_str(), value)
}

/// ASCII text survives Shift-JIS: it encodes without error, and its
/// encoding decodes back to it without error; without NUL characters it
/// also survives `decode_sjis`, which stops at the first zero byte.
pub proof fn lemma_ascii_sjis_roundtrip(s: Seq<char>)
    requires
        all_ascii(s),
    ensures
        !shift_jis_encoded(s).1,
        shift_jis_decoded(shift_jis_encoded(s).0) == (s, false),
        !s.contains('\0') ==> shift_jis_decoded(bytes_before_nul(shift_jis_encoded(s).0)).0 == s,
{
    let b = shift_jis_encoded(s).0;
    assert forall|i: int| 0 <= i < b.len() implies (#[trigger] b[i]) < 0x80 && (b[i] as char)
        == s[i] && (s[i] != '\0' ==> b[i] != 0) by {
        lemma_ascii_char_byte(s[i]);
    }
    assert(b.map_values(|x: u8| x as char) == s);
    if !s.contains('\0') {
        assert forall|i: int| 0 <= i < b.len() implies b[i] != 0 by {
            assert(s[i] != '\0');
        }
        lemma_bytes_before_nul_all(b);
    }
}

proof fn lemma_bytes_before_nul_all(b: Seq<u8>)
    requires
        forall|i: int| 0 <= i < b.len() ==> b[i] != 0,
    ensures
        bytes_before_nul(b) == b,
    decreases b.len(),
{
    if b.len() > 0 {
        lemma_bytes_before_nul_all(b.drop_first());
        assert(seq![b[0]] + b.drop_first() =~= b);
    }
}

proof fn lemma_ascii_char_byte(c: char)
    requires
        c < '\u{80}',
    ensures
        (c as u8) < 0x80,
        ((c as u8) as char) == c,
        c != '\0' ==> (c as u8) != 0,
{
    let v = c as u32;
    assert(v < 0x80);
    assert((v as u8) as u32 == v) by (bit_vector)
        requires
            v < 0x80,
    ;
    assert(c as u8 == v as u8);
}

} // verus!
