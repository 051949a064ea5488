//! Splitting an icon.sys title into its two display lines.
use vstd::prelude::*;
use crate::sjis::{encode_sjis, is_roundtrip_sjis, shift_jis_decoded, shift_jis_encoded};
use crate::text::{chars_of, string_from_chars, string_push};
use vstd::math::min;

verus! {

/// Characters shown per title line.
pub const ICON_SYS_TITLE_CHAR_LIMIT: usize = 16;

/// Shown in place of a control character.
pub const ICON_SYS_UNSUPPORTED_CHAR_PLACEHOLDER: char = '\u{FFFD}';

/// Unicode general category Cc, which `char::is_control` tests.
pub open spec fn is_control_char(c: char) -> bool {
    (c as u32) <= 0x1F || (0x7F <= (c as u32) && (c as u32) <= 0x9F)
}

/// Whether `c` is a control character (Unicode general category Cc).
pub fn is_control(c: char) -> (r: bool)
    ensures
        r == is_control_char(c),
{
    let v = c as u32;
    v <= 0x1F || (0x7F <= v && v <= 0x9F)
}

/// Bytes one character takes in Shift-JIS as the title splitter counts
/// them: one when it has no Shift-JIS form, and at least one.
pub open spec fn sjis_char_len(c: char) -> int {
    let (bytes, err) = shift_jis_encoded(seq![c]);
    if err || bytes.len() == 0 {
        1
    } else {
        bytes.len() as int
    }
}

/// How many leading characters of `chars` fit in `budget` Shift-JIS bytes,
/// stopping as soon as the budget is used up.
pub open spec fn chars_within(chars: Seq<char>, budget: int) -> nat
    decreases chars.len(),
{
    if chars.len() == 0 || budget <= 0 || budget < sjis_char_len(chars[0]) {
        0
    } else {
        1 + chars_within(chars.drop_first(), budget - sjis_char_len(chars[0]))
    }
}

/// The title with control characters replaced by the placeholder.
pub open spec fn sanitized_title(title: Seq<char>) -> Seq<char> {
    title.map_values(
        |c: char|
            if is_control_char(c) {
                '\u{FFFD}'
            } else {
                c
            },
    )
}

/// The two lines of a title broken after `break_index` Shift-JIS bytes:
/// the first holds at most 16 characters up to the break, the second the
/// next 16 characters.
pub open spec fn spec_split_title(title: Seq<char>, break_index: int) -> (Seq<char>, Seq<char>) {
    let s = sanitized_title(title);
    let first = min(chars_within(title, break_index) as int, 16);
    (s.take(first), s.skip(first).take(min(s.len() - first, 16)))
}

fn sjis_len_of(c: char) -> (n: usize)
    ensures
        n == sjis_char_len(c),
{
    let one = [c];
    let s = string_from_chars(&one);
    assert(s@ == seq![c]);
    match encode_sjis(s.as_str()) {
        Ok(bytes) => if bytes.len() == 0 {
            1
        } else {
            bytes.len()
        },
        Err(_) => 1,
    }
}

/// Splits an icon.sys title into its two display lines, the break falling
/// after `break_index` Shift-JIS bytes; control characters become the
/// placeholder.
pub fn split_icon_sys_title(title: &str, break_index: usize) -> (r: (String, String))
    ensures
        (r.0@, r.1@) == spec_split_title(title@, break_index as int),
{
    let chars = chars_of(title);
    let mut sanitized: Vec<char> = Vec::new();
    let mut k: usize = 0;
    while k < chars.len()
        invariant
            k <= chars@.len(),
            sanitized@ == sanitized_title(chars@.take(k as int)),
        decreases chars.len() - k,
    {
        let c = chars[k];
        if is_control(c) {
            sanitized.push(ICON_SYS_UNSUPPORTED_CHAR_PLACEHOLDER);
        } else {
            sanitized.push(c);
        }
        assert(chars@.take(k + 1) == chars@.take(k as int).push(c));
        k = k + 1;
    }
    assert(chars@.take(chars@.len() as int) == chars@);
    let mut remaining_bytes = break_index;
    assert(chars@.skip(0) == chars@);
    let mut break_in_chars: usize = 0;
    if remaining_bytes > 0 {
        while break_in_chars < chars.len()
            invariant_except_break
                remaining_bytes > 0,
            invariant
                break_in_chars <= chars@.len(),
                chars_within(chars@, break_index as int) == break_in_chars + chars_within(
                    chars@.skip(break_in_chars as int),
                    remaining_bytes as int,
                ),
            ensures
                chars_within(chars@, break_index as int) == break_in_chars,
            decreases chars.len() - break_in_chars,
        {
            let encoded_len = sjis_len_of(chars[break_in_chars]);
            assert(chars@.skip(break_in_chars as int)[0] == chars@[break_in_chars as int]);
            assert(chars@.skip(break_in_chars as int).drop_first() == chars@.skip(
                break_in_chars + 1,
            ));
            if remaining_bytes < encoded_len {
                break;
            }
            remaining_bytes = remaining_bytes - encoded_len;
            break_in_chars = break_in_chars + 1;
            if remaining_bytes == 0 {
                break;
            }
        }
    }
    let line1_count = if break_in_chars < ICON_SYS_TITLE_CHAR_LIMIT {
        break_in_chars
    } else {
        ICON_SYS_TITLE_CHAR_LIMIT
    };
    let mut line1: Vec<char> = Vec::new();
    let mut i: usize = 0;
    while i < line1_count
        invariant
            line1_count <= sanitized@.len(),
            i <= line1_count,
            line1@ == sanitized@.take(i as int),
        decreases line1_count - i,
    {
        line1.push(sanitized[i]);
        i = i + 1;
    }
    let mut line2: Vec<char> = Vec::new();
    let mut j: usize = line1_count;
    while j < sanitized.len() && j - line1_count < ICON_SYS_TITLE_CHAR_LIMIT
        invariant
            line1_count <= j <= sanitized@.len(),
            j - line1_count <= 16,
            line2@ == sanitized@.subrange(line1_count as int, j as int),
        decreases sanitized.len() - j,
    {
        line2.push(sanitized[j]);
        j = j + 1;
    }
    (string_from_chars(line1.as_slice()), string_from_chars(line2.as_slice()))
}


/// Whether a text encodes to Shift-JIS without loss and decodes back to
/// itself.
pub open spec fn roundtrips_sjis(s: Seq<char>) -> bool {
    let (bytes, enc_err) = shift_jis_encoded(s);
    let (text, dec_err) = shift_jis_decoded(bytes);
    !enc_err && !dec_err && text == s
}

/// What a title line keeps of what was typed: control characters are
/// dropped, and each other character is kept while the line holds fewer
/// than 16 and the line with it still survives Shift-JIS.
pub open spec fn sanitized_title_input(typed: Seq<char>) -> Seq<char>
    decreases typed.len(),
{
    if typed.len() == 0 {
        Seq::empty()
    } else {
        let prev = sanitized_title_input(typed.drop_last());
        let c = typed.last();
        if is_control_char(c) || prev.len() >= 16 || !roundtrips_sjis(prev.push(c)) {
            prev
        } else {
            prev.push(c)
        }
    }
}

proof fn lemma_sanitized_title_len(typed: Seq<char>)
    ensures
        sanitized_title_input(typed).len() <= 16,
    decreases typed.len(),
{
    if typed.len() > 0 {
        lemma_sanitized_title_len(typed.drop_last());
    }
}

/// Cleans a typed title line as the editor does.
pub fn sanitize_title_input(value: &str) -> (r: String)
    ensures
        r@ == sanitized_title_input(value@),
        r@.len() <= 16,
{
    let chars = chars_of(value);
    let mut sanitized = String::new();
    let mut accepted: usize = 0;
    let mut i: usize = 0;
    while i < chars.len()
        invariant
            i <= chars@.len(),
            chars@ == value@,
            sanitized@ == sanitized_title_input(chars@.take(i as int)),
            accepted == sanitized@.len(),
            accepted <= 16,
        decreases chars.len() - i,
    {
        let c = chars[i];
        assert(chars@.take(i + 1).drop_last() =~= chars@.take(i as int));
        assert(chars@.take(i + 1).last() == c);
        if !is_control(c) && accepted < ICON_SYS_TITLE_CHAR_LIMIT {
            let mut candidate = sanitized.clone();
            string_push(&mut candidate, c);
            if is_roundtrip_sjis(candidate.as_str()) {
                sanitized = candidate;
                accepted = accepted + 1;
            }
        }
        i = i + 1;
    }
    assert(chars@.take(i as int) =~= value@);
    proof {
        lemma_sanitized_title_len(value@);
    }
    sanitized
}

} // verus!
