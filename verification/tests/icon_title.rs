use ps2_suitcase::icon_title::sanitize_title_input;
use ps2_suitcase::icon_title::{split_icon_sys_title, ICON_SYS_UNSUPPORTED_CHAR_PLACEHOLDER};
use ps2_suitcase::sjis;

#[test]
fn split_icon_sys_title_replaces_control_characters() {
    let (line1, line2) = split_icon_sys_title("A\u{0001}B\rC", 3);

    assert_eq!(
        line1,
        format!("A{}B", ICON_SYS_UNSUPPORTED_CHAR_PLACEHOLDER)
    );
    assert_eq!(line2, format!("{}C", ICON_SYS_UNSUPPORTED_CHAR_PLACEHOLDER));
}

#[test]
fn split_icon_sys_title_uses_byte_based_breaks_for_multibyte_titles() {
    let title = "メモリーカード";
    let break_bytes = sjis::encode_sjis("メモリー").unwrap().len();

    let (line1, line2) = split_icon_sys_title(title, break_bytes);

    assert_eq!(line1, "メモリー");
    assert_eq!(line2, "カード");
}

#[test]
fn split_icon_sys_title_preserves_second_line_for_partial_multibyte_breaks() {
    let title = "メモリーカード";
    let break_bytes = sjis::encode_sjis("メモ").unwrap().len() + 1;

    let (line1, line2) = split_icon_sys_title(title, break_bytes);

    assert_eq!(line1, "メモ");
    assert_eq!(line2, "リーカード");
}

#[test]
fn split_with_zero_break_puts_everything_on_the_second_line() {
    let (line1, line2) = split_icon_sys_title("HELLO", 0);
    assert_eq!(line1, "");
    assert_eq!(line2, "HELLO");
}

#[test]
fn split_past_the_end_keeps_one_line() {
    let (line1, line2) = split_icon_sys_title("HELLO", 40);
    assert_eq!(line1, "HELLO");
    assert_eq!(line2, "");
}

#[test]
fn typed_titles_are_cleaned() {
    assert_eq!(sanitize_title_input("HELLO\tWORLD"), "HELLOWORLD");
    assert_eq!(sanitize_title_input("ABCDEFGHIJKLMNOPQRSTU"), "ABCDEFGHIJKLMNOP");
    assert_eq!(sanitize_title_input("メモリー"), "メモリー");
    assert_eq!(sanitize_title_input("A😀B"), "AB");
}
