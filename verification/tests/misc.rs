use ps2_suitcase::mcd::MCD;
use ps2_suitcase::numparse::parse_u16_radix;
use ps2_suitcase::packer::IconSysFlags;
use ps2_suitcase::shortcut::{shortcut, Shortcut};
use ps2_suitcase::text::parse_cstring;

#[test]
fn shortcut_labels() {
    let s = shortcut('s').cmd_or_ctrl().shift();
    assert_eq!(s.to_label(false), "Shift Ctrl S");
    assert_eq!(s.to_label(true), "\u{2B06} \u{2318} S");
    assert_eq!(Shortcut::new('q').alt().to_label(false), "Alt Q");
    assert_eq!(Shortcut::new('1').to_label(false), "1");
}

#[test]
fn numbers_in_both_radixes() {
    let digits: Vec<char> = "65535".chars().collect();
    assert_eq!(parse_u16_radix(&digits, 10), Some(65535));
    let too_big: Vec<char> = "65536".chars().collect();
    assert_eq!(parse_u16_radix(&too_big, 10), None);
    let hex: Vec<char> = "fF".chars().collect();
    assert_eq!(parse_u16_radix(&hex, 16), Some(255));
    assert_eq!(parse_u16_radix(&[], 10), None);
}

#[test]
fn c_strings_stop_at_nul() {
    assert_eq!(parse_cstring(b"abc\0def"), "abc");
    assert_eq!(parse_cstring(b"abc"), "abc");
    assert_eq!(parse_cstring(&[0xFF, 0]), "\u{FFFD}");
}

#[test]
fn small_values() {
    assert_eq!(IconSysFlags::new(4).value(), 4);
    let _ = MCD::new();
}

#[test]
fn plain_and_command_shortcut_labels() {
    assert_eq!(Shortcut::new('o').to_label(false), "O");
    assert_eq!(shortcut('o').to_label(false), "O");
    assert_eq!(Shortcut::new('s').cmd_or_ctrl().to_label(false), "Ctrl S");
    assert_eq!(
        Shortcut::new('s').alt().shift().cmd_or_ctrl().to_label(false),
        "Alt Shift Ctrl S"
    );
    let s = Shortcut::new('s');
    assert_eq!(
        s.cmd_or_ctrl().shift().to_label(false),
        s.shift().cmd_or_ctrl().to_label(false)
    );
    assert_eq!(
        s.cmd_or_ctrl().cmd_or_ctrl().to_label(false),
        s.cmd_or_ctrl().to_label(false)
    );
}

#[test]
fn icon_sys_flags_convert_both_ways() {
    let flags = IconSysFlags::from(7u16);
    assert_eq!(flags.value(), 7);
    assert_eq!(u16::from(IconSysFlags::new(4)), 4);
    assert_eq!(u16::from(IconSysFlags::from(65535u16)), 65535);
}
