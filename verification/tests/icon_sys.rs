use ps2_suitcase::color::Color;
use ps2_suitcase::icon_sys::{parse_icon_sys, ColorF, IconSys, Vector};

fn sample() -> IconSys {
    IconSys {
        flags: 0,
        linebreak_pos: 6,
        background_transparency: 0,
        background_colors: [
            Color::new(255, 0, 0, 255),
            Color::new(0, 255, 0, 255),
            Color::new(0, 0, 255, 255),
            Color::new(128, 128, 128, 128),
        ],
        light_directions: [
            Vector { x: 0, y: 0, z: 0x3F80_0000, w: 0 },
            Vector { x: 0x3F00_0000, y: 0, z: 0, w: 0 },
            Vector { x: 0, y: 0xBF80_0000, z: 0, w: 0 },
        ],
        light_colors: [
            ColorF { r: 0x3F80_0000, g: 0, b: 0, a: 0x3F80_0000 },
            ColorF { r: 0, g: 0x3F80_0000, b: 0, a: 0x3F80_0000 },
            ColorF { r: 0, g: 0, b: 0x3F80_0000, a: 0x3F80_0000 },
        ],
        ambient_color: ColorF { r: 0x3E4C_CCCD, g: 0x3E4C_CCCD, b: 0x3E4C_CCCD, a: 0x3F80_0000 },
        title: "SAVE!&DATA".to_string(),
        icon_file: "icon.icn".to_string(),
        icon_copy_file: "copy.icn".to_string(),
        icon_delete_file: "del.icn".to_string(),
    }
}

#[test]
fn parses_and_roundtrips_icon_sys_background_colors() {
    let bytes = sample().to_bytes().expect("serialize");
    assert_eq!(bytes.len(), 964);
    let icon_sys = IconSys::new(bytes.clone());
    let expected = sample().background_colors;
    for (parsed, expected) in icon_sys.background_colors.iter().zip(expected.iter()) {
        assert_eq!(parsed.to_rgba(), expected.to_rgba());
    }
    assert_eq!(icon_sys.to_bytes().expect("serialize again"), bytes);
}

#[test]
fn icon_sys_roundtrips_shift_jis_title() {
    let mut icon_sys = sample();
    icon_sys.title = "SAVE!&テスト".to_string();
    icon_sys.linebreak_pos = "SAVE!&".chars().count() as u16;

    let serialized = icon_sys.to_bytes().expect("serialize icon.sys with Shift-JIS title");
    let reparsed = IconSys::new(serialized);

    assert_eq!(reparsed.title, "SAVE!&テスト");
    assert_eq!(reparsed.linebreak_pos, icon_sys.linebreak_pos);
}

#[test]
fn every_field_reads_back() {
    let bytes = sample().to_bytes().expect("serialize");
    let parsed = parse_icon_sys(&bytes).expect("parse");
    let expected = sample();
    assert_eq!(parsed.flags, expected.flags);
    assert_eq!(parsed.light_directions, expected.light_directions);
    assert_eq!(parsed.light_colors, expected.light_colors);
    assert_eq!(parsed.ambient_color, expected.ambient_color);
    assert_eq!(parsed.icon_file, "icon.icn");
    assert_eq!(parsed.icon_copy_file, "copy.icn");
    assert_eq!(parsed.icon_delete_file, "del.icn");
    assert_eq!(&bytes[0..4], b"PS2D");
}

#[test]
fn short_data_and_oversized_fields_fail() {
    assert!(parse_icon_sys(&[0u8; 451]).is_err());
    assert!(parse_icon_sys(&[0u8; 452]).is_ok());
    let mut long_title = sample();
    long_title.title = "X".repeat(69);
    assert!(long_title.to_bytes().is_err());
    let mut long_name = sample();
    long_name.icon_file = "n".repeat(65);
    assert!(long_name.to_bytes().is_err());
    let mut bad_title = sample();
    bad_title.title = "𝄞".to_string();
    assert!(bad_title.to_bytes().is_err());
}

#[test]
fn titles_are_normalised_on_reading() {
    let mut icon_sys = sample();
    // A full-width letter is stored as such and read back in its NFKC form.
    icon_sys.title = "Ａ".to_string();
    let parsed = IconSys::new(icon_sys.to_bytes().expect("serialize"));
    assert_eq!(parsed.title, "A");
}
