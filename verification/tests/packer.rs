use ps2_suitcase::packer::{
    check_name, parse_flag_string, parse_named_flag, ColorConfig, Error, IconSysConfig,
    IconSysFlags,
};
use ps2_suitcase::icon_sys::parse_icon_sys;

fn config(title: &str) -> IconSysConfig {
    IconSysConfig {
        flags: IconSysFlags::new(0),
        title: title.to_string(),
        linebreak_pos: None,
        preset: None,
        background_transparency: None,
        background_colors: None,
        light_directions: None,
        light_colors: None,
        ambient_color: None,
    }
}

#[test]
fn icon_sys_linebreak_defaults_and_configured() {
    let line1 = "ABCDEFGHIJKLMNOP";
    let mut c = config("ABCDEFGHIJKLMNOPQRSTUVWXYZ012345");
    assert_eq!(c.linebreak_position(), 0);
    c.linebreak_pos = Some(line1.chars().count() as u16);
    assert_eq!(c.linebreak_position(), 16);
}

#[test]
fn names_are_checked_against_the_accepted_ranges() {
    assert!(check_name("My Save_1-2"));
    assert!(check_name(""));
    assert!(!check_name("bad/name"));
    assert!(check_name("ends with z"));
    assert!(check_name("NINE9"));
    assert!(check_name("ZZZ_OPL"));
    assert!(check_name("Zone 9"));
    assert!(check_name("lazy-save"));
    assert!(!check_name("tab\there"));
    assert!(!check_name("dot.name"));
}

#[test]
fn flags_parse_from_names_and_numbers() {
    assert_eq!(parse_named_flag("PS2 Save File"), Some(0));
    assert_eq!(parse_named_flag("Settings (PS2)"), Some(4));
    assert_eq!(parse_named_flag("system_driver"), Some(5));
    assert_eq!(parse_named_flag("nothing"), None);
    assert_eq!(parse_flag_string(" 0x10 "), Ok(16));
    assert_eq!(parse_flag_string("42"), Ok(42));
    assert_eq!(parse_flag_string("software"), Ok(1));
    assert_eq!(
        parse_flag_string("0xZZ"),
        Err("Invalid hexadecimal icon_sys flag: 0xZZ".to_string())
    );
    assert_eq!(
        parse_flag_string(" 70000 "),
        Err("Invalid icon_sys flag value: 70000".to_string())
    );
}

#[test]
fn icon_sys_config_builds_with_defaults() {
    let c = config("HELLO");
    let icon = c.build_icon_sys().expect("valid config");
    assert_eq!(icon.title, "HELLO");
    assert_eq!(icon.icon_file, "icon.icn");
    assert_eq!(icon.background_transparency, 0);
    let bytes = c.to_bytes().expect("bytes");
    assert_eq!(bytes.len(), 964);
    assert_eq!(&bytes[0..4], b"PS2D");
    let parsed = parse_icon_sys(&bytes).expect("parse");
    assert_eq!(parsed.title, "HELLO");
    assert_eq!(parsed.icon_copy_file, "icon.icn");
}

#[test]
fn icon_sys_config_rejects_wrong_list_lengths() {
    let mut c = config("HELLO");
    c.background_colors = Some(vec![ColorConfig { r: 1, g: 2, b: 3, a: 4 }]);
    match c.build_icon_sys() {
        Err(Error::ConfigError(m)) => {
            assert_eq!(m, "icon_sys.background_colors must contain exactly 4 entries")
        }
        _ => panic!("expected a configuration error"),
    }
}

#[test]
fn unencodable_titles_are_configuration_errors() {
    let c = config("𝄞");
    assert!(matches!(c.to_bytes(), Err(Error::ConfigError(_))));
}

#[test]
fn error_messages() {
    assert_eq!(Error::NameError.message(), "Name must match [a-zA-Z0-9._-\\s]+");
    assert_eq!(Error::ConfigError("bad".to_string()).message(), "bad");
}
