use ps2_suitcase::title_cfg::{string_to_index_map, TitleCfg};

#[test]
fn string_to_index_map_skips_lines_without_delimiter() {
    let contents = "title=Example Game\ninvalid_line\ndeveloper=Example Dev";

    let map = string_to_index_map(contents.to_string());

    assert_eq!(map.get("title"), Some(&"Example Game".to_string()));
    assert_eq!(map.get("developer"), Some(&"Example Dev".to_string()));
    assert!(!map.contains_key("invalid_line"));
}

#[test]
fn title_cfg_handles_malformed_lines_gracefully() {
    let contents = "title=Another Game\njust_text\nboot=cdrom0:\\SLUS_123.45";

    let cfg = TitleCfg::new(contents.to_string());

    assert_eq!(
        cfg.index_map.get("title"),
        Some(&"Another Game".to_string())
    );
    assert_eq!(
        cfg.index_map.get("boot"),
        Some(&"cdrom0:\\SLUS_123.45".to_string())
    );
    assert!(!cfg.index_map.contains_key("just_text"));
}

#[test]
fn reports_missing_mandatory_fields() {
    let contents = "title=Example\nDeveloper=Someone";

    let cfg = TitleCfg::new(contents.to_string());
    let mut missing = cfg.missing_mandatory_fields();
    missing.sort();

    assert!(missing.contains(&"Description"));
    assert!(missing.contains(&"Release"));
    assert!(missing.contains(&"source"));
    assert!(!cfg.has_mandatory_fields());
}

#[test]
fn missing_fields_keep_mandatory_order() {
    let cfg = TitleCfg::new("title=Example\nDeveloper=Someone".to_string());
    assert_eq!(
        cfg.missing_mandatory_fields(),
        vec!["Description", "boot", "Release", "source", "Version"]
    );
}

#[test]
fn later_lines_replace_values_in_place() {
    let map = string_to_index_map("a=1\nb=2\na=3\n".to_string());
    let pairs: Vec<(String, String)> = map.iter().map(|(k, v)| (k.clone(), v.clone())).collect();
    assert_eq!(
        pairs,
        vec![
            ("a".to_string(), "3".to_string()),
            ("b".to_string(), "2".to_string())
        ]
    );
}

#[test]
fn values_keep_later_equals_signs_and_crlf_is_stripped() {
    let map = string_to_index_map("key=a=b\r\nother=\r\n".to_string());
    assert_eq!(map.get("key"), Some(&"a=b".to_string()));
    assert_eq!(map.get("other"), Some(&"".to_string()));
}

#[test]
fn rendering_and_reading_back_gives_the_same_pairs() {
    let mut cfg = TitleCfg::new("title=Game\nboot=mc0:/APP/BOOT.ELF\nVersion=1.0".to_string());
    let before: Vec<(String, String)> = cfg
        .index_map
        .iter()
        .map(|(k, v)| (k.clone(), v.clone()))
        .collect();
    cfg.sync_index_map_to_contents();
    assert_eq!(cfg.contents, "title=Game\nboot=mc0:/APP/BOOT.ELF\nVersion=1.0\n");
    cfg.sync_contents_to_index_map();
    let after: Vec<(String, String)> = cfg
        .index_map
        .iter()
        .map(|(k, v)| (k.clone(), v.clone()))
        .collect();
    assert_eq!(before, after);
}

#[test]
fn adding_missing_fields_completes_the_file() {
    let mut cfg = TitleCfg::new("title=Example\nDeveloper=Someone".to_string());
    cfg.add_missing_fields();
    assert!(cfg.has_mandatory_fields());
    assert_eq!(cfg.index_map.get("title"), Some(&"Example".to_string()));
    assert_eq!(cfg.index_map.get("Description"), Some(&"".to_string()));
    assert_eq!(
        cfg.to_string(),
        "title=Example\nDeveloper=Someone\nDescription=\nboot=\nRelease=\nsource=\nVersion=\n"
    );
}

#[test]
fn empty_text_has_no_pairs() {
    let cfg = TitleCfg::new(String::new());
    assert!(cfg.index_map.is_empty());
    assert_eq!(cfg.to_string(), "");
}
