use ps2_suitcase::io_error::IoFailureKind;
use ps2_suitcase::color::Color;
use ps2_suitcase::icon_sys::{ColorF, IconSys, Vector};
use ps2_suitcase::packer::{Config, Error, ColorConfig, ColorFConfig, IconSysConfig, IconSysFlags, VectorConfig};
use ps2_suitcase::psu::{PSUEntry, PSUEntryKind, PsuTimestamp};
use ps2_suitcase::sjis;
use ps2_suitcase::project::{PackForm, 
    add_file_entry, current_strategy_title, default_output_file_name, effective_psu_file_base_name,
    excluded_files_for_config, folder_name, include_requires_file, included_files_for_config,
    missing_required_project_files, selected_icon_flag_value, uses_timestamp_rules_file,
    IconFlagSelection, ListKind, MissingFileReason, MissingRequiredFile, ProjectProbe, SasPrefix,
    TextFileEditor, TimestampStrategy, TIMESTAMP_RULES_FILE, summarize_psu_entries,
    apply_title_cfg_edits, error_text, flag_selection_for, format_missing_required_files_message,
    format_pack_error, icon_flag_label, missing_include_files, recommended_timestamp_strategy,
    remove_selected_entry, export_action, export_root_name, ExportAction, format_load_error,
    drop_missing_psu_toml, find_icon_sys_entry, add_entry_failure_message,
    add_files_failure_message, update_output_if_matches_default, PackQueue,
    determine_update_destination, determine_export_source_path, missing_update_destination_message,
    missing_export_source_message, load_io_message,
};

#[test]
fn manual_filter_entries_allowed_without_folder() {
    let mut include_files: Vec<String> = Vec::new();
    let mut exclude_files: Vec<String> = Vec::new();

    assert!(add_file_entry(&mut include_files, "BOOT.ELF").is_ok());
    assert!(add_file_entry(&mut exclude_files, "THUMBS.DB").is_ok());

    assert_eq!(
        included_files_for_config(&include_files),
        Some(vec!["BOOT.ELF".to_string()])
    );
    assert_eq!(
        excluded_files_for_config(&exclude_files),
        vec!["THUMBS.DB".to_string(), "psu.toml".to_string()]
    );
}

#[test]
fn manual_filter_entries_trim_and_reject_duplicates() {
    let mut include_files: Vec<String> = Vec::new();

    assert_eq!(add_file_entry(&mut include_files, "  DATA.BIN  "), Ok(0));
    assert_eq!(include_files, vec!["DATA.BIN"]);

    let err = add_file_entry(&mut include_files, "DATA.BIN");
    assert_eq!(err, Err("DATA.BIN (already listed)".to_string()));
    assert_eq!(include_files, vec!["DATA.BIN"]);
}

#[test]
fn config_from_state_appends_psu_toml_once() {
    let mut app = PackForm::default();
    app.folder_base_name = "SAVE".to_string();
    app.selected_prefix = SasPrefix::App;

    let config = app.config_from_state().expect("configuration should build");
    assert_eq!(config.exclude, Some(vec!["psu.toml".to_string()]));
    assert!(
        app.exclude_files.is_empty(),
        "building the configuration should not modify the exclude list"
    );

    app.exclude_files = vec!["DATA.BIN".to_string()];
    let config_with_manual_entry = app
        .config_from_state()
        .expect("configuration should include manual exclude");
    assert_eq!(
        config_with_manual_entry.exclude,
        Some(vec!["DATA.BIN".to_string(), "psu.toml".to_string()])
    );

    app.exclude_files = vec!["psu.toml".to_string()];
    let config_with_duplicate = app
        .config_from_state()
        .expect("configuration should handle duplicate entries");
    assert_eq!(
        config_with_duplicate.exclude,
        Some(vec!["psu.toml".to_string()])
    );
}

#[test]
fn config_from_state_uses_shift_jis_byte_linebreaks() {
    let mut app = PackForm::default();
    app.selected_prefix = SasPrefix::App;
    app.folder_base_name = "SAVE".to_string();
    app.icon_sys_enabled = true;
    app.icon_sys_use_existing = false;
    app.icon_sys_title_line1 = "メモ".to_string();
    app.icon_sys_title_line2 = "リーカード".to_string();

    let config = app.config_from_state().expect("configuration should build");
    let icon_sys = config.icon_sys.expect("icon_sys configuration present");
    let expected_break = sjis::encode_sjis(&app.icon_sys_title_line1).unwrap().len() as u16;

    assert_eq!(icon_sys.linebreak_pos, Some(expected_break));
}

#[test]
fn build_config_uses_loaded_psu_edits() {
    let mut app = PackForm::default();
    app.selected_prefix = SasPrefix::Emu;
    app.folder_base_name = "SAVE".to_string();
    let timestamp = PsuTimestamp::new(2023, 10, 14, 12, 34, 56);
    app.timestamp = Some(timestamp);
    app.include_files.push("FILE.BIN".to_string());
    app.exclude_files.push("SKIP.DAT".to_string());

    let config = app.build_config().expect("config builds successfully");
    assert_eq!(config.name, "EMU_SAVE");
    assert_eq!(config.timestamp, Some(timestamp));
    assert_eq!(config.inclusions, Some(vec!["FILE.BIN".to_string()]));
    assert_eq!(
        config.exclude,
        Some(vec!["SKIP.DAT".to_string(), "psu.toml".to_string()])
    );
    assert!(config.icon_sys.is_none());
}

#[test]
fn icon_sys_settings_are_checked() {
    let mut app = PackForm::default();
    app.folder_base_name = "SAVE".to_string();
    app.icon_sys_enabled = true;
    app.icon_sys_title_line1 = "ABCDEFGHIJKLMNOPQ".to_string();
    assert_eq!(
        app.build_config().err(),
        Some("Icon.sys line 1 cannot exceed 16 characters".to_string())
    );
    app.icon_sys_title_line1 = "  ".to_string();
    assert_eq!(
        app.build_config().err(),
        Some("Provide at least one non-space character for the icon.sys title".to_string())
    );
    app.icon_sys_title_line1 = "A\u{1}".to_string();
    assert_eq!(
        app.build_config().err(),
        Some("Icon.sys titles must contain characters representable in Shift-JIS".to_string())
    );
    app.icon_sys_title_line1 = "HELLO".to_string();
    app.icon_sys_flag_selection = IconFlagSelection::Preset(7);
    assert_eq!(
        app.build_config().err(),
        Some("Invalid icon.sys flag selection".to_string())
    );
    app.icon_sys_flag_selection = IconFlagSelection::Preset(1);
    let config = app.build_config().expect("valid");
    let icon = config.icon_sys.expect("icon.sys");
    assert_eq!(icon.flags.value(), 1);
    assert_eq!(icon.title, "HELLO");
    assert_eq!(icon.linebreak_pos, Some(5));
    app.folder_base_name = "   ".to_string();
    assert_eq!(app.build_config().err(), Some("PSU name cannot be empty".to_string()));
}

#[test]
fn blank_entries_are_rejected() {
    let mut files: Vec<String> = Vec::new();
    assert_eq!(
        add_file_entry(&mut files, "   "),
        Err("File name cannot be empty".to_string())
    );
    assert!(files.is_empty());
    assert_eq!(included_files_for_config(&files), None);
}

#[test]
fn list_headings() {
    assert_eq!(ListKind::Include.label(), "Include files");
    assert_eq!(ListKind::Exclude.label(), "Exclude files");
}

#[test]
fn prefixes_split_off_names() {
    assert_eq!(
        SasPrefix::split_from_name("APP_OSDXMB"),
        (SasPrefix::App, "OSDXMB".to_string())
    );
    assert_eq!(
        SasPrefix::split_from_name("APPSTORE"),
        (SasPrefix::Apps, "TORE".to_string())
    );
    assert_eq!(
        SasPrefix::split_from_name("MYSAVE"),
        (SasPrefix::NoPrefix, "MYSAVE".to_string())
    );
    assert_eq!(SasPrefix::NoPrefix.label(), "(none)");
    assert_eq!(SasPrefix::Zzz.label(), "ZZZ_");
    assert_eq!(SasPrefix::default(), SasPrefix::App);
    let all = SasPrefix::iter_all();
    assert_eq!(all.len(), 13);
    assert_eq!(all[0], SasPrefix::NoPrefix);
    assert_eq!(all[1], SasPrefix::App);
}

#[test]
fn output_names_use_prefix_and_trimmed_base() {
    assert_eq!(folder_name(SasPrefix::App, "SAVE"), "APP_SAVE");
    assert_eq!(
        effective_psu_file_base_name("  ", " Folder "),
        Some("Folder".to_string())
    );
    assert_eq!(effective_psu_file_base_name(" File ", "Folder"), Some("File".to_string()));
    assert_eq!(effective_psu_file_base_name("", ""), None);
    assert_eq!(
        default_output_file_name(SasPrefix::Sys, "", "BOOT"),
        Some("SYS_BOOT.psu".to_string())
    );
    assert_eq!(default_output_file_name(SasPrefix::NoPrefix, " ", " "), None);
}

#[test]
fn flag_selection() {
    assert_eq!(selected_icon_flag_value(IconFlagSelection::Preset(2), 9), Ok(4));
    assert_eq!(selected_icon_flag_value(IconFlagSelection::Custom, 9), Ok(9));
    assert_eq!(
        selected_icon_flag_value(IconFlagSelection::Preset(3), 9),
        Err("Invalid icon.sys flag selection".to_string())
    );
}

#[test]
fn strategy_titles() {
    assert_eq!(current_strategy_title(TimestampStrategy::default()), "No timestamp");
    assert_eq!(current_strategy_title(TimestampStrategy::SasRules), "SAS rules timestamp");
    assert!(uses_timestamp_rules_file(TimestampStrategy::SasRules, false, true));
    assert!(!uses_timestamp_rules_file(TimestampStrategy::Manual, true, true));
}

#[test]
fn missing_project_files_are_listed_with_reasons() {
    let probe = ProjectProbe {
        required_present: vec![true, false, true, false],
        boot_elf_present: false,
        timestamp_rules_present: false,
    };
    let listed = vec!["boot.elf".to_string()];
    assert!(include_requires_file(&listed, "BOOT.ELF"));
    let missing = missing_required_project_files(
        &probe,
        &listed,
        TimestampStrategy::SasRules,
        true,
        false,
    );
    let names: Vec<&str> = missing.iter().map(|m| m.name.as_str()).collect();
    assert_eq!(names, vec!["icon.sys", "title.cfg", "BOOT.ELF", TIMESTAMP_RULES_FILE]);
    assert_eq!(missing[0].reason, MissingFileReason::AlwaysRequired);
    assert_eq!(missing[2].reason, MissingFileReason::ExplicitlyIncluded);
    assert_eq!(missing[3].reason, MissingFileReason::TimestampAutomation);
    assert_eq!(missing[2].reason.detail(), Some("listed in Include files"));
    assert_eq!(MissingRequiredFile::always("x").reason.detail(), None);
}

#[test]
fn text_editor_states() {
    let mut editor = TextFileEditor::default();
    editor.modified = true;
    editor.set_content("abc".to_string());
    assert_eq!(editor.content, "abc");
    assert!(!editor.modified);
    editor.set_error_message("broken".to_string());
    assert_eq!(editor.content, "");
    assert_eq!(editor.load_error, Some("broken".to_string()));
    editor.clear();
    assert_eq!(editor.load_error, None);
}

fn to_color(c: ColorConfig) -> Color {
    Color { r: c.r, g: c.g, b: c.b, a: c.a }
}

fn to_color_f(c: ColorFConfig) -> ColorF {
    ColorF { r: c.r, g: c.g, b: c.b, a: c.a }
}

fn to_vector(v: VectorConfig) -> Vector {
    Vector { x: v.x, y: v.y, z: v.z, w: v.w }
}

#[test]
fn apply_icon_sys_file_preserves_multibyte_characters() {
    let mut app = PackForm::default();
    let title = "メモリーカード";

    let icon_sys = IconSys {
        flags: 4,
        linebreak_pos: sjis::encode_sjis("メモリー").unwrap().len() as u16,
        background_transparency: IconSysConfig::default_background_transparency(),
        background_colors: IconSysConfig::default_background_colors().map(to_color),
        light_directions: IconSysConfig::default_light_directions().map(to_vector),
        light_colors: IconSysConfig::default_light_colors().map(to_color_f),
        ambient_color: to_color_f(IconSysConfig::default_ambient_color()),
        title: title.to_string(),
        icon_file: "icon.icn".to_string(),
        icon_copy_file: "icon.icn".to_string(),
        icon_delete_file: "icon.icn".to_string(),
    };

    app.apply_icon_sys_file(&icon_sys);

    assert_eq!(app.icon_sys_title_line1, "メモリー");
    assert_eq!(app.icon_sys_title_line2, "カード");
}

#[test]
fn apply_icon_sys_config_preserves_multibyte_characters() {
    let mut app = PackForm::default();
    let title = "メモリーカード";

    let icon_cfg = IconSysConfig {
        flags: IconSysFlags::new(1),
        title: title.to_string(),
        linebreak_pos: Some(sjis::encode_sjis("メモリー").unwrap().len() as u16),
        preset: None,
        background_transparency: None,
        background_colors: None,
        light_directions: None,
        light_colors: None,
        ambient_color: None,
    };

    app.apply_icon_sys_config(icon_cfg, None);

    assert_eq!(app.icon_sys_title_line1, "メモリー");
    assert_eq!(app.icon_sys_title_line2, "カード");
}

#[test]
fn apply_icon_sys_file_fills_settings_and_keeps_the_file() {
    let mut app = PackForm::default();
    app.folder_base_name = "SAVE".to_string();
    let icon_sys = IconSys {
        flags: 7,
        linebreak_pos: 5,
        background_transparency: 64,
        background_colors: [Color { r: 1, g: 2, b: 3, a: 4 }; 4],
        light_directions: [Vector { x: 1, y: 2, z: 3, w: 4 }; 3],
        light_colors: [ColorF { r: 5, g: 6, b: 7, a: 8 }; 3],
        ambient_color: ColorF { r: 9, g: 10, b: 11, a: 12 },
        title: "HELLOWORLD".to_string(),
        icon_file: "icon.icn".to_string(),
        icon_copy_file: "copy.icn".to_string(),
        icon_delete_file: "del.icn".to_string(),
    };
    app.apply_icon_sys_file(&icon_sys);
    assert!(app.icon_sys_enabled);
    assert!(app.icon_sys_use_existing);
    assert_eq!(app.icon_sys_existing.as_ref().map(|s| s.icon_copy_file.clone()), Some("copy.icn".to_string()));
    assert_eq!(app.icon_sys_custom_flag, 7);
    assert_eq!(app.icon_sys_flag_selection, IconFlagSelection::Custom);
    assert_eq!(app.icon_sys_title_line1, "HELLO");
    assert_eq!(app.icon_sys_title_line2, "WORLD");
    assert_eq!(app.icon_sys_background_transparency, 64);
    assert_eq!(app.icon_sys_background_colors[3], ColorConfig { r: 1, g: 2, b: 3, a: 4 });
    assert_eq!(app.icon_sys_light_directions[2], VectorConfig { x: 1, y: 2, z: 3, w: 4 });
    assert_eq!(app.icon_sys_light_colors[0], ColorFConfig { r: 5, g: 6, b: 7, a: 8 });
    assert_eq!(app.icon_sys_ambient_color, ColorFConfig { r: 9, g: 10, b: 11, a: 12 });
    assert_eq!(app.folder_base_name, "SAVE");

    app.reset_icon_sys_fields();
    assert!(!app.icon_sys_enabled);
    assert!(app.icon_sys_existing.is_none());
    assert_eq!(app.icon_sys_flag_selection, IconFlagSelection::Preset(0));
    assert_eq!(app.icon_sys_background_colors, IconSysConfig::default_background_colors());
    assert_eq!(app.folder_base_name, "SAVE");
}

#[test]
fn apply_icon_sys_config_takes_fallbacks_from_an_icon_sys() {
    let mut app = PackForm::default();
    let fallback = IconSys {
        flags: 0,
        linebreak_pos: 0,
        background_transparency: 9,
        background_colors: [Color { r: 1, g: 1, b: 1, a: 1 }; 4],
        light_directions: [Vector { x: 2, y: 2, z: 2, w: 2 }; 3],
        light_colors: [ColorF { r: 3, g: 3, b: 3, a: 3 }; 3],
        ambient_color: ColorF { r: 4, g: 4, b: 4, a: 4 },
        title: String::new(),
        icon_file: String::new(),
        icon_copy_file: String::new(),
        icon_delete_file: String::new(),
    };
    let icon_cfg = IconSysConfig {
        flags: IconSysFlags::new(4),
        title: "AB".to_string(),
        linebreak_pos: None,
        preset: Some("warm".to_string()),
        background_transparency: None,
        background_colors: Some(vec![ColorConfig { r: 200, g: 0, b: 0, a: 0 }]),
        light_directions: None,
        light_colors: None,
        ambient_color: None,
    };
    app.apply_icon_sys_config(icon_cfg, Some(&fallback));
    assert!(app.icon_sys_enabled);
    assert!(!app.icon_sys_use_existing);
    assert_eq!(app.icon_sys_flag_selection, IconFlagSelection::Preset(2));
    assert_eq!(app.icon_sys_title_line1, "");
    assert_eq!(app.icon_sys_title_line2, "AB");
    assert_eq!(app.icon_sys_background_transparency, 9);
    assert_eq!(app.icon_sys_background_colors[0], ColorConfig { r: 200, g: 0, b: 0, a: 0 });
    assert_eq!(app.icon_sys_background_colors[1], ColorConfig { r: 0, g: 0, b: 0, a: 0 });
    assert_eq!(app.icon_sys_light_directions[1], VectorConfig { x: 2, y: 2, z: 2, w: 2 });
    assert_eq!(app.icon_sys_light_colors[2], ColorFConfig { r: 3, g: 3, b: 3, a: 3 });
    assert_eq!(app.icon_sys_ambient_color, ColorFConfig { r: 4, g: 4, b: 4, a: 4 });
    assert_eq!(app.icon_sys_selected_preset, Some("warm".to_string()));
}

#[test]
fn folder_and_file_names_split_their_prefix() {
    let mut app = PackForm::default();
    app.set_folder_name_from_full("GME_TETRIS");
    assert_eq!(app.selected_prefix, SasPrefix::Gme);
    assert_eq!(app.folder_base_name, "TETRIS");

    app.set_psu_file_base_from_full("GME_TETRIS2");
    assert_eq!(app.psu_file_base_name, "TETRIS2");
    app.set_psu_file_base_from_full("APP_OTHER");
    assert_eq!(app.psu_file_base_name, "APP_OTHER");
    app.set_psu_file_base_from_full("PLAIN");
    assert_eq!(app.psu_file_base_name, "PLAIN");

    app.set_folder_name_from_full("NOPREFIX");
    assert_eq!(app.selected_prefix, SasPrefix::NoPrefix);
    assert_eq!(app.folder_base_name, "NOPREFIX");
}

fn entry(name: &str, kind: PSUEntryKind, contents: Option<Vec<u8>>, year: i32) -> PSUEntry {
    let ts = PsuTimestamp { year, month0: 0, day: 1, hour: 0, minute: 0, second: 0 };
    PSUEntry {
        id: 0,
        size: 0,
        created: ts,
        sector: 0,
        modified: ts,
        name: name.to_string(),
        kind,
        contents,
    }
}

#[test]
fn summarize_psu_entries_finds_root_files_and_config() {
    let entries = vec![
        entry("APP_DEMO", PSUEntryKind::Directory, None, 2020),
        entry(".", PSUEntryKind::Directory, None, 2001),
        entry("..", PSUEntryKind::Directory, None, 2002),
        entry("BOOT.ELF", PSUEntryKind::File, Some(vec![1, 2]), 2003),
        entry("PSU.TOML", PSUEntryKind::File, Some(b"name = 'x'".to_vec()), 2004),
        entry("icon.sys", PSUEntryKind::File, Some(vec![9]), 2005),
        entry("title.cfg", PSUEntryKind::File, Some(vec![7]), 2006),
    ];
    let loaded = summarize_psu_entries(&entries).expect("a folder entry");
    assert_eq!(loaded.root_name, "APP_DEMO");
    assert_eq!(loaded.root_timestamp.year, 2020);
    assert_eq!(loaded.files, vec!["BOOT.ELF", "PSU.TOML", "icon.sys", "title.cfg"]);
    assert_eq!(loaded.psu_toml, Some(b"name = 'x'".to_vec()));
    assert_eq!(loaded.icon_sys, Some(vec![9]));
    assert_eq!(loaded.title_cfg, Some(vec![7]));
}

#[test]
fn summarize_psu_entries_without_folder_is_none() {
    let entries = vec![
        entry(".", PSUEntryKind::Directory, None, 2001),
        entry("DATA", PSUEntryKind::File, Some(vec![1]), 2003),
    ];
    assert!(summarize_psu_entries(&entries).is_none());
}

fn ts(year: i32, month0: u32, day: u32, hour: u32, minute: u32, second: u32) -> PsuTimestamp {
    PsuTimestamp { year, month0, day, hour, minute, second }
}

#[test]
fn metadata_inputs_fill_missing_psu_filename() {
    let mut app = PackForm::default();
    app.folder_base_name = "SAVE".to_string();
    app.psu_file_base_name.clear();
    let previous_default = default_output_file_name(
        app.selected_prefix,
        &app.psu_file_base_name,
        &app.folder_base_name,
    );

    app.metadata_inputs_changed(None);

    assert_eq!(app.psu_file_base_name, "SAVE");
    let output = default_output_file_name(
        app.selected_prefix,
        &app.psu_file_base_name,
        &app.folder_base_name,
    )
    .expect("a default output name");
    let path = format!("/project/{output}");
    let output = update_output_if_matches_default("", previous_default.as_deref(), Some(&path));
    assert!(output.ends_with("APP_SAVE.psu"));
}

#[test]
fn timestamp_strategies_pick_their_timestamp() {
    let source = ts(2024, 0, 2, 3, 4, 5);
    let planned = ts(2009, 11, 31, 23, 59, 58);
    let mut app = PackForm::default();
    app.source_timestamp = Some(source);

    assert!(app.set_timestamp_strategy(TimestampStrategy::InheritSource, Some(planned)));
    assert_eq!(app.timestamp, Some(source));
    assert!(!app.timestamp_from_rules);

    assert!(app.set_timestamp_strategy(TimestampStrategy::SasRules, Some(planned)));
    assert_eq!(app.timestamp, Some(planned));
    assert!(app.timestamp_from_rules);

    // Choosing the strategy it already has changes nothing.
    assert!(!app.set_timestamp_strategy(TimestampStrategy::SasRules, None));
    assert_eq!(app.timestamp, Some(planned));

    // The manual strategy starts from the source's timestamp.
    assert!(app.set_timestamp_strategy(TimestampStrategy::Manual, Some(planned)));
    assert_eq!(app.manual_timestamp, Some(source));
    assert_eq!(app.timestamp, Some(source));

    assert!(app.set_timestamp_strategy(TimestampStrategy::NoTimestamp, Some(planned)));
    assert_eq!(app.timestamp, None);
    assert!(!app.timestamp_from_rules);

    // Refreshing again changes nothing.
    assert!(!app.refresh_timestamp_from_strategy(Some(planned)));
}

#[test]
fn source_update_and_default_strategy_follow_the_recommendation() {
    let planned = ts(2010, 5, 1, 0, 0, 2);
    let mut app = PackForm::default();
    assert!(app.sync_timestamp_after_source_update(Some(planned)));
    assert_eq!(app.timestamp_strategy, TimestampStrategy::SasRules);
    assert_eq!(app.timestamp, Some(planned));

    let mut other = PackForm::default();
    assert!(!other.sync_timestamp_after_source_update(None));
    assert_eq!(other.timestamp_strategy, TimestampStrategy::NoTimestamp);

    assert!(!other.ensure_timestamp_strategy_default(None));
    assert_eq!(other.timestamp_strategy, TimestampStrategy::Manual);
    assert_eq!(other.timestamp, None);

    assert_eq!(
        recommended_timestamp_strategy(Some(planned), None),
        Some(TimestampStrategy::InheritSource)
    );
    assert_eq!(
        recommended_timestamp_strategy(None, Some(planned)),
        Some(TimestampStrategy::SasRules)
    );
    assert_eq!(recommended_timestamp_strategy(None, None), Some(TimestampStrategy::Manual));
}

#[test]
fn reset_metadata_fields_clears_the_form() {
    let mut app = PackForm::default();
    app.folder_base_name = "GAME".to_string();
    app.selected_prefix = SasPrefix::Gme;
    app.include_files = vec!["A".to_string()];
    app.source_timestamp = Some(ts(2001, 0, 1, 0, 0, 0));
    app.set_timestamp_strategy(TimestampStrategy::InheritSource, None);
    app.icon_sys_enabled = true;

    app.reset_metadata_fields();

    assert_eq!(app.selected_prefix, SasPrefix::App);
    assert!(app.folder_base_name.is_empty());
    assert!(app.include_files.is_empty());
    assert_eq!(app.timestamp, None);
    assert_eq!(app.source_timestamp, None);
    assert_eq!(app.timestamp_strategy, TimestampStrategy::NoTimestamp);
    assert!(!app.icon_sys_enabled);
}

#[test]
fn missing_required_files_message_lists_each_file() {
    let missing = vec![
        MissingRequiredFile::always("BOOT.ELF"),
        MissingRequiredFile::included("DATA.BIN"),
        MissingRequiredFile::timestamp_rules(),
    ];
    assert_eq!(
        format_missing_required_files_message(&missing),
        "The selected folder is missing files needed to pack the PSU:\n\
         • BOOT.ELF\n\
         • DATA.BIN (listed in Include files)\n\
         • timestamp_rules.json (needed for SAS timestamp automation)"
    );
}

#[test]
fn error_text_appends_failed_files() {
    assert_eq!(error_text("Oops", &Vec::new()), "Oops");
    assert_eq!(
        error_text("Could not add", &vec!["A (already listed)".to_string(), "B".to_string()]),
        "Could not add Failed files: A (already listed), B"
    );
    assert_eq!(error_text("", &vec!["B".to_string()]), "Failed files: B");
}

#[test]
fn icon_flag_labels() {
    assert_eq!(icon_flag_label(IconFlagSelection::Preset(0), 0), "Save Data");
    assert_eq!(icon_flag_label(IconFlagSelection::Preset(2), 0), "Settings");
    assert_eq!(icon_flag_label(IconFlagSelection::Preset(12), 0), "Preset 12");
    assert_eq!(icon_flag_label(IconFlagSelection::Custom, 0x2AF), "Custom (0x02AF)");
    assert_eq!(flag_selection_for(1), IconFlagSelection::Preset(1));
    assert_eq!(flag_selection_for(4), IconFlagSelection::Preset(2));
    assert_eq!(flag_selection_for(5), IconFlagSelection::Custom);
}

#[test]
fn removing_the_selected_entry_moves_the_selection() {
    let mut files = vec!["A".to_string(), "B".to_string(), "C".to_string()];
    let mut selected = Some(2);
    assert!(remove_selected_entry(&mut files, &mut selected));
    assert_eq!(files, vec!["A", "B"]);
    assert_eq!(selected, Some(1));

    selected = Some(0);
    assert!(remove_selected_entry(&mut files, &mut selected));
    assert_eq!(files, vec!["B"]);
    assert_eq!(selected, Some(0));

    assert!(remove_selected_entry(&mut files, &mut selected));
    assert!(files.is_empty());
    assert_eq!(selected, None);

    assert!(!remove_selected_entry(&mut files, &mut selected));
}

#[test]
fn apply_title_cfg_reports_missing_fields() {
    let result = apply_title_cfg_edits("title=Example");
    assert!(result.as_ref().is_err_and(|message| message.contains("missing mandatory")));
}

#[test]
fn apply_title_cfg_validates_contents() {
    let content = "title=Example\nDescription=Demo\nboot=BOOT.ELF\nRelease=2024\n\
                   Developer=Someone\nsource=https://example.com\nVersion=1.0\n";
    assert_eq!(apply_title_cfg_edits(content), Ok("Validated title.cfg contents.".to_string()));
}

#[test]
fn pack_error_messages() {
    assert_eq!(
        format_pack_error(&Error::NameError, "/tmp/x", &Vec::new(), None),
        "PSU name can only contain letters, numbers, spaces, underscores, and hyphens."
    );
    assert_eq!(
        format_pack_error(&Error::ConfigError("bad".to_string()), "/tmp/x", &Vec::new(), None),
        "Configuration error: bad"
    );
    let not_found = std::io::Error::new(std::io::ErrorKind::NotFound, "gone");
    assert_eq!(
        format_pack_error(
            &Error::IOError(not_found),
            "/tmp/x",
            &vec!["A.BIN".to_string(), "B.BIN".to_string()],
            None
        ),
        "The following files referenced in the configuration are missing from /tmp/x:\n• A.BIN\n• B.BIN"
    );
    let not_found = std::io::Error::new(std::io::ErrorKind::NotFound, "gone");
    assert_eq!(
        format_pack_error(&Error::IOError(not_found), "/tmp/x", &Vec::new(), Some("/out")),
        "Cannot write the PSU file because the destination folder /out does not exist."
    );
    let not_found = std::io::Error::new(std::io::ErrorKind::NotFound, "gone");
    assert_eq!(
        format_pack_error(&Error::IOError(not_found), "/tmp/x", &Vec::new(), None),
        "A required file or folder could not be found: gone"
    );
    let denied = std::io::Error::new(std::io::ErrorKind::PermissionDenied, "no");
    assert_eq!(
        format_pack_error(&Error::IOError(denied), "/tmp/x", &Vec::new(), None),
        "Permission denied while accessing the file system: no"
    );
    let other = std::io::Error::new(std::io::ErrorKind::Other, "odd");
    assert_eq!(
        format_pack_error(&Error::IOError(other), "/tmp/x", &Vec::new(), None),
        "File system error: odd"
    );
    assert_eq!(
        missing_include_files(
            &vec!["A".to_string(), "B".to_string(), "C".to_string()],
            &vec![true, false, false]
        ),
        vec!["B".to_string(), "C".to_string()]
    );
}

fn icon_table(flags: u16, title: &str, linebreak_pos: Option<u16>) -> IconSysConfig {
    IconSysConfig {
        flags: IconSysFlags::new(flags),
        title: title.to_string(),
        linebreak_pos,
        preset: None,
        background_transparency: None,
        background_colors: None,
        light_directions: None,
        light_colors: None,
        ambient_color: None,
    }
}

#[test]
fn apply_psu_toml_updates_state_without_disk() {
    let mut app = PackForm::default();
    let timestamp = ts(2023, 4, 17, 8, 30, 0);
    let config = Config {
        name: "APP_Custom Save".to_string(),
        timestamp: Some(timestamp),
        inclusions: Some(vec!["BOOT.ELF".to_string(), "DATA.BIN".to_string()]),
        exclude: Some(vec!["IGNORE.DAT".to_string()]),
        icon_sys: Some(icon_table(1, "HELLOWORLD", Some(5))),
    };

    app.apply_psu_toml_config(config, None);

    assert_eq!(app.selected_prefix, SasPrefix::App);
    assert_eq!(app.folder_base_name, "Custom Save");
    assert_eq!(app.psu_file_base_name, "Custom Save");
    assert_eq!(app.include_files, vec!["BOOT.ELF", "DATA.BIN"]);
    assert_eq!(app.exclude_files, vec!["IGNORE.DAT"]);
    assert_eq!(app.timestamp, Some(timestamp));
    assert_eq!(app.timestamp_strategy, TimestampStrategy::Manual);
    assert!(app.icon_sys_enabled);
    assert!(matches!(app.icon_sys_flag_selection, IconFlagSelection::Preset(1)));
    assert_eq!(app.icon_sys_custom_flag, 1);
    assert_eq!(app.icon_sys_title_line1, "HELLO");
    assert_eq!(app.icon_sys_title_line2, "WORLD");
}

#[test]
fn psu_toml_without_timestamp_falls_back_to_planned_one() {
    let mut app = PackForm::default();
    let planned = ts(2009, 0, 1, 0, 0, 2);
    let config = Config {
        name: "NOPREFIX".to_string(),
        timestamp: None,
        inclusions: None,
        exclude: None,
        icon_sys: None,
    };
    app.apply_psu_toml_config(config, Some(planned));
    assert_eq!(app.selected_prefix, SasPrefix::NoPrefix);
    assert_eq!(app.folder_base_name, "NOPREFIX");
    assert_eq!(app.timestamp_strategy, TimestampStrategy::SasRules);
    assert_eq!(app.timestamp, Some(planned));
    assert!(app.timestamp_from_rules);
    assert!(app.include_files.is_empty());
    assert!(!app.icon_sys_enabled);
}

#[test]
fn loaded_project_config_fills_the_form() {
    let mut app = PackForm::default();
    let source = ts(2020, 1, 2, 3, 4, 6);
    let icon_sys = IconSys {
        flags: 0,
        linebreak_pos: 2,
        background_transparency: 1,
        background_colors: [Color { r: 1, g: 1, b: 1, a: 1 }; 4],
        light_directions: [Vector { x: 2, y: 2, z: 2, w: 2 }; 3],
        light_colors: [ColorF { r: 3, g: 3, b: 3, a: 3 }; 3],
        ambient_color: ColorF { r: 4, g: 4, b: 4, a: 4 },
        title: "ABCD".to_string(),
        icon_file: "icon.icn".to_string(),
        icon_copy_file: "icon.icn".to_string(),
        icon_delete_file: "icon.icn".to_string(),
    };
    let config = Config {
        name: "GME_PUZZLE".to_string(),
        timestamp: Some(source),
        inclusions: Some(vec!["PUZZLE.ELF".to_string()]),
        exclude: None,
        icon_sys: None,
    };
    app.apply_loaded_config(config, Some(icon_sys.clone()));
    assert_eq!(app.selected_prefix, SasPrefix::Gme);
    assert_eq!(app.folder_base_name, "PUZZLE");
    assert_eq!(app.psu_file_base_name, "PUZZLE");
    assert_eq!(app.source_timestamp, Some(source));
    assert_eq!(app.include_files, vec!["PUZZLE.ELF"]);
    assert!(app.exclude_files.is_empty());
    assert!(app.icon_sys_use_existing);
    assert_eq!(app.icon_sys_title_line1, "AB");
    assert_eq!(app.icon_sys_title_line2, "CD");
    assert!(app.icon_sys_existing.is_some());

    // A table in the configuration wins over the file, which is still kept.
    let config = Config {
        name: "GME_PUZZLE".to_string(),
        timestamp: None,
        inclusions: None,
        exclude: None,
        icon_sys: Some(icon_table(4, "XY", None)),
    };
    app.apply_loaded_config(config, Some(icon_sys));
    assert!(!app.icon_sys_use_existing);
    assert_eq!(app.icon_sys_flag_selection, IconFlagSelection::Preset(2));
    assert_eq!(app.icon_sys_title_line2, "XY");
    assert_eq!(app.icon_sys_background_transparency, 1);
    assert!(app.icon_sys_existing.is_some());
}

#[test]
fn export_plans_follow_the_entries() {
    let entries = vec![
        entry(".", PSUEntryKind::Directory, None, 2001),
        entry("APP_DEMO", PSUEntryKind::Directory, None, 2020),
        entry("BOOT.ELF", PSUEntryKind::File, Some(vec![1]), 2003),
    ];
    let root = export_root_name(&entries, "demo.psu").expect("root");
    assert_eq!(root, "APP_DEMO");
    assert_eq!(export_action(&entries[0], &root), Ok(ExportAction::Skip));
    assert_eq!(export_action(&entries[1], &root), Ok(ExportAction::CreateRoot));
    assert_eq!(
        export_action(&entries[2], &root),
        Ok(ExportAction::WriteFile("BOOT.ELF".to_string()))
    );
    let sub = entry("DATA", PSUEntryKind::Directory, None, 2004);
    assert_eq!(export_action(&sub, &root), Ok(ExportAction::CreateSubdir("DATA".to_string())));
    let empty = entry("EMPTY.BIN", PSUEntryKind::File, None, 2004);
    assert_eq!(
        export_action(&empty, &root),
        Err("EMPTY.BIN is missing file data in the PSU archive.".to_string())
    );

    let no_root = vec![entry("..", PSUEntryKind::Directory, None, 2001)];
    assert_eq!(
        export_root_name(&no_root, "x.psu"),
        Err("x.psu does not contain PSU metadata".to_string())
    );
    let blank_root = vec![entry("  ", PSUEntryKind::Directory, None, 2001)];
    assert_eq!(
        export_root_name(&blank_root, "x.psu"),
        Err("x.psu does not contain a valid root directory entry.".to_string())
    );
}

#[test]
fn load_error_messages() {
    assert_eq!(
        format_load_error(&Error::NameError, "/p/psu.toml"),
        "Configuration contains an invalid PSU name."
    );
    assert_eq!(
        format_load_error(&Error::ConfigError("bad key".to_string()), "/p/psu.toml"),
        "The psu.toml file is invalid: bad key"
    );
    let missing = std::io::Error::new(std::io::ErrorKind::NotFound, "gone");
    assert_eq!(
        format_load_error(&Error::IOError(missing), "/p/psu.toml"),
        "Could not find /p/psu.toml. Create a psu.toml file in the selected folder."
    );
    let other = std::io::Error::new(std::io::ErrorKind::Other, "broken");
    assert_eq!(
        format_load_error(&Error::IOError(other), "/p/psu.toml"),
        "Failed to read /p/psu.toml: broken"
    );
}

#[test]
fn pack_checks_names_and_may_drop_psu_toml() {
    let mut app = PackForm::default();
    app.folder_base_name = "   ".to_string();
    assert_eq!(app.check_pack_names(), Err("Please provide a folder name".to_string()));

    app.folder_base_name = " SAVE ".to_string();
    assert_eq!(app.check_pack_names(), Ok(()));
    assert_eq!(app.psu_file_base_name, "SAVE");

    app.psu_file_base_name = "OTHER".to_string();
    assert_eq!(app.check_pack_names(), Ok(()));
    assert_eq!(app.psu_file_base_name, "OTHER");

    let missing = vec![
        MissingRequiredFile::always("PSU.TOML"),
        MissingRequiredFile::always("BOOT.ELF"),
    ];
    let kept = drop_missing_psu_toml(missing);
    assert_eq!(kept.len(), 1);
    assert_eq!(kept[0].name, "BOOT.ELF");
}

#[test]
fn icon_sys_switches() {
    let mut app = PackForm::default();
    app.set_icon_sys_enabled(true);
    assert!(app.icon_sys_enabled);
    assert!(!app.icon_sys_use_existing);

    let sys = IconSys {
        flags: 1,
        linebreak_pos: 2,
        background_transparency: 5,
        background_colors: [Color { r: 9, g: 9, b: 9, a: 9 }; 4],
        light_directions: [Vector { x: 1, y: 1, z: 1, w: 1 }; 3],
        light_colors: [ColorF { r: 2, g: 2, b: 2, a: 2 }; 3],
        ambient_color: ColorF { r: 3, g: 3, b: 3, a: 3 },
        title: "ABCD".to_string(),
        icon_file: "icon.icn".to_string(),
        icon_copy_file: "icon.icn".to_string(),
        icon_delete_file: "icon.icn".to_string(),
    };
    // Without an icon.sys from the project the mode cannot change.
    app.set_icon_sys_mode(true);
    assert!(!app.icon_sys_use_existing);

    app.icon_sys_existing = Some(sys);
    app.set_icon_sys_mode(true);
    assert!(app.icon_sys_use_existing);
    assert_eq!(app.icon_sys_title_line1, "AB");
    assert_eq!(app.icon_sys_background_transparency, 5);
    app.set_icon_sys_mode(false);
    assert!(!app.icon_sys_use_existing);
    assert_eq!(app.icon_sys_title_line1, "AB");

    app.set_icon_sys_mode(true);
    app.set_icon_sys_enabled(false);
    assert!(!app.icon_sys_enabled);
    assert!(!app.icon_sys_use_existing);
}

#[test]
fn icon_sys_is_found_in_any_case() {
    let names = vec!["ICON.SYS".to_string(), "BOOT.ELF".to_string(), "Icon.Sys".to_string()];
    assert_eq!(find_icon_sys_entry(&names, &vec![false, true, true]), Some(2));
    assert_eq!(find_icon_sys_entry(&names, &vec![true, true, true]), Some(0));
    assert_eq!(find_icon_sys_entry(&names, &vec![false, true, false]), None);
}

#[test]
fn output_follows_the_default_name() {
    // A blank output takes the new default path.
    assert_eq!(
        update_output_if_matches_default("  ", None, Some("/proj/APP_SAVE.psu")),
        "/proj/APP_SAVE.psu"
    );
    // An output that was the previous default follows the new one.
    assert_eq!(
        update_output_if_matches_default(
            "/out/APP_OLD.psu",
            Some("APP_OLD.psu"),
            Some("/out/APP_NEW.psu")
        ),
        "/out/APP_NEW.psu"
    );
    // A chosen output stays.
    assert_eq!(
        update_output_if_matches_default("/out/mine.psu", Some("APP_OLD.psu"), Some("/out/APP_NEW.psu")),
        "/out/mine.psu"
    );
    // Without a new default the output is cleared.
    assert_eq!(update_output_if_matches_default("", None, None), "");
}

#[test]
fn list_failure_messages() {
    assert_eq!(
        add_entry_failure_message(ListKind::Include, "A.BIN (already listed)"),
        "Could not add the entry to the Include files list Failed files: A.BIN (already listed)"
    );
    assert_eq!(
        add_files_failure_message(
            ListKind::Exclude,
            &vec!["/x/B (must be in the selected folder)".to_string(), "C (invalid file name)".to_string()]
        ),
        "Some files could not be added to the Exclude files list Failed files: /x/B (must be in the selected folder), C (invalid file name)"
    );
}

fn missing_for_empty_folder() -> Vec<MissingRequiredFile> {
    let probe = ProjectProbe {
        required_present: vec![false, false, false, false],
        boot_elf_present: false,
        timestamp_rules_present: false,
    };
    missing_required_project_files(&probe, &Vec::new(), TimestampStrategy::NoTimestamp, false, false)
}

fn save_config() -> Config {
    let mut app = PackForm::default();
    app.folder_base_name = "SAVE".to_string();
    app.psu_file_base_name = "SAVE".to_string();
    app.selected_prefix = SasPrefix::App;
    app.build_config().expect("config")
}

#[test]
fn declining_pack_confirmation_keeps_warning_visible() {
    let mut queue = PackQueue::new();
    let missing = missing_for_empty_folder();
    assert!(!missing.is_empty(), "missing files should be tracked");
    let job = queue.handle_pack_request(
        false,
        "/work/project".to_string(),
        "/work/output.psu".to_string(),
        save_config(),
        missing.clone(),
    );
    assert!(job.is_none());
    assert!(queue.pending_pack_action.is_some(), "confirmation should be pending");
    let shown: Vec<String> =
        queue.pending_pack_missing_files().expect("pending").iter().map(|m| m.name.clone()).collect();
    queue.cancel_pending_pack_action();
    assert!(queue.pending_pack_action.is_none(), "pending confirmation cleared");
    let still: Vec<String> = missing.iter().map(|m| m.name.clone()).collect();
    assert_eq!(shown, still, "warning about missing files remains visible");
}

#[test]
fn accepting_pack_confirmation_triggers_pack_job() {
    let mut queue = PackQueue::new();
    let job = queue.handle_pack_request(
        false,
        "/work/project".to_string(),
        "/work/output.psu".to_string(),
        save_config(),
        missing_for_empty_folder(),
    );
    assert!(job.is_none());
    assert!(queue.pending_pack_action.is_some(), "confirmation should be pending");
    let job = queue.confirm_pending_pack_action().expect("pack job should start after acceptance");
    assert!(queue.pending_pack_action.is_none(), "confirmation accepted");
    assert_eq!(job.output_path, "/work/output.psu");
    assert_eq!(job.config.name, "APP_SAVE");
    assert!(queue.confirm_pending_pack_action().is_none());

    let started = queue
        .handle_pack_request(false, "/w".to_string(), "/o.psu".to_string(), save_config(), Vec::new())
        .expect("nothing missing: the pack starts at once");
    assert_eq!(started.folder, "/w");
    assert!(queue.pending_pack_action.is_none());

    // While a pack runs, a request neither starts nor queues anything.
    let busy = queue.handle_pack_request(
        true,
        "/w".to_string(),
        "/o.psu".to_string(),
        save_config(),
        missing_for_empty_folder(),
    );
    assert!(busy.is_none());
    assert!(queue.pending_pack_action.is_none());
}

#[test]
fn update_and_export_requests_pick_their_archive() {
    assert_eq!(
        determine_update_destination(Some("/saves/in.psu"), "/out.psu"),
        Ok("/saves/in.psu".to_string())
    );
    assert_eq!(determine_update_destination(None, "  /out.psu \n"), Ok("/out.psu".to_string()));
    assert_eq!(
        determine_update_destination(None, "   "),
        Err("Load a PSU file or set the output path before updating.".to_string())
    );
    assert_eq!(
        determine_export_source_path(None, ""),
        Err("Load a PSU file or select a packed PSU before exporting its contents.".to_string())
    );
    assert_eq!(
        determine_export_source_path(Some("a.psu"), ""),
        Ok("a.psu".to_string())
    );
    assert_eq!(
        missing_update_destination_message("/out/APP_SAVE.psu"),
        "Cannot update because /out/APP_SAVE.psu does not exist."
    );
    assert_eq!(
        missing_export_source_message("/missing.psu"),
        "Cannot export because /missing.psu does not exist."
    );
}

#[test]
fn load_io_messages_follow_the_failure_kind() {
    assert_eq!(
        load_io_message(IoFailureKind::NotFound, "/p/psu.toml", "gone"),
        "Could not find /p/psu.toml. Create a psu.toml file in the selected folder."
    );
    assert_eq!(
        load_io_message(IoFailureKind::PermissionDenied, "/p/psu.toml", "denied"),
        "Failed to read /p/psu.toml: denied"
    );
    assert_eq!(
        load_io_message(IoFailureKind::Other, "/p/psu.toml", "broken"),
        "Failed to read /p/psu.toml: broken"
    );
}
