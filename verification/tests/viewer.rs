use ps2_suitcase::viewer::{
    calc_size, calculated_size, file_icon, viewer_for_file, FileIcon, RowSelection, ViewerKind,
};

#[test]
fn file_icons_follow_the_last_extension() {
    assert_eq!(file_icon("BOOT.ELF"), FileIcon::Executable);
    assert_eq!(file_icon("list.icn"), FileIcon::Model);
    assert_eq!(file_icon("icon.SYS"), FileIcon::Settings);
    assert_eq!(file_icon("title.cfg"), FileIcon::Code);
    assert_eq!(file_icon("archive.cfg.bak"), FileIcon::Plain);
    assert_eq!(file_icon("elf"), FileIcon::Executable);
    assert_eq!(file_icon("README"), FileIcon::Plain);
}

#[test]
fn viewers_follow_the_extension() {
    assert_eq!(viewer_for_file("list.ICN"), Some(ViewerKind::Icn));
    assert_eq!(viewer_for_file("copy.ico"), Some(ViewerKind::Icn));
    assert_eq!(viewer_for_file("icon.sys"), Some(ViewerKind::IconSys));
    assert_eq!(viewer_for_file("title.cfg"), Some(ViewerKind::TitleCfg));
    assert_eq!(viewer_for_file("SYSTEM.CNF"), Some(ViewerKind::TitleCfg));
    assert_eq!(viewer_for_file("notes.txt"), Some(ViewerKind::TitleCfg));
    assert_eq!(viewer_for_file("save.dat"), Some(ViewerKind::TitleCfg));
    assert_eq!(viewer_for_file("BOOT.ELF"), None);
    assert_eq!(viewer_for_file(".sys"), None);
    assert_eq!(viewer_for_file(".."), None);
    assert_eq!(viewer_for_file("noext"), None);
    assert_eq!(viewer_for_file("trailing."), None);
    assert_eq!(viewer_for_file("save/icon.sys"), Some(ViewerKind::IconSys));
    assert_eq!(viewer_for_file("/save/list.icn/"), Some(ViewerKind::Icn));
    assert_eq!(viewer_for_file("save/title.cfg/."), Some(ViewerKind::TitleCfg));
    assert_eq!(viewer_for_file("save/icon.sys/.."), None);
    assert_eq!(viewer_for_file("/"), None);
    assert_eq!(viewer_for_file("."), None);
    assert_eq!(viewer_for_file("dir.sys/.icn"), None);
}

#[test]
fn sizes_round_up_to_pages() {
    assert_eq!(calc_size(0), 0);
    assert_eq!(calc_size(1), 1024);
    assert_eq!(calc_size(1024), 1024);
    assert_eq!(calc_size(1025), 2048);
    assert_eq!(calculated_size(&vec![]), 1536);
    assert_eq!(calculated_size(&vec![10, 2048]), 1536 + 512 + 1024 + 512 + 2048);
}

#[test]
fn clicking_rows_toggles_a_single_selection() {
    let mut selection = RowSelection::new();
    assert!(!selection.is_selected(0));
    selection.click_row(2);
    assert!(selection.is_selected(2));
    selection.click_row(5);
    assert!(selection.is_selected(5));
    assert!(!selection.is_selected(2));
    selection.click_row(5);
    assert!(!selection.is_selected(5));
    assert!(!selection.is_selected(2));
}
