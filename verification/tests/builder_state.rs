use ps2_suitcase::builder_state::{
    choose_tab, tab_caption, AppEvent, AppState, IconSysViewer, OpenChoice, Tab, TitleCfgViewer,
    VirtualFile,
};
use ps2_suitcase::viewer::ViewerKind;
use ps2_suitcase::color::Color;
use ps2_suitcase::icon_sys::{ColorF, IconSys, Vector};

fn vfile(name: &str) -> VirtualFile {
    VirtualFile { name: name.to_string(), file_path: format!("/save/{name}"), size: 12 }
}

#[test]
fn events_queue_in_order_and_drain() {
    let mut state = AppState::default();
    state.open_folder();
    state.open_file(vfile("title.cfg"));
    state.set_title("SAVE".to_string());
    state.add_files();
    state.export_psu();
    state.save_file();
    let events = state.take_events();
    assert_eq!(events.len(), 6);
    assert!(matches!(events[0], AppEvent::OpenFolder));
    assert!(matches!(&events[1], AppEvent::OpenFile(f) if f.name == "title.cfg"));
    assert!(matches!(&events[2], AppEvent::SetTitle(t) if t == "SAVE"));
    assert!(matches!(events[3], AppEvent::AddFiles));
    assert!(matches!(events[4], AppEvent::ExportPSU));
    assert!(matches!(events[5], AppEvent::SaveFile));
    assert!(state.take_events().is_empty());
}

#[test]
fn viewer_tabs_track_changes() {
    let mut tab = TitleCfgViewer::new(&vfile("title.cfg"), "title=A".to_string());
    assert_eq!(tab.get_title(), "title.cfg");
    assert_eq!(tab.get_id(), "title.cfg");
    assert!(!tab.get_modified());
    assert_eq!(tab_caption(&tab.get_title(), tab.get_modified()), "title.cfg");
    tab.edit("title=B".to_string());
    assert!(tab.get_modified());
    assert_eq!(tab_caption(&tab.get_title(), tab.get_modified()), "* title.cfg");
    tab.mark_saved();
    assert!(!tab.get_modified());
    assert_eq!(tab.contents, "title=B");

    let sys = IconSys {
        flags: 0,
        linebreak_pos: 0,
        background_transparency: 0,
        background_colors: [Color { r: 0, g: 0, b: 0, a: 0 }; 4],
        light_directions: [Vector { x: 0, y: 0, z: 0, w: 0 }; 3],
        light_colors: [ColorF { r: 0, g: 0, b: 0, a: 0 }; 3],
        ambient_color: ColorF { r: 0, g: 0, b: 0, a: 0 },
        title: "HELLO".to_string(),
        icon_file: "list.icn".to_string(),
        icon_copy_file: "copy.icn".to_string(),
        icon_delete_file: "del.icn".to_string(),
    };
    let viewer = IconSysViewer::new("icon.sys", &sys);
    assert_eq!(viewer.get_title(), "icon.sys");
    assert_eq!(viewer.title, "HELLO");
    assert_eq!(viewer.icon_copy_file, "copy.icn");
    assert!(!viewer.get_modified());
}

#[test]
fn opening_a_file_focuses_or_opens_a_tab() {
    let titles = vec!["icon.sys".to_string(), "title.cfg".to_string(), "icon.sys".to_string()];
    assert_eq!(choose_tab(&titles, "icon.sys"), OpenChoice::Focus(2));
    assert_eq!(choose_tab(&titles, "title.cfg"), OpenChoice::Focus(1));
    assert_eq!(choose_tab(&titles, "list.icn"), OpenChoice::Open(ViewerKind::Icn));
    assert_eq!(choose_tab(&titles, "BOOT.ELF"), OpenChoice::Ignore);
}
