use ps2_suitcase::packer::Error;
use ps2_suitcase::packing::{
    add_files_to_psu, add_psu_defaults, build_psu, pack_archive, select_pack_files, FileProbe,
    PackFile,
};
use ps2_suitcase::psu::{PsuTimestamp, DIR_ID, FILE_ID, PSU};

fn probe(name: &str, exists: bool, is_file: bool) -> FileProbe {
    FileProbe {
        name: name.to_string(),
        exists,
        is_file,
    }
}

fn file(name: &str, contents: &[u8]) -> PackFile {
    PackFile {
        name: name.to_string(),
        contents: contents.to_vec(),
        created: PsuTimestamp::new(2020, 0, 2, 3, 4, 5),
        modified: PsuTimestamp::new(2021, 1, 2, 3, 4, 6),
    }
}

fn archived_names(bytes: &[u8]) -> Vec<String> {
    let mut names = Vec::new();
    let mut pos = 0;
    while pos + 512 <= bytes.len() {
        let id = u16::from_le_bytes([bytes[pos], bytes[pos + 1]]);
        let size = u32::from_le_bytes([
            bytes[pos + 4],
            bytes[pos + 5],
            bytes[pos + 6],
            bytes[pos + 7],
        ]) as usize;
        let name_field = &bytes[pos + 64..pos + 512];
        let end = name_field.iter().position(|b| *b == 0).unwrap_or(448);
        names.push(String::from_utf8_lossy(&name_field[..end]).to_string());
        pos += 512;
        if id == FILE_ID {
            pos += size;
            if size % 1024 != 0 {
                pos += 1024 - size % 1024;
            }
        }
    }
    names
}

#[test]
fn psu_toml_is_never_packed() {
    // The folder holds DATA.BIN and psu.toml.
    let listing = vec![probe("DATA.BIN", true, true), probe("psu.toml", true, true)];
    let include_all = select_pack_files(&listing, false, None, false);
    assert!(include_all.contains(&"DATA.BIN".to_string()));
    assert!(!include_all.contains(&"psu.toml".to_string()));

    let explicit = vec![probe("DATA.BIN", true, true), probe("psu.toml", true, true)];
    let with_explicit = select_pack_files(&explicit, true, None, false);
    assert!(!with_explicit.contains(&"psu.toml".to_string()));
}

#[test]
fn configured_names_must_exist_and_lie_in_the_folder() {
    let explicit = vec![
        probe("A.BIN", true, true),
        probe("sub/B.BIN", true, true),
        probe("C.BIN", false, false),
        probe("PSU.TOML", true, true),
        probe("DIR", true, false),
    ];
    assert_eq!(select_pack_files(&explicit, true, None, false), vec!["A.BIN".to_string()]);
}

#[test]
fn exclusions_and_icon_sys() {
    let listing = vec![
        probe("A.BIN", true, true),
        probe("B.BIN", true, true),
        probe("icon.sys", true, true),
    ];
    let exclusions = vec![probe("B.BIN", true, true), probe("x/A.BIN", true, true)];
    assert_eq!(
        select_pack_files(&listing, false, Some(&exclusions), true),
        vec!["A.BIN".to_string(), "icon.sys".to_string()]
    );
    let listing = vec![probe("A.BIN", true, true)];
    assert_eq!(
        select_pack_files(&listing, false, None, true),
        vec!["A.BIN".to_string(), "icon.sys".to_string()]
    );
    // An exclusion that does not exist in the folder is ignored.
    let missing = vec![probe("A.BIN", false, false)];
    assert_eq!(
        select_pack_files(&listing, false, Some(&missing), false),
        vec!["A.BIN".to_string()]
    );
}

#[test]
fn defaults_count_the_files() {
    let mut psu = PSU::default();
    let t = PsuTimestamp::default();
    add_psu_defaults(&mut psu, "SAVE", 3, t);
    assert_eq!(psu.entries.len(), 3);
    assert_eq!(psu.entries[0].size, 5);
    assert_eq!(psu.entries[0].id, DIR_ID);
    assert_eq!(psu.entries[1].name, ".");
    assert_eq!(psu.entries[2].name, "..");
    assert_eq!(t, PsuTimestamp::new(1970, 0, 1, 0, 0, 0));
}

#[test]
fn files_take_the_configured_timestamp() {
    let mut psu = PSU::default();
    let t = PsuTimestamp::new(2024, 5, 6, 7, 8, 10);
    add_files_to_psu(&mut psu, vec![file("A.BIN", b"abc")], Some(t));
    assert_eq!(psu.entries[0].created, t);
    assert_eq!(psu.entries[0].modified, t);
    assert_eq!(psu.entries[0].size, 3);
    add_files_to_psu(&mut psu, vec![file("B.BIN", b"x")], None);
    assert_eq!(psu.entries[1].created, PsuTimestamp::new(2020, 0, 2, 3, 4, 5));
    assert_eq!(psu.entries[1].modified, PsuTimestamp::new(2021, 1, 2, 3, 4, 6));
}

#[test]
fn archive_of_a_folder() {
    let psu = build_psu("SAVE", None, PsuTimestamp::default(), vec![file("A.BIN", b"abc"), file("B.BIN", &[7u8; 1024])]);
    assert_eq!(psu.entries.len(), 5);
    assert_eq!(psu.entries[0].size, 4);
    let bytes = pack_archive("SAVE", None, PsuTimestamp::default(),
        vec![file("A.BIN", b"abc"), file("B.BIN", &[7u8; 1024])],
    )
    .expect("valid name");
    assert_eq!(bytes.len(), 3 * 512 + 512 + 1024 + 512 + 1024);
    assert_eq!(archived_names(&bytes), vec!["SAVE", ".", "..", "A.BIN", "B.BIN"]);
}

#[test]
fn invalid_names_are_refused() {
    assert!(matches!(
        pack_archive("BAD/NAME", None, PsuTimestamp::default(), Vec::new()),
        Err(Error::NameError)
    ));
    assert!(matches!(
        pack_archive("zebra!", None, PsuTimestamp::default(), Vec::new()),
        Err(Error::NameError)
    ));
    assert!(pack_archive("GOOD NAME-1_", None, PsuTimestamp::default(), Vec::new()).is_ok());
    assert!(pack_archive("ZZZ_OPL 9", None, PsuTimestamp::default(), Vec::new()).is_ok());
}

#[test]
fn packing_twice_gives_the_same_bytes() {
    let make = || vec![file("BOOT.ELF", b"\x7fELF"), file("DATA.BIN", &[7; 1500])];
    let first = pack_archive("APP_SAME", None, PsuTimestamp::default(), make()).expect("archive");
    let second = pack_archive("APP_SAME", None, PsuTimestamp::default(), make()).expect("archive");
    assert_eq!(first, second);
}

#[test]
fn no_lists_pack_every_regular_file_and_generated_icon_sys() {
    let listing = vec![
        probe("BOOT.ELF", true, true),
        probe("SUBDIR", true, false),
        probe("Psu.Toml", true, true),
        probe("DATA.BIN", true, true),
    ];
    assert_eq!(
        select_pack_files(&listing, false, None, true),
        vec!["BOOT.ELF".to_string(), "DATA.BIN".to_string(), "icon.sys".to_string()]
    );
}

#[test]
fn without_a_timestamp_the_folder_entries_carry_the_packing_time() {
    let now = PsuTimestamp::new(2024, 9, 10, 10, 30, 4);
    let bytes = pack_archive("APP_NOW", None, now, vec![file("A.BIN", b"abc")]).expect("archive");
    let stamp = [0u8, 4, 30, 10, 10, 9, 0xE8, 0x07];
    for entry in 0..3 {
        let base = entry * 512;
        assert_eq!(&bytes[base + 8..base + 16], &stamp);
        assert_eq!(&bytes[base + 24..base + 32], &stamp);
    }
    let configured = PsuTimestamp::new(2001, 0, 2, 3, 4, 6);
    let bytes = pack_archive("APP_NOW", Some(configured), now, Vec::new()).expect("archive");
    assert_eq!(&bytes[8..16], &[0u8, 6, 4, 3, 2, 0, 0xD1, 0x07]);
}

#[test]
fn a_configured_timestamp_makes_the_packing_time_irrelevant() {
    let make = || vec![file("BOOT.ELF", b"\x7fELF"), file("DATA.BIN", &[7; 700])];
    let t = PsuTimestamp::new(2023, 10, 14, 12, 34, 56);
    let early = pack_archive("APP_SAME", Some(t), PsuTimestamp::new(2000, 0, 1, 0, 0, 0), make())
        .expect("archive");
    let late = pack_archive("APP_SAME", Some(t), PsuTimestamp::new(2030, 5, 6, 7, 8, 9), make())
        .expect("archive");
    assert_eq!(early, late);
}
