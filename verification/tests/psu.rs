use ps2_suitcase::psu::{
    encode_string, timestamp_to_bytes, write_entry, PSUEntryKind, PSUWriter, PsuTimestamp, PSU,
};

fn timestamp() -> PsuTimestamp {
    PsuTimestamp::new(2023, 11, 24, 13, 45, 30)
}

#[test]
fn timestamps_are_eight_bytes() {
    assert_eq!(
        timestamp_to_bytes(timestamp()),
        vec![0, 30, 45, 13, 24, 11, 0xE7, 0x07]
    );
}

#[test]
fn names_are_padded_to_448_bytes() {
    let field = encode_string("SAVE");
    assert_eq!(field.len(), 448);
    assert_eq!(&field[..4], b"SAVE");
    assert!(field[4..].iter().all(|b| *b == 0));
}

#[test]
fn folder_count_follows_adds_and_removes() {
    let mut psu = PSU::new();
    psu.add_defaults("SAVE", timestamp());
    assert_eq!(psu.entries[0].size, 2);
    psu.add_file_entry("A.BIN".to_string(), vec![1, 2, 3], timestamp(), timestamp());
    psu.add_file_entry("B.BIN".to_string(), vec![4], timestamp(), timestamp());
    assert_eq!(psu.entries.len(), 5);
    assert_eq!(psu.entries[0].size, 4);
    assert_eq!(psu.entries[3].kind, PSUEntryKind::File);
    assert!(psu.remove_entry(&"A.BIN".to_string()).is_ok());
    assert_eq!(psu.entries.len(), 4);
    assert_eq!(psu.entries[0].size, 3);
    assert_eq!(psu.entries[3].name, "B.BIN");
    assert_eq!(
        psu.remove_entry(&"A.BIN".to_string()),
        Err("Entry does not exist".to_string())
    );
    assert_eq!(psu.entries.len(), 4);
}

#[test]
fn file_entries_are_padded_to_pages() {
    let mut psu = PSU::new();
    psu.add_defaults("SAVE", timestamp());
    psu.add_file_entry("A.BIN".to_string(), vec![9; 1500], timestamp(), timestamp());
    let entry_bytes = write_entry(&psu.entries[3]);
    assert_eq!(entry_bytes.len(), 512 + 2048);
    assert_eq!(&entry_bytes[512..512 + 1500], &[9u8; 1500][..]);
    let bytes = PSUWriter::new(psu).to_bytes().expect("in memory");
    assert_eq!(bytes.len(), 3 * 512 + 512 + 2048);
    assert_eq!(u16::from_le_bytes([bytes[0], bytes[1]]), 0x8427);
    assert_eq!(u16::from_le_bytes([bytes[1536], bytes[1537]]), 0x8497);
}

#[test]
fn kind_labels() {
    assert_eq!(PSUEntryKind::Directory.label(), "directory");
    assert_eq!(PSUEntryKind::File.label(), "file");
}
