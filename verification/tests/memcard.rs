use ps2_suitcase::memcard::{DirEntry, Memcard, DF_DIRECTORY, DF_EXISTS, DF_FILE};

const PAGE: usize = 512;
const RAW_PAGE: usize = PAGE + 16;
const CLUSTERS: usize = 21;

fn write_cluster(img: &mut [u8], n: usize, data: &[u8]) {
    for page in 0..2 {
        let off = RAW_PAGE * (2 * n + page);
        img[off..off + PAGE].copy_from_slice(&data[page * PAGE..(page + 1) * PAGE]);
    }
}

fn put_u32(buf: &mut [u8], pos: usize, v: u32) {
    buf[pos..pos + 4].copy_from_slice(&v.to_le_bytes());
}

fn entry(name: &str, mode: u16, length: u32, cluster: u32) -> Vec<u8> {
    let mut e = vec![0u8; 512];
    e[0..2].copy_from_slice(&mode.to_le_bytes());
    put_u32(&mut e, 4, length);
    e[8..16].copy_from_slice(&[0, 30, 20, 10, 5, 4, 0xE8, 0x07]);
    put_u32(&mut e, 16, cluster);
    e[24..32].copy_from_slice(&[0, 31, 21, 11, 6, 5, 0xE8, 0x07]);
    e[64..64 + name.len()].copy_from_slice(name.as_bytes());
    e
}

fn card() -> Vec<u8> {
    let mut img = vec![0u8; RAW_PAGE * 2 * CLUSTERS];
    let sb = &mut img[0..338];
    sb[0..28].copy_from_slice(b"Sony PS2 Memory Card Format ");
    sb[40..42].copy_from_slice(&(PAGE as u16).to_le_bytes());
    sb[42..44].copy_from_slice(&2u16.to_le_bytes());
    sb[44..46].copy_from_slice(&16u16.to_le_bytes());
    put_u32(sb, 52, 12);
    put_u32(sb, 60, 0);
    put_u32(sb, 80, 8);
    for k in 1..32 {
        put_u32(sb, 80 + 4 * k, 10);
    }
    // Indirect table cluster: one table cluster, cluster 9.
    let mut ifc = vec![0xFFu8; 1024];
    put_u32(&mut ifc, 0, 9);
    write_cluster(&mut img, 8, &ifc);
    write_cluster(&mut img, 10, &vec![0xFFu8; 1024]);
    // The table itself.
    let mut fat = vec![0xFFu8; 1024];
    put_u32(&mut fat, 4, 0x8000_0004);
    put_u32(&mut fat, 8, 0x8000_0003);
    write_cluster(&mut img, 9, &fat);
    // Root directory (cluster 0 past the allocation offset).
    let mut root = entry(".", DF_DIRECTORY | DF_EXISTS, 2, 0);
    root.extend(entry("SAVE", DF_DIRECTORY | DF_EXISTS, 3, 1));
    write_cluster(&mut img, 12, &root);
    // SAVE spans clusters 1 and 4.
    let mut save = entry(".", DF_DIRECTORY | DF_EXISTS, 0, 1);
    save.extend(entry("..", DF_DIRECTORY | DF_EXISTS, 0, 0));
    write_cluster(&mut img, 13, &save);
    let mut save2 = entry("DATA.BIN", DF_FILE | DF_EXISTS, 1500, 2);
    save2.extend(entry("UNUSED", 0, 0, 0));
    write_cluster(&mut img, 16, &save2);
    // DATA.BIN spans clusters 2 and 3.
    let data: Vec<u8> = (0..2048u32).map(|i| (i % 251) as u8).collect();
    write_cluster(&mut img, 14, &data[..1024]);
    write_cluster(&mut img, 15, &data[1024..]);
    img
}

fn name_of(e: &DirEntry) -> String {
    let end = e.name.iter().position(|b| *b == 0).unwrap_or(32);
    String::from_utf8_lossy(&e.name[..end]).to_string()
}

#[test]
fn reads_the_root_directory() {
    let mut mc = Memcard::new(card());
    let root = mc.read_entry_cluster(mc.rootdir_cluster() as u32);
    assert_eq!(root.len(), 2);
    assert_eq!(name_of(&root[1]), "SAVE");
    assert_eq!(root[1].length, 3);
    assert_eq!(root[1].cluster, 1);
    assert_eq!(root[1].mode, DF_DIRECTORY | DF_EXISTS);
}

#[test]
fn follows_directory_chains() {
    let mut mc = Memcard::new(card());
    let root = mc.read_entry_cluster(0);
    let entries = mc.find_sub_entries(&root[1]);
    let names: Vec<String> = entries.iter().map(name_of).collect();
    assert_eq!(names, vec![".", "..", "DATA.BIN"]);
}

#[test]
fn reads_file_data_up_to_its_length() {
    let mut mc = Memcard::new(card());
    let root = mc.read_entry_cluster(0);
    let entries = mc.find_sub_entries(&root[1]);
    let data = mc.read_data_cluster(&entries[2]);
    let expected: Vec<u8> = (0..1500u32).map(|i| (i % 251) as u8).collect();
    assert_eq!(data, expected);
}

#[test]
fn entries_need_ninety_six_bytes() {
    assert!(DirEntry::from_bytes(&[0u8; 95]).is_err());
    let e = DirEntry::from_bytes(&entry("X", DF_FILE, 7, 9)).expect("entry");
    assert_eq!(e.length, 7);
    assert_eq!(e.cluster, 9);
    assert_eq!(e.mode, DF_FILE);
}
