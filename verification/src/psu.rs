//! The PSU save archive: a flat list of directory and file entries, each
//! serialised as a 512-byte header followed (for files) by the contents
//! padded to a whole 1 KiB page.
use vstd::prelude::*;
use crate::bytes::{
    le16, le32, zeros, push_u16_le, push_u32_le, push_zeros, push_all, u16_at, u32_at,
    lemma_le16_roundtrip, lemma_le32_roundtrip,
};
use crate::text::chars_of;
use vstd::utf8::encode_utf8;

verus! {

/// Entry id of a directory.
pub const DIR_ID: u16 = 0x8427;

/// Entry id of a file.
pub const FILE_ID: u16 = 0x8497;

/// Files are padded to a multiple of this many bytes.
pub const PAGE_SIZE: u32 = 0x400;

/// Length of the name field of an entry header.
pub const NAME_FIELD_LEN: usize = 448;

/// Length of an entry header.
pub const ENTRY_HEADER_LEN: usize = 512;

/// A calendar date and time as the fields an archive records of it.
#[derive(Clone, Copy, Debug, PartialEq, Eq, Structural)]
pub struct PsuTimestamp {
    pub year: i32,
    /// Month, counted from 0 for January.
    pub month0: u32,
    pub day: u32,
    pub hour: u32,
    pub minute: u32,
    pub second: u32,
}

/// Midnight on 1 January 1970, the default timestamp.
pub open spec fn epoch() -> PsuTimestamp {
    PsuTimestamp { year: 1970, month0: 0, day: 1, hour: 0, minute: 0, second: 0 }
}

impl PsuTimestamp {
    pub fn new(year: i32, month0: u32, day: u32, hour: u32, minute: u32, second: u32) -> (t: Self)
        ensures
            t == (PsuTimestamp { year, month0, day, hour, minute, second }),
    {
        PsuTimestamp { year, month0, day, hour, minute, second }
    }
}

impl Default for PsuTimestamp {
    fn default() -> (t: Self)
        ensures
            t == epoch(),
    {
        PsuTimestamp { year: 1970, month0: 0, day: 1, hour: 0, minute: 0, second: 0 }
    }
}

/// Whether an entry is a directory or a file.
#[derive(Debug, Clone, Copy, PartialEq, Eq, Structural)]
pub enum PSUEntryKind {
    Directory,
    File,
}

impl PSUEntryKind {
    /// The lower-case name of the kind, as listings show it.
    pub fn label(&self) -> (s: &'static str)
        ensures
            *self == PSUEntryKind::Directory ==> s@ == "directory"@,
            *self == PSUEntryKind::File ==> s@ == "file"@,
    {
        match self {
            PSUEntryKind::Directory => "directory",
            PSUEntryKind::File => "file",
        }
    }
}

/// One entry of an archive.
#[derive(Debug)]
pub struct PSUEntry {
    pub id: u16,
    pub size: u32,
    pub created: PsuTimestamp,
    pub sector: u16,
    pub modified: PsuTimestamp,
    pub name: String,
    pub kind: PSUEntryKind,
    pub contents: Option<Vec<u8>>,
}

/// An archive: its entries in order.  By convention the first three are the
/// save folder, `.` and `..`.
#[derive(Debug)]
pub struct PSU {
    pub entries: Vec<PSUEntry>,
}

/// The eight bytes a timestamp is stored as.
pub open spec fn timestamp_bytes(t: PsuTimestamp) -> Seq<u8> {
    seq![0u8, t.second as u8, t.minute as u8, t.hour as u8, t.day as u8, t.month0 as u8] + le16(
        t.year as u16,
    )
}

/// The 448-byte name field: one byte per character (its code point cut to
/// 8 bits), then as many zeros as the name's UTF-8 length falls short of 448.
pub open spec fn name_field(name: Seq<char>) -> Seq<u8> {
    name.map_values(|c: char| c as u8) + zeros((448 - encode_utf8(name).len()) as nat)
}

/// Whether `name` fits the name field.
pub open spec fn name_fits(name: Seq<char>) -> bool {
    encode_utf8(name).len() <= 448
}

/// The names `.` and `..` fit the name field.
pub proof fn lemma_dot_names_fit()
    ensures
        name_fits("."@),
        name_fits(".."@),
{
    reveal_strlit(".");
    reveal_strlit("..");
    vstd::utf8::is_ascii_chars_encode_utf8("."@);
    vstd::utf8::is_ascii_chars_encode_utf8(".."@);
}

/// The 512-byte header of an entry.
pub open spec fn entry_header(e: PSUEntry) -> Seq<u8> {
    le16(e.id) + seq![0u8, 0u8] + le32(e.size) + timestamp_bytes(e.created) + le16(e.sector) + seq![
        0u8,
        0u8,
    ] + zeros(4) + timestamp_bytes(e.modified) + zeros(32) + name_field(e.name@)
}

/// Where an entry's fields sit in its serialised form: the id at 0, the
/// size at 4, the creation time at 8 (seconds, minutes, hours, day and
/// month at 9 to 13, the year at 14), the first sector at 16 and the
/// modification time at 24 (seconds to month at 25 to 29, the year at 30).
pub proof fn lemma_entry_fields_at_offsets(e: PSUEntry)
    ensures
        u16_at(entry_bytes(e), 0) == e.id,
        u32_at(entry_bytes(e), 4) == e.size,
        entry_bytes(e)[9] == e.created.second as u8,
        entry_bytes(e)[10] == e.created.minute as u8,
        entry_bytes(e)[11] == e.created.hour as u8,
        entry_bytes(e)[12] == e.created.day as u8,
        entry_bytes(e)[13] == e.created.month0 as u8,
        u16_at(entry_bytes(e), 14) == e.created.year as u16,
        u16_at(entry_bytes(e), 16) == e.sector,
        entry_bytes(e)[25] == e.modified.second as u8,
        entry_bytes(e)[26] == e.modified.minute as u8,
        entry_bytes(e)[27] == e.modified.hour as u8,
        entry_bytes(e)[28] == e.modified.day as u8,
        entry_bytes(e)[29] == e.modified.month0 as u8,
        u16_at(entry_bytes(e), 30) == e.modified.year as u16,
{
    let head = le16(e.id) + seq![0u8, 0u8] + le32(e.size);
    let created = timestamp_bytes(e.created);
    let middle = le16(e.sector) + seq![0u8, 0u8] + zeros(4);
    let modified = timestamp_bytes(e.modified);
    let rest = zeros(32) + name_field(e.name@);
    let tail = if e.id == FILE_ID {
        e.contents.unwrap()@ + zeros(file_padding(e.size))
    } else {
        Seq::empty()
    };
    let b = entry_bytes(e);
    assert(b =~= head + created + middle + modified + (rest + tail));
    assert(head.len() == 8 && created.len() == 8 && middle.len() == 8 && modified.len() == 8);
    let after = created + middle + modified + (rest + tail);
    assert(b =~= le16(e.id) + seq![0u8, 0u8] + (le32(e.size) + after));
    lemma_le16_roundtrip(e.id, Seq::empty(), seq![0u8, 0u8] + (le32(e.size) + after));
    assert(Seq::<u8>::empty() + le16(e.id) + (seq![0u8, 0u8] + (le32(e.size) + after)) =~= b);
    lemma_le32_roundtrip(e.size, le16(e.id) + seq![0u8, 0u8], after);
    assert(le16(e.id) + seq![0u8, 0u8] + le32(e.size) + after =~= b);
    let ty = created.subrange(6, 8);
    assert(ty == le16(e.created.year as u16));
    lemma_le16_roundtrip(
        e.created.year as u16,
        head + created.subrange(0, 6),
        middle + modified + (rest + tail),
    );
    assert(head + created.subrange(0, 6) + le16(e.created.year as u16) + (middle + modified + (
    rest + tail)) =~= b);
    lemma_le16_roundtrip(
        e.sector,
        head + created,
        seq![0u8, 0u8] + zeros(4) + modified + (rest + tail),
    );
    assert(head + created + le16(e.sector) + (seq![0u8, 0u8] + zeros(4) + modified + (rest + tail))
        =~= b);
    let my = modified.subrange(6, 8);
    assert(my == le16(e.modified.year as u16));
    lemma_le16_roundtrip(
        e.modified.year as u16,
        head + created + middle + modified.subrange(0, 6),
        rest + tail,
    );
    assert(head + created + middle + modified.subrange(0, 6) + le16(e.modified.year as u16) + (rest
        + tail) =~= b);
}

/// Zero bytes that follow file contents of `size` bytes: up to the next
/// page boundary, none when `size` is already a multiple of the page size.
pub open spec fn file_padding(size: u32) -> nat {
    if size % 1024 == 0 {
        0
    } else {
        (1024 - size % 1024) as nat
    }
}

/// All bytes of one entry.
pub open spec fn entry_bytes(e: PSUEntry) -> Seq<u8> {
    entry_header(e) + if e.id == FILE_ID {
        e.contents.unwrap()@ + zeros(file_padding(e.size))
    } else {
        Seq::empty()
    }
}

/// Whether an entry can be serialised: its name fits and a file entry has
/// contents.
pub open spec fn entry_writable(e: PSUEntry) -> bool {
    &&& name_fits(e.name@)
    &&& (e.id == FILE_ID ==> e.contents is Some)
}

/// The serialised form of a list of entries: the entries one after another.
pub open spec fn archive_bytes(entries: Seq<PSUEntry>) -> Seq<u8>
    decreases entries.len(),
{
    if entries.len() == 0 {
        Seq::empty()
    } else {
        archive_bytes(entries.drop_last()) + entry_bytes(entries.last())
    }
}


/// Whether `e` is a directory entry called `name` of the given size, stamped
/// with `t`.
pub open spec fn is_dir_entry(e: PSUEntry, name: Seq<char>, size: u32, t: PsuTimestamp) -> bool {
    &&& e.id == DIR_ID
    &&& e.size == size
    &&& e.created == t
    &&& e.sector == 0
    &&& e.modified == t
    &&& e.name@ == name
    &&& e.kind == PSUEntryKind::Directory
    &&& e.contents is None
}

/// Whether `e` is a file entry called `name` holding `contents`.
pub open spec fn is_file_entry(
    e: PSUEntry,
    name: Seq<char>,
    contents: Seq<u8>,
    created: PsuTimestamp,
    modified: PsuTimestamp,
) -> bool {
    &&& e.id == FILE_ID
    &&& e.size == contents.len() as u32
    &&& e.created == created
    &&& e.sector == 0
    &&& e.modified == modified
    &&& e.name@ == name
    &&& e.kind == PSUEntryKind::File
    &&& e.contents matches Some(c) && c@ == contents
}

/// A directory entry.
pub fn dir_entry(name: &str, size: u32, timestamp: PsuTimestamp) -> (e: PSUEntry)
    ensures
        is_dir_entry(e, name@, size, timestamp),
{
    PSUEntry {
        id: DIR_ID,
        size,
        created: timestamp,
        sector: 0,
        modified: timestamp,
        name: name.to_owned(),
        kind: PSUEntryKind::Directory,
        contents: None,
    }
}

/// A file entry; its size is the length of `contents` cut to 32 bits.
pub fn file_entry(name: String, contents: Vec<u8>, created: PsuTimestamp, modified: PsuTimestamp) -> (e:
    PSUEntry)
    ensures
        is_file_entry(e, name@, contents@, created, modified),
{
    let size = contents.len() as u32;
    PSUEntry {
        id: FILE_ID,
        size,
        created,
        sector: 0,
        modified,
        name,
        kind: PSUEntryKind::File,
        contents: Some(contents),
    }
}

/// The entries of `entries` whose name differs from `name`, in order.
pub open spec fn entries_without(entries: Seq<PSUEntry>, name: Seq<char>) -> Seq<PSUEntry> {
    entries.filter(|e: PSUEntry| e.name@ != name)
}

proof fn lemma_without_step(s: Seq<PSUEntry>, j: int, name: Seq<char>)
    requires
        0 <= j < s.len(),
    ensures
        entries_without(s.take(j + 1), name) == if s[j].name@ != name {
            entries_without(s.take(j), name).push(s[j])
        } else {
            entries_without(s.take(j), name)
        },
{
    reveal(Seq::filter);
    assert(s.take(j + 1).drop_last() == s.take(j));
    assert(s.take(j + 1).last() == s[j]);
}

/// Whether the folder entry (the first) counts the other entries, `.` and
/// `..` among them.
pub open spec fn folder_count_consistent(entries: Seq<PSUEntry>) -> bool {
    entries.len() > 0 && entries[0].size == entries.len() - 1
}

/// Whether no two entries share a name.
pub open spec fn names_distinct(entries: Seq<PSUEntry>) -> bool {
    forall|i: int, j: int|
        0 <= i < j < entries.len() ==> (#[trigger] entries[i]).name@ != (#[trigger] entries[j]).name@
}

proof fn lemma_without_distinct(s: Seq<PSUEntry>, name: Seq<char>)
    requires
        names_distinct(s),
    ensures
        names_distinct(entries_without(s, name)),
        has_entry(s, name) ==> entries_without(s, name).len() == s.len() - 1,
        !has_entry(s, name) ==> entries_without(s, name) == s,
        forall|i: int|
            0 <= i < entries_without(s, name).len() ==> #[trigger] entries_without(s, name)[i].name@
                != name,
        forall|i: int|
            0 <= i < entries_without(s, name).len() ==> s.contains(
                #[trigger] entries_without(s, name)[i],
            ),
        s.len() > 0 && s[0].name@ != name ==> entries_without(s, name).len() > 0 && entries_without(
            s,
            name,
        )[0] == s[0],
    decreases s.len(),
{
    reveal(Seq::filter);
    if s.len() > 0 {
        let d = s.drop_last();
        assert(names_distinct(d)) by {
            assert forall|i: int, j: int| 0 <= i < j < d.len() implies (#[trigger] d[i]).name@ != (
            #[trigger] d[j]).name@ by {
                assert(d[i] == s[i] && d[j] == s[j]);
            }
        }
        lemma_without_distinct(d, name);
        let prev = entries_without(d, name);
        let x = s.last();
        assert(entries_without(s, name) == if x.name@ != name {
            prev.push(x)
        } else {
            prev
        });
        if x.name@ != name {
            let next = prev.push(x);
            assert forall|i: int| 0 <= i < next.len() implies s.contains(#[trigger] next[i]) by {
                if i < prev.len() {
                    assert(d.contains(prev[i]));
                    let k = choose|k: int| 0 <= k < d.len() && d[k] == prev[i];
                    assert(s[k] == prev[i]);
                } else {
                    assert(s[s.len() - 1] == x);
                }
            }
            assert forall|i: int, j: int| 0 <= i < j < next.len() implies (
            #[trigger] next[i]).name@ != (#[trigger] next[j]).name@ by {
                if j == prev.len() {
                    assert(d.contains(prev[i]));
                    let k = choose|k: int| 0 <= k < d.len() && d[k] == prev[i];
                    assert(s[k] == next[i] && s[s.len() - 1] == next[j]);
                } else {
                    assert(next[i] == prev[i] && next[j] == prev[j]);
                }
            }
            if has_entry(s, name) {
                let k = choose|k: int| 0 <= k < s.len() && (#[trigger] s[k]).name@ == name;
                assert(k < d.len());
                assert(d[k] == s[k]);
                assert(has_entry(d, name));
            } else {
                assert(!has_entry(d, name)) by {
                    if has_entry(d, name) {
                        let k = choose|k: int| 0 <= k < d.len() && (#[trigger] d[k]).name@ == name;
                        assert(s[k] == d[k]);
                    }
                }
                assert(prev.push(x) == s);
            }
            if s.len() > 1 && s[0].name@ != name {
                assert(d[0] == s[0]);
            }
        } else {
            assert(!has_entry(d, name)) by {
                if has_entry(d, name) {
                    let k = choose|k: int| 0 <= k < d.len() && (#[trigger] d[k]).name@ == name;
                    assert(s[k] == d[k]);
                    assert(s[s.len() - 1].name@ == name);
                }
            }
            assert(has_entry(s, name)) by {
                assert(s[s.len() - 1].name@ == name);
            }
            assert forall|i: int| 0 <= i < prev.len() implies s.contains(#[trigger] prev[i]) by {
                assert(d.contains(prev[i]));
                let k = choose|k: int| 0 <= k < d.len() && d[k] == prev[i];
                assert(s[k] == prev[i]);
            }
            if s.len() > 1 && s[0].name@ != name {
                assert(d[0] == s[0]);
            }
        }
    }
}

/// Whether some entry is called `name`.
pub open spec fn has_entry(entries: Seq<PSUEntry>, name: Seq<char>) -> bool {
    exists|i: int| 0 <= i < entries.len() && (#[trigger] entries[i]).name@ == name
}

impl PSU {
    /// An empty archive.
    pub fn new() -> (psu: Self)
        ensures
            psu.entries@.len() == 0,
    {
        PSU { entries: Vec::new() }
    }

    /// Appends the save folder called `name` and its `.` and `..` entries,
    /// all stamped with `timestamp`.  The folder starts out counting the two
    /// entries `.` and `..`.
    pub fn add_defaults(&mut self, name: &str, timestamp: PsuTimestamp)
        ensures
            final(self).entries@.len() == old(self).entries@.len() + 3,
            final(self).entries@.take(old(self).entries@.len() as int) == old(self).entries@,
            is_dir_entry(final(self).entries@[old(self).entries@.len() as int], name@, 2, timestamp),
            is_dir_entry(final(self).entries@[old(self).entries@.len() as int + 1], "."@, 0, timestamp),
            is_dir_entry(final(self).entries@[old(self).entries@.len() as int + 2], ".."@, 0, timestamp),
            old(self).entries@.len() == 0 ==> folder_count_consistent(final(self).entries@),
            old(self).entries@.len() == 0 && name@ != "."@ && name@ != ".."@ ==> names_distinct(
                final(self).entries@,
            ),
    {
        proof {
            reveal_strlit(".");
            reveal_strlit("..");
        }
        self.entries.push(dir_entry(name, 2, timestamp));
        self.entries.push(dir_entry(".", 0, timestamp));
        self.entries.push(dir_entry("..", 0, timestamp));
        proof {
            assert("."@.len() != ".."@.len());
            let e = self.entries@;
            if old(self).entries@.len() == 0 && name@ != "."@ && name@ != ".."@ {
                assert forall|i: int, j: int| 0 <= i < j < e.len() implies (#[trigger] e[i]).name@
                    != (#[trigger] e[j]).name@ by {
                    if i == 1 {
                        assert(e[i].name@ == "."@ && e[j].name@ == ".."@);
                    }
                }
            }
        }
    }

    /// Appends a file entry and counts it in the folder entry (the first
    /// entry).
    pub fn add_file_entry(
        &mut self,
        name: String,
        contents: Vec<u8>,
        created: PsuTimestamp,
        modified: PsuTimestamp,
    )
        requires
            old(self).entries@.len() > 0,
            old(self).entries@[0].size < u32::MAX,
        ensures
            final(self).entries@.len() == old(self).entries@.len() + 1,
            final(self).entries@[0].size == old(self).entries@[0].size + 1,
            final(self).entries@[0].id == old(self).entries@[0].id,
            final(self).entries@[0].created == old(self).entries@[0].created,
            final(self).entries@[0].sector == old(self).entries@[0].sector,
            final(self).entries@[0].modified == old(self).entries@[0].modified,
            final(self).entries@[0].name == old(self).entries@[0].name,
            final(self).entries@[0].kind == old(self).entries@[0].kind,
            final(self).entries@[0].contents == old(self).entries@[0].contents,
            forall|i: int|
                1 <= i < old(self).entries@.len() ==> final(self).entries@[i] == old(
                    self,
                ).entries@[i],
            is_file_entry(
                final(self).entries@[old(self).entries@.len() as int],
                name@,
                contents@,
                created,
                modified,
            ),
            folder_count_consistent(old(self).entries@) ==> folder_count_consistent(
                final(self).entries@,
            ),
            names_distinct(old(self).entries@) && !has_entry(old(self).entries@, name@)
                ==> names_distinct(final(self).entries@),
    {
        let ghost before = self.entries@;
        let ghost nm = name@;
        self.entries.push(file_entry(name, contents, created, modified));
        self.entries[0].size = self.entries[0].size + 1;
        proof {
            let after = self.entries@;
            if names_distinct(before) && !has_entry(before, nm) {
                assert forall|i: int, j: int| 0 <= i < j < after.len() implies (
                #[trigger] after[i]).name@ != (#[trigger] after[j]).name@ by {
                    if j == before.len() {
                        assert(after[i].name == before[i].name);
                        if before[i].name@ == nm {
                            assert(has_entry(before, nm));
                        }
                    } else {
                        assert(after[i].name == before[i].name && after[j].name == before[j].name);
                    }
                }
            }
        }
    }

    /// Removes every entry called `entry_name` and uncounts one entry from
    /// the folder entry (the first remaining entry).  Fails when no entry has
    /// that name.
    pub fn remove_entry(&mut self, entry_name: &String) -> (r: Result<(), String>)
        requires
            has_entry(old(self).entries@, entry_name@) ==> {
                let kept = entries_without(old(self).entries@, entry_name@);
                kept.len() > 0 && kept[0].size > 0
            },
        ensures
            r is Err <==> !has_entry(old(self).entries@, entry_name@),
            r is Err ==> final(self).entries@ == old(self).entries@,
            r matches Err(m) ==> m@ == "Entry does not exist"@,
            r is Ok ==> {
                let kept = entries_without(old(self).entries@, entry_name@);
                &&& final(self).entries@.len() == kept.len()
                &&& final(self).entries@[0].size == kept[0].size - 1
                &&& final(self).entries@[0].name == kept[0].name
                &&& final(self).entries@[0].id == kept[0].id
                &&& final(self).entries@[0].kind == kept[0].kind
                &&& final(self).entries@[0].contents == kept[0].contents
                &&& final(self).entries@[0].created == kept[0].created
                &&& final(self).entries@[0].modified == kept[0].modified
                &&& final(self).entries@[0].sector == kept[0].sector
                &&& forall|i: int| 1 <= i < kept.len() ==> final(self).entries@[i] == kept[i]
            },
            folder_count_consistent(old(self).entries@) && names_distinct(old(self).entries@)
                && old(self).entries@[0].name@ != entry_name@ ==> folder_count_consistent(
                final(self).entries@,
            ) && names_distinct(final(self).entries@),
    {
        proof {
            if names_distinct(self.entries@) {
                lemma_without_distinct(self.entries@, entry_name@);
            }
        }
        let ghost orig = self.entries@;
        let mut found = false;
        let mut k: usize = 0;
        while k < self.entries.len()
            invariant
                self.entries@ == orig,
                k <= orig.len(),
                found <==> exists|j: int| 0 <= j < k && (#[trigger] orig[j]).name@ == entry_name@,
            decreases self.entries.len() - k,
        {
            if self.entries[k].name == *entry_name {
                found = true;
            }
            k = k + 1;
        }
        if !found {
            return Err("Entry does not exist".to_owned());
        }
        let mut i: usize = 0;
        let ghost mut j: int = 0;
        while i < self.entries.len()
            invariant
                0 <= j <= orig.len(),
                i <= self.entries@.len(),
                self.entries@.len() == i + (orig.len() - j),
                self.entries@.take(i as int) == entries_without(orig.take(j), entry_name@),
                self.entries@.skip(i as int) == orig.skip(j),
            decreases self.entries@.len() - i,
        {
            proof {
                assert(self.entries@[i as int] == orig[j]) by {
                    assert(self.entries@.skip(i as int)[0] == orig.skip(j)[0]);
                }
                lemma_without_step(orig, j, entry_name@);
            }
            if self.entries[i].name == *entry_name {
                let ghost before = self.entries@;
                let _removed = self.entries.remove(i);
                proof {
                    assert(self.entries@.take(i as int) == before.take(i as int));
                    assert(self.entries@.skip(i as int) == before.skip(i + 1));
                    assert(orig.skip(j + 1) == orig.skip(j).skip(1));
                    assert(before.skip(i + 1) == before.skip(i as int).skip(1));
                    j = j + 1;
                }
            } else {
                proof {
                    assert(self.entries@.take(i + 1) == self.entries@.take(i as int).push(
                        self.entries@[i as int],
                    ));
                    assert(self.entries@.skip(i + 1) == self.entries@.skip(i as int).skip(1));
                    assert(orig.skip(j + 1) == orig.skip(j).skip(1));
                    j = j + 1;
                }
                i = i + 1;
            }
        }
        proof {
            assert(orig.take(j) == orig);
            assert(self.entries@.take(i as int) == self.entries@);
        }
        let ghost kept = self.entries@;
        self.entries[0].size = self.entries[0].size - 1;
        proof {
            let after = self.entries@;
            if names_distinct(orig) {
                assert forall|i: int, j: int| 0 <= i < j < after.len() implies (
                #[trigger] after[i]).name@ != (#[trigger] after[j]).name@ by {
                    assert(after[i].name == kept[i].name && after[j].name == kept[j].name);
                }
            }
        }
        Ok(())
    }
}

impl Default for PSU {
    fn default() -> (psu: Self)
        ensures
            psu.entries@.len() == 0,
    {
        PSU { entries: Vec::new() }
    }
}

/// Encodes a timestamp.
pub fn timestamp_to_bytes(timestamp: PsuTimestamp) -> (data: Vec<u8>)
    ensures
        data@ == timestamp_bytes(timestamp),
{
    let mut data: Vec<u8> = Vec::new();
    data.push(0u8);
    data.push(timestamp.second as u8);
    data.push(timestamp.minute as u8);
    data.push(timestamp.hour as u8);
    data.push(timestamp.day as u8);
    data.push(timestamp.month0 as u8);
    push_u16_le(&mut data, timestamp.year as u16);
    data
}

/// Encodes an entry name into its 448-byte field.
pub fn encode_string(string: &str) -> (data: Vec<u8>)
    requires
        name_fits(string@),
    ensures
        data@ == name_field(string@),
{
    let remainder = NAME_FIELD_LEN - string.len();
    let chars = chars_of(string);
    let mut data: Vec<u8> = Vec::new();
    let mut i: usize = 0;
    while i < chars.len()
        invariant
            i <= chars@.len(),
            data@ == chars@.take(i as int).map_values(|c: char| c as u8),
        decreases chars.len() - i,
    {
        data.push(chars[i] as u8);
        assert(chars@.take(i + 1) == chars@.take(i as int).push(chars@[i as int]));
        i = i + 1;
    }
    assert(chars@.take(chars@.len() as int) == chars@);
    push_zeros(&mut data, remainder);
    data
}

/// Serialises one entry.
pub fn write_entry(entry: &PSUEntry) -> (data: Vec<u8>)
    requires
        entry_writable(*entry),
    ensures
        data@ == entry_bytes(*entry),
{
    let mut data: Vec<u8> = Vec::new();
    push_u16_le(&mut data, entry.id);
    push_u16_le(&mut data, 0);
    push_u32_le(&mut data, entry.size);
    let created = timestamp_to_bytes(entry.created);
    push_all(&mut data, created.as_slice());
    push_u16_le(&mut data, entry.sector);
    push_u16_le(&mut data, 0);
    push_u32_le(&mut data, 0);
    let modified = timestamp_to_bytes(entry.modified);
    push_all(&mut data, modified.as_slice());
    push_zeros(&mut data, 32);
    let name = encode_string(entry.name.as_str());
    push_all(&mut data, name.as_slice());
    assert(le16(0) == seq![0u8, 0u8]);
    assert(le32(0) == zeros(4));
    assert(data@ == entry_header(*entry));
    if entry.id == FILE_ID {
        match &entry.contents {
            Some(contents) => push_all(&mut data, contents.as_slice()),
            None => {},
        }
        let rem = 1024 - (entry.size % 1024);
        let rem = if rem == PAGE_SIZE { 0 } else { rem };
        push_zeros(&mut data, rem as usize);
    }
    data
}

/// Writes archives.
pub struct PSUWriter {
    psu: PSU,
}

impl PSUWriter {
    pub fn new(psu: PSU) -> (w: Self)
        ensures
            w.archive() == psu,
    {
        PSUWriter { psu }
    }

    /// The archive this writer serialises.
    pub closed spec fn archive(&self) -> PSU {
        self.psu
    }

    /// The archive's bytes: every entry, in order.  Writing to memory
    /// cannot fail, so the result is always `Ok`.
    pub fn to_bytes(&self) -> (r: Result<Vec<u8>, std::io::Error>)
        requires
            forall|i: int| 0 <= i < self.archive().entries@.len() ==> entry_writable(
                #[trigger] self.archive().entries@[i],
            ),
        ensures
            r matches Ok(data) && data@ == archive_bytes(self.archive().entries@),
    {
        let entries = &self.psu.entries;
        assert(entries@ == self.archive().entries@);
        let mut data: Vec<u8> = Vec::new();
        let mut i: usize = 0;
        while i < entries.len()
            invariant
                i <= entries@.len(),
                forall|k: int| 0 <= k < entries@.len() ==> entry_writable(#[trigger] entries@[k]),
                data@ == archive_bytes(entries@.take(i as int)),
            decreases entries.len() - i,
        {
            let bytes = write_entry(&entries[i]);
            push_all(&mut data, bytes.as_slice());
            assert(entries@.take(i + 1).drop_last() == entries@.take(i as int));
            i = i + 1;
        }
        assert(entries@.take(entries@.len() as int) == entries@);
        Ok(data)
    }
}

} // verus!
