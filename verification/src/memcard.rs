//! A PlayStation 2 memory-card image: its superblock, its file allocation
//! table and the directory entries and file data reached through it.
use vstd::prelude::*;
use crate::bytes::{u16_at, u32_at, read_u16_le, read_u32_le};
use crate::io_error::unexpected_eof;

verus! {

pub const DF_READ: u16 = 0x0001;
pub const DF_WRITE: u16 = 0x0002;
pub const DF_EXECUTE: u16 = 0x0004;
pub const DF_PROTECTED: u16 = 0x0008;
pub const DF_FILE: u16 = 0x0010;
pub const DF_DIRECTORY: u16 = 0x0020;
pub const DF_0400: u16 = 0x0400;
pub const DF_EXISTS: u16 = 0x8000;
pub const DF_HIDDEN: u16 = 0x2000;

/// Length of a directory entry on the card.
pub const DIR_ENTRY_LEN: usize = 512;

/// Bytes a directory entry needs to be read: everything up to the end of
/// its name.
pub const DIR_ENTRY_MIN_LEN: usize = 96;

/// Bytes the superblock occupies.
pub const SUPERBLOCK_LEN: usize = 338;

/// A date and time as a directory entry stores it.
#[derive(Debug, Clone, Copy)]
pub struct DateTime {
    seconds: u8,
    minutes: u8,
    hours: u8,
    days: u8,
    months: u8,
    years: u16,
}

impl DateTime {
    pub closed spec fn fields(self) -> (u8, u8, u8, u8, u8, u16) {
        (self.seconds, self.minutes, self.hours, self.days, self.months, self.years)
    }

    /// The seconds of the minute.
    pub closed spec fn second(self) -> u8 {
        self.seconds
    }

    /// The minutes of the hour.
    pub closed spec fn minute(self) -> u8 {
        self.minutes
    }

    /// The hour of the day.
    pub closed spec fn hour(self) -> u8 {
        self.hours
    }

    /// The day of the month.
    pub closed spec fn day(self) -> u8 {
        self.days
    }

    /// The month.
    pub closed spec fn month(self) -> u8 {
        self.months
    }

    /// The year.
    pub closed spec fn year(self) -> u16 {
        self.years
    }

    /// Reads the eight bytes of a date: a reserved byte, then seconds,
    /// minutes, hours, day, month and the year in little-endian order.
    fn from_bytes(bytes: &[u8]) -> (d: DateTime)
        requires
            bytes@.len() >= 8,
        ensures
            d.fields() == date_fields(bytes@),
    {
        let seconds = bytes[1];
        let minutes = bytes[2];
        let hours = bytes[3];
        let days = bytes[4];
        let months = bytes[5];
        let years = read_u16_le(bytes, 6);
        DateTime { seconds, minutes, hours, days, months, years }
    }
}

/// The fields of the date stored at the start of `b`.
pub open spec fn date_fields(b: Seq<u8>) -> (u8, u8, u8, u8, u8, u16) {
    (b[1], b[2], b[3], b[4], b[5], u16_at(b, 6))
}

/// A directory entry of the card.
#[derive(Debug, Clone, Copy)]
pub struct DirEntry {
    pub mode: u16,
    pub length: u32,
    pub created: DateTime,
    pub cluster: u32,
    pub dir_entry: u32,
    pub modified: DateTime,
    pub attributes: u32,
    pub name: [u8; 32],
}

impl DirEntry {
    /// Reads an entry: the mode at 0, the length at 4, the creation date at
    /// 8, the first cluster at 16, the parent's entry index at 20, the
    /// modification date at 24, the attributes at 32 and the 32-byte name at
    /// 64.  Fails when fewer than 96 bytes are given.
    pub fn from_bytes(bytes: &[u8]) -> (r: std::io::Result<DirEntry>)
        ensures
            r is Ok <==> bytes@.len() >= DIR_ENTRY_MIN_LEN,
            r matches Ok(e) ==> entry_matches(e, bytes@),
    {
        if bytes.len() < DIR_ENTRY_MIN_LEN {
            return Err(unexpected_eof());
        }
        let mode = read_u16_le(bytes, 0);
        let length = read_u32_le(bytes, 4);
        let created = DateTime::from_bytes(&bytes[8..16]);
        let cluster = read_u32_le(bytes, 16);
        let dir_entry = read_u32_le(bytes, 20);
        let modified = DateTime::from_bytes(&bytes[24..32]);
        let attributes = read_u32_le(bytes, 32);
        let mut name = [0u8; 32];
        let mut i: usize = 0;
        while i < 32
            invariant
                i <= 32,
                bytes@.len() >= 96,
                name@.len() == 32,
                forall|j: int| 0 <= j < i ==> name@[j] == bytes@[64 + j],
            decreases 32 - i,
        {
            name[i] = bytes[64 + i];
            i = i + 1;
        }
        let e = DirEntry { mode, length, created, cluster, dir_entry, modified, attributes, name };
        assert(e.name@ == bytes@.subrange(64, 96));
        assert(bytes@.subrange(8, 16) == bytes@.subrange(8, 16));
        Ok(e)
    }
}

/// Whether `e` holds what the bytes `b` of an entry say.
pub open spec fn entry_matches(e: DirEntry, b: Seq<u8>) -> bool {
    &&& e.mode == u16_at(b, 0)
    &&& e.length == u32_at(b, 4)
    &&& e.created.fields() == date_fields(b.subrange(8, 16))
    &&& e.cluster == u32_at(b, 16)
    &&& e.dir_entry == u32_at(b, 20)
    &&& e.modified.fields() == date_fields(b.subrange(24, 32))
    &&& e.attributes == u32_at(b, 32)
    &&& e.name@ == b.subrange(64, 96)
}

/// Where a directory entry's dates come from: the creation date's seconds,
/// minutes, hours, day and month are bytes 9 to 13 of the entry and its
/// year the little-endian word at 14; the modification date is laid out the
/// same way 16 bytes further on.
pub proof fn lemma_entry_dates_by_field(e: DirEntry, b: Seq<u8>)
    requires
        b.len() >= DIR_ENTRY_MIN_LEN,
        entry_matches(e, b),
    ensures
        e.created.second() == b[9],
        e.created.minute() == b[10],
        e.created.hour() == b[11],
        e.created.day() == b[12],
        e.created.month() == b[13],
        e.created.year() == b[14] as int + b[15] as int * 256,
        e.modified.second() == b[25],
        e.modified.minute() == b[26],
        e.modified.hour() == b[27],
        e.modified.day() == b[28],
        e.modified.month() == b[29],
        e.modified.year() == b[30] as int + b[31] as int * 256,
{
    let c = b.subrange(8, 16);
    let m = b.subrange(24, 32);
    assert(c[1] == b[9] && c[2] == b[10] && c[3] == b[11] && c[4] == b[12] && c[5] == b[13]);
    assert(c[6] == b[14] && c[7] == b[15]);
    assert(m[1] == b[25] && m[2] == b[26] && m[3] == b[27] && m[4] == b[28] && m[5] == b[29]);
    assert(m[6] == b[30] && m[7] == b[31]);
}

/// The superblock at the start of a card.
#[derive(Debug)]
pub struct Superblock {
    pub magic: [u8; 28],
    pub version: [u8; 12],
    pub page_size: u16,
    pub pages_per_cluster: u16,
    pub pages_per_block: u16,
    pub clusters_per_card: u32,
    pub alloc_offset: u32,
    pub alloc_end: u32,
    pub rootdir_cluster: u32,
    pub backup_block1: u32,
    pub backup_block2: u32,
    pub ifc_list: [u32; 32],
    pub bad_block_list: [u32; 32],
    pub card_type: u8,
    pub card_flags: u8,
}

/// The 32 little-endian words stored from `pos` on.
pub open spec fn words_at(b: Seq<u8>, pos: int) -> Seq<u32> {
    Seq::new(32, |i: int| u32_at(b, pos + 4 * i))
}

/// Whether `sb` holds what the superblock bytes `b` say: the magic and
/// version strings, the page size, pages per cluster and per block at 40,
/// 42 and 44, six words from 48 (clusters per card, allocation offset and
/// end, root directory cluster, two backup blocks), the indirect FAT
/// cluster list at 80, the bad block list at 208, and the card type and
/// flags at 336 and 337.
pub open spec fn superblock_matches(sb: Superblock, b: Seq<u8>) -> bool {
    &&& sb.magic@ == b.subrange(0, 28)
    &&& sb.version@ == b.subrange(28, 40)
    &&& sb.page_size == u16_at(b, 40)
    &&& sb.pages_per_cluster == u16_at(b, 42)
    &&& sb.pages_per_block == u16_at(b, 44)
    &&& sb.clusters_per_card == u32_at(b, 48)
    &&& sb.alloc_offset == u32_at(b, 52)
    &&& sb.alloc_end == u32_at(b, 56)
    &&& sb.rootdir_cluster == u32_at(b, 60)
    &&& sb.backup_block1 == u32_at(b, 64)
    &&& sb.backup_block2 == u32_at(b, 68)
    &&& sb.ifc_list@ == words_at(b, 80)
    &&& sb.bad_block_list@ == words_at(b, 208)
    &&& sb.card_type == b[336]
    &&& sb.card_flags == b[337]
}

fn read_words(data: &[u8], pos: usize) -> (w: [u32; 32])
    requires
        pos + 128 <= data@.len(),
    ensures
        w@ == words_at(data@, pos as int),
{
    let mut w = [0u32; 32];
    let mut i: usize = 0;
    while i < 32
        invariant
            i <= 32,
            pos + 128 <= data.len(),
            w@.len() == 32,
            forall|j: int| 0 <= j < i ==> w@[j] == u32_at(data@, pos + 4 * j),
        decreases 32 - i,
    {
        w[i] = read_u32_le(data, pos + 4 * i);
        i = i + 1;
    }
    assert(w@ == words_at(data@, pos as int));
    w
}

fn read_byte_array<const N: usize>(data: &[u8], pos: usize) -> (a: [u8; N])
    requires
        pos + N <= data@.len(),
    ensures
        a@ == data@.subrange(pos as int, pos + N),
{
    let mut a = [0u8; N];
    let mut i: usize = 0;
    while i < N
        invariant
            i <= N,
            pos + N <= data.len(),
            a@.len() == N,
            forall|j: int| 0 <= j < i ==> a@[j] == data@[pos + j],
        decreases N - i,
    {
        a[i] = data[pos + i];
        i = i + 1;
    }
    assert(a@ == data@.subrange(pos as int, pos + N));
    a
}

/// Reads the superblock at the start of `data`; fails when `data` is
/// shorter than the 338 bytes it occupies.
fn read_superblock(data: &[u8]) -> (r: std::io::Result<Superblock>)
    ensures
        r is Ok <==> data@.len() >= SUPERBLOCK_LEN,
        r matches Ok(sb) ==> superblock_matches(sb, data@),
{
    if data.len() < SUPERBLOCK_LEN {
        return Err(unexpected_eof());
    }
    let magic: [u8; 28] = read_byte_array(data, 0);
    let version: [u8; 12] = read_byte_array(data, 28);
    let sb = Superblock {
        magic,
        version,
        page_size: read_u16_le(data, 40),
        pages_per_cluster: read_u16_le(data, 42),
        pages_per_block: read_u16_le(data, 44),
        clusters_per_card: read_u32_le(data, 48),
        alloc_offset: read_u32_le(data, 52),
        alloc_end: read_u32_le(data, 56),
        rootdir_cluster: read_u32_le(data, 60),
        backup_block1: read_u32_le(data, 64),
        backup_block2: read_u32_le(data, 68),
        ifc_list: read_words(data, 80),
        bad_block_list: read_words(data, 208),
        card_type: data[336],
        card_flags: data[337],
    };
    Ok(sb)
}

/// The cluster number that ends a chain in the allocation table.
pub const CHAIN_END: u32 = 0x7FFF_FFFF;

/// The geometry and bytes of a card, as its contracts speak of them.
pub struct CardView {
    pub data: Seq<u8>,
    pub page_size: nat,
    pub pages_per_cluster: nat,
    pub raw_page_size: nat,
    pub cluster_size: nat,
    pub fat_per_cluster: nat,
    pub alloc_offset: nat,
}

/// A memory-card image and its file allocation table.
pub struct Memcard {
    data: Vec<u8>,
    page_size: usize,
    pages_per_cluster: usize,
    ifc_list: [u32; 32],
    rootdir_cluster: usize,
    alloc_offset: usize,
    spare_size: usize,
    raw_page_size: usize,
    cluster_size: usize,
    fat_per_cluster: usize,
    fat_matrix: Vec<Vec<u32>>,
    root_entry: Option<DirEntry>,
    entries_in_root: Vec<DirEntry>,
}

impl View for Memcard {
    type V = CardView;

    closed spec fn view(&self) -> CardView {
        CardView {
            data: self.data@,
            page_size: self.page_size as nat,
            pages_per_cluster: self.pages_per_cluster as nat,
            raw_page_size: self.raw_page_size as nat,
            cluster_size: self.cluster_size as nat,
            fat_per_cluster: self.fat_per_cluster as nat,
            alloc_offset: self.alloc_offset as nat,
        }
    }
}

/// The bytes of page `n`: `page_size` bytes from `raw_page_size * n` on,
/// zero past the end of the image.
pub open spec fn page_bytes(m: CardView, n: u32) -> Seq<u8> {
    Seq::new(
        m.page_size,
        |i: int|
            if m.raw_page_size * n + i < m.data.len() {
                m.data[m.raw_page_size * n + i]
            } else {
                0u8
            },
    )
}

/// The number of the `i`-th page of cluster `n`, cut to 32 bits.
pub open spec fn page_number(m: CardView, n: u32, i: nat) -> u32 {
    (n * m.pages_per_cluster + i) as u32
}

/// The first `count` pages of cluster `n`, one after another.
pub open spec fn cluster_pages(m: CardView, n: u32, count: nat) -> Seq<u8>
    decreases count,
{
    if count == 0 {
        Seq::empty()
    } else {
        cluster_pages(m, n, (count - 1) as nat) + page_bytes(m, page_number(m, n, (count - 1) as nat))
    }
}

/// The bytes of cluster `n`: its pages one after another.
pub open spec fn cluster_bytes(m: CardView, n: u32) -> Seq<u8> {
    cluster_pages(m, n, m.pages_per_cluster)
}

/// The first `count` little-endian words of `b`.
pub open spec fn fat_row(b: Seq<u8>, count: nat) -> Seq<u32> {
    Seq::new(count, |i: int| u32_at(b, 4 * i))
}

/// The table rows read from the given clusters.
pub open spec fn matrix_rows(m: CardView, clusters: Seq<u32>) -> Seq<Seq<u32>> {
    clusters.map_values(|c: u32| fat_row(cluster_bytes(m, c), m.fat_per_cluster))
}

/// The rows one after another.
pub open spec fn flatten_rows(rows: Seq<Seq<u32>>) -> Seq<u32>
    decreases rows.len(),
{
    if rows.len() == 0 {
        Seq::empty()
    } else {
        flatten_rows(rows.drop_last()) + rows.last()
    }
}

/// The clusters holding the allocation table: the entries of the rows read
/// from the indirect clusters `ifc`, other than `0xFFFFFFFF`.
pub open spec fn fat_clusters(m: CardView, ifc: Seq<u32>) -> Seq<u32> {
    flatten_rows(matrix_rows(m, ifc)).filter(|c: u32| c != 0xFFFF_FFFFu32)
}

/// Whether cluster `n` has an entry in the table `fat`.
pub open spec fn fat_index_ok(m: CardView, fat: Seq<Seq<u32>>, n: u32) -> bool {
    &&& m.fat_per_cluster > 0
    &&& (n as nat / m.fat_per_cluster) % m.fat_per_cluster < fat.len()
}

/// The table entry of cluster `n`, without its top bit.
pub open spec fn fat_value(m: CardView, fat: Seq<Seq<u32>>, n: u32) -> u32 {
    let v = fat[((n as nat / m.fat_per_cluster) % m.fat_per_cluster) as int][(n as nat % m.fat_per_cluster) as int];
    if v >= 0x8000_0000 {
        (v - 0x8000_0000) as u32
    } else {
        v
    }
}

/// The cluster `k` steps down the chain from `x`.
pub open spec fn chain_at(m: CardView, fat: Seq<Seq<u32>>, x: u32, k: nat) -> u32
    decreases k,
{
    if k == 0 {
        x
    } else {
        chain_at(m, fat, fat_value(m, fat, x), (k - 1) as nat)
    }
}

/// Whether the chain from `x` reaches its end after exactly `k` clusters,
/// each with an entry in the table.
pub open spec fn chain_ends(m: CardView, fat: Seq<Seq<u32>>, x: u32, k: nat) -> bool {
    &&& chain_at(m, fat, x, k) == CHAIN_END
    &&& forall|j: nat|
        j < k ==> #[trigger] chain_at(m, fat, x, j) != CHAIN_END && fat_index_ok(
            m,
            fat,
            chain_at(m, fat, x, j),
        )
}

/// Whether every cluster of the chain from `x`, `k` long, plus the
/// allocation offset stays within 32 bits.
pub open spec fn chain_in_range(m: CardView, fat: Seq<Seq<u32>>, x: u32, k: nat) -> bool {
    forall|j: nat| j < k ==> #[trigger] chain_at(m, fat, x, j) + m.alloc_offset <= u32::MAX
}

proof fn lemma_chain_step(m: CardView, fat: Seq<Seq<u32>>, x: u32, k: nat)
    requires
        chain_ends(m, fat, x, k),
        x != CHAIN_END,
    ensures
        k > 0,
        fat_index_ok(m, fat, x),
        chain_ends(m, fat, fat_value(m, fat, x), (k - 1) as nat),
        chain_in_range(m, fat, x, k) ==> x + m.alloc_offset <= u32::MAX && chain_in_range(
            m,
            fat,
            fat_value(m, fat, x),
            (k - 1) as nat,
        ),
{
    assert(chain_at(m, fat, x, 0) == x);
    let y = fat_value(m, fat, x);
    assert forall|j: nat| j < (k - 1) as nat implies #[trigger] chain_at(m, fat, y, j) != CHAIN_END
        && fat_index_ok(m, fat, chain_at(m, fat, y, j)) by {
        assert(chain_at(m, fat, x, j + 1) == chain_at(m, fat, y, j));
    }
    assert(chain_at(m, fat, x, k) == chain_at(m, fat, y, (k - 1) as nat));
    if chain_in_range(m, fat, x, k) {
        assert forall|j: nat| j < (k - 1) as nat implies #[trigger] chain_at(m, fat, y, j)
            + m.alloc_offset <= u32::MAX by {
            assert(chain_at(m, fat, x, j + 1) == chain_at(m, fat, y, j));
        }
    }
}

proof fn lemma_chain_end(m: CardView, fat: Seq<Seq<u32>>, x: u32, k: nat)
    requires
        chain_ends(m, fat, x, k),
        x == CHAIN_END,
    ensures
        k == 0,
{
    if k > 0 {
        assert(chain_at(m, fat, x, 0) == x);
    }
}

/// The cluster that directory cluster `c` is stored in: `c` past the
/// allocation offset, cut to 32 bits.
pub open spec fn entry_cluster(m: CardView, c: u32) -> u32 {
    (c + m.alloc_offset) as u32
}

/// The 512-byte blocks of `b`; bytes after the last whole block are left
/// out.
pub open spec fn entry_blocks(b: Seq<u8>) -> Seq<Seq<u8>> {
    Seq::new(b.len() / 512, |i: int| b.subrange(512 * i, 512 * i + 512))
}

/// The entry blocks of the directory clusters of the chain from `x`, `k`
/// clusters long, in order.
pub open spec fn chain_entry_blocks(m: CardView, fat: Seq<Seq<u32>>, x: u32, k: nat) -> Seq<
    Seq<u8>,
>
    decreases k,
{
    if k == 0 {
        Seq::empty()
    } else {
        entry_blocks(cluster_bytes(m, entry_cluster(m, x))) + chain_entry_blocks(
            m,
            fat,
            fat_value(m, fat, x),
            (k - 1) as nat,
        )
    }
}

/// The data of the chain from `x`, `k` clusters long: of each cluster as
/// many bytes as remain of `remaining`, at most a whole cluster.
pub open spec fn chain_data(m: CardView, fat: Seq<Seq<u32>>, x: u32, remaining: nat, k: nat) -> Seq<
    u8,
>
    decreases k,
{
    if k == 0 {
        Seq::empty()
    } else {
        let to_read = if remaining < m.cluster_size {
            remaining
        } else {
            m.cluster_size
        };
        cluster_bytes(m, (x + m.alloc_offset) as u32).take(to_read as int) + chain_data(
            m,
            fat,
            fat_value(m, fat, x),
            (remaining - to_read) as nat,
            (k - 1) as nat,
        )
    }
}

proof fn lemma_cluster_pages_len(m: CardView, n: u32, count: nat)
    ensures
        cluster_pages(m, n, count).len() == count * m.page_size,
    decreases count,
{
    if count == 0 {
        assert(cluster_pages(m, n, count).len() == 0);
        assert(count * m.page_size == 0);
    } else {
        let c1 = (count - 1) as nat;
        lemma_cluster_pages_len(m, n, c1);
        assert(cluster_pages(m, n, count) == cluster_pages(m, n, c1) + page_bytes(
            m,
            page_number(m, n, c1),
        ));
        assert(page_bytes(m, page_number(m, n, c1)).len() == m.page_size);
        assert(c1 * m.page_size + m.page_size == count * m.page_size) by (nonlinear_arith)
            requires
                c1 + 1 == count,
        ;
    }
}

impl Memcard {
    #[verifier::type_invariant]
    closed spec fn inv(&self) -> bool {
        &&& self.page_size <= 0xFFFF
        &&& self.pages_per_cluster <= 0xFFFF
        &&& self.spare_size == (self.page_size / 128) * 4
        &&& self.raw_page_size == self.page_size + self.spare_size
        &&& self.cluster_size == self.page_size * self.pages_per_cluster
        &&& self.fat_per_cluster == self.cluster_size / 4
        &&& self.alloc_offset <= u32::MAX
        &&& self.rootdir_cluster <= u32::MAX
        &&& forall|i: int|
            0 <= i < self.fat_matrix@.len() ==> (#[trigger] self.fat_matrix@[i])@.len()
                == self.fat_per_cluster
    }

    /// The allocation table, row by row.
    pub closed spec fn fat(&self) -> Seq<Seq<u32>> {
        self.fat_matrix@.map_values(|r: Vec<u32>| r@)
    }

    /// The cluster of the root directory.
    pub closed spec fn rootdir_cluster_spec(&self) -> nat {
        self.rootdir_cluster as nat
    }

    /// The cluster of the root directory, relative to the allocation offset.
    pub fn rootdir_cluster(&self) -> (c: usize)
        ensures
            c == self.rootdir_cluster_spec(),
    {
        self.rootdir_cluster
    }

    /// Reads page `n`.
    fn read_page(&self, n: u32) -> (r: Vec<u8>)
        ensures
            r@ == page_bytes(self@, n),
    {
        proof {
            use_type_invariant(self);
        }
        let raw = self.raw_page_size as u64;
        assert(raw * n <= 0x2_0000 * 0x1_0000_0000) by (nonlinear_arith)
            requires
                raw <= 0x2_0000,
        ;
        let offset: u64 = raw * (n as u64);
        let dlen: usize = self.data.len();
        let len = dlen as u64;
        let mut buffer: Vec<u8> = Vec::new();
        let mut i: usize = 0;
        while i < self.page_size
            invariant
                i <= self.page_size,
                offset == self@.raw_page_size * n,
                offset <= 0x2_0000 * 0x1_0000_0000,
                self.page_size <= 0xFFFF,
                len == self@.data.len(),
                len == dlen,
                dlen == self.data@.len(),
                buffer@ == page_bytes(self@, n).take(i as int),
            decreases self.page_size - i,
        {
            let pos = offset + i as u64;
            if pos < len {
                assert(pos < self.data@.len());
                let p = pos as usize;
                assert(p == self@.raw_page_size * n + i);
                buffer.push(self.data[p]);
            } else {
                buffer.push(0u8);
            }
            assert(page_bytes(self@, n)[i as int] == buffer@[i as int]);
            assert(page_bytes(self@, n).take(i + 1) == page_bytes(self@, n).take(i as int).push(
                buffer@[i as int],
            ));
            i = i + 1;
        }
        assert(page_bytes(self@, n).take(self.page_size as int) == page_bytes(self@, n));
        buffer
    }

    /// Reads cluster `n`: its pages one after another.
    fn read_cluster(&self, n: u32) -> (r: Vec<u8>)
        ensures
            r@ == cluster_bytes(self@, n),
            r@.len() == self@.cluster_size,
    {
        proof {
            use_type_invariant(self);
        }
        let ppc = self.pages_per_cluster;
        assert(n * ppc <= 0x1_0000_0000 * 0x1_0000) by (nonlinear_arith)
            requires
                ppc <= 0xFFFF,
                n <= u32::MAX,
        ;
        let page_index: u64 = (n as u64) * (ppc as u64);
        let mut buffer: Vec<u8> = Vec::new();
        let mut i: usize = 0;
        while i < ppc
            invariant
                i <= ppc,
                ppc == self@.pages_per_cluster,
                ppc <= 0xFFFF,
                page_index == n * ppc,
                page_index <= 0x1_0000_0000 * 0x1_0000,
                buffer@ == cluster_pages(self@, n, i as nat),
            decreases ppc - i,
        {
            let page = (#[verifier::truncate] ((page_index + i as u64) as u32));
            let bytes = self.read_page(page);
            let mut j: usize = 0;
            let ghost before = buffer@;
            while j < bytes.len()
                invariant
                    j <= bytes@.len(),
                    buffer@ == before + bytes@.take(j as int),
                decreases bytes.len() - j,
            {
                buffer.push(bytes[j]);
                assert(bytes@.take(j + 1) == bytes@.take(j as int).push(bytes@[j as int]));
                j = j + 1;
            }
            assert(bytes@.take(bytes@.len() as int) == bytes@);
            i = i + 1;
        }
        proof {
            lemma_cluster_pages_len(self@, n, ppc as nat);
            assert(ppc * self.page_size == self.page_size * ppc) by (nonlinear_arith);
        }
        buffer
    }

    /// Reads the table rows stored in the given clusters: of each, its
    /// first `fat_per_cluster` words.
    fn build_matrix(&self, cluster_list: &Vec<u32>) -> (r: Vec<Vec<u32>>)
        ensures
            r@.map_values(|v: Vec<u32>| v@) == matrix_rows(self@, cluster_list@),
            forall|i: int| 0 <= i < r@.len() ==> (#[trigger] r@[i])@.len() == self@.fat_per_cluster,
    {
        proof {
            use_type_invariant(self);
        }
        let fpc = self.fat_per_cluster;
        let mut matrix: Vec<Vec<u32>> = Vec::new();
        let mut i: usize = 0;
        while i < cluster_list.len()
            invariant
                i <= cluster_list@.len(),
                fpc == self@.fat_per_cluster,
                4 * fpc <= self@.cluster_size,
                matrix@.map_values(|v: Vec<u32>| v@) == matrix_rows(
                    self@,
                    cluster_list@.take(i as int),
                ),
                forall|k: int| 0 <= k < matrix@.len() ==> (#[trigger] matrix@[k])@.len() == fpc,
            decreases cluster_list.len() - i,
        {
            let buffer = self.read_cluster(cluster_list[i]);
            let mut row: Vec<u32> = Vec::new();
            let mut j: usize = 0;
            while j < fpc
                invariant
                    j <= fpc,
                    4 * fpc <= buffer.len(),
                    row@ == fat_row(buffer@, fpc as nat).take(j as int),
                decreases fpc - j,
            {
                row.push(read_u32_le(buffer.as_slice(), 4 * j));
                assert(fat_row(buffer@, fpc as nat).take(j + 1) == fat_row(
                    buffer@,
                    fpc as nat,
                ).take(j as int).push(row@[j as int]));
                j = j + 1;
            }
            assert(fat_row(buffer@, fpc as nat).take(fpc as int) == fat_row(buffer@, fpc as nat));
            let ghost before = matrix@.map_values(|v: Vec<u32>| v@);
            matrix.push(row);
            proof {
                assert(cluster_list@.take(i + 1) == cluster_list@.take(i as int).push(
                    cluster_list@[i as int],
                ));
                assert(matrix@.map_values(|v: Vec<u32>| v@) == before.push(
                    fat_row(cluster_bytes(self@, cluster_list@[i as int]), fpc as nat),
                ));
            }
            i = i + 1;
        }
        assert(cluster_list@.take(cluster_list@.len() as int) == cluster_list@);
        matrix
    }

    /// The rows one after another.
    fn flatten_matrix(matrix: Vec<Vec<u32>>) -> (r: Vec<u32>)
        ensures
            r@ == flatten_rows(matrix@.map_values(|v: Vec<u32>| v@)),
    {
        let ghost rows = matrix@.map_values(|v: Vec<u32>| v@);
        let mut out: Vec<u32> = Vec::new();
        let mut i: usize = 0;
        while i < matrix.len()
            invariant
                i <= matrix@.len(),
                rows == matrix@.map_values(|v: Vec<u32>| v@),
                out@ == flatten_rows(rows.take(i as int)),
            decreases matrix.len() - i,
        {
            let row = &matrix[i];
            let ghost before = out@;
            let mut j: usize = 0;
            while j < row.len()
                invariant
                    j <= row@.len(),
                    out@ == before + row@.take(j as int),
                decreases row.len() - j,
            {
                out.push(row[j]);
                assert(row@.take(j + 1) == row@.take(j as int).push(row@[j as int]));
                j = j + 1;
            }
            proof {
                assert(row@.take(row@.len() as int) == row@);
                assert(rows.take(i + 1).drop_last() == rows.take(i as int));
                assert(rows.take(i + 1).last() == row@);
            }
            i = i + 1;
        }
        assert(rows.take(rows.len() as int) == rows);
        out
    }

    /// Reads the allocation table: the rows of the clusters that the rows
    /// of the indirect clusters list.
    fn build_fat_matrix(&mut self)
        ensures
            final(self)@ == old(self)@,
            final(self).rootdir_cluster_spec() == old(self).rootdir_cluster_spec(),
            final(self).fat() == matrix_rows(
                old(self)@,
                fat_clusters(old(self)@, old(self).ifc_list@),
            ),
    {
        proof {
            use_type_invariant(&*self);
        }
        let mut ifc: Vec<u32> = Vec::new();
        let mut k: usize = 0;
        while k < 32
            invariant
                k <= 32,
                self.ifc_list@.len() == 32,
                ifc@ == self.ifc_list@.take(k as int),
            decreases 32 - k,
        {
            ifc.push(self.ifc_list[k]);
            assert(self.ifc_list@.take(k + 1) == self.ifc_list@.take(k as int).push(
                self.ifc_list@[k as int],
            ));
            k = k + 1;
        }
        assert(self.ifc_list@.take(32) == self.ifc_list@);
        let indirect = self.build_matrix(&ifc);
        let flat = Self::flatten_matrix(indirect);
        let ghost all = flat@;
        let mut clusters: Vec<u32> = Vec::new();
        let mut i: usize = 0;
        while i < flat.len()
            invariant
                i <= flat@.len(),
                all == flat@,
                clusters@ == all.take(i as int).filter(|c: u32| c != 0xFFFF_FFFFu32),
            decreases flat.len() - i,
        {
            proof {
                reveal(Seq::filter);
                assert(all.take(i + 1).drop_last() == all.take(i as int));
                assert(all.take(i + 1).last() == all[i as int]);
            }
            if flat[i] != 0xFFFF_FFFF {
                clusters.push(flat[i]);
            }
            i = i + 1;
        }
        assert(all.take(all.len() as int) == all);
        let matrix = self.build_matrix(&clusters);
        self.fat_matrix = matrix;
    }

    /// Opens a card image: reads its superblock and its allocation table.
    /// The image must hold the 338 bytes of a superblock.
    pub fn new(file: Vec<u8>) -> (mc: Memcard)
        requires
            file@.len() >= SUPERBLOCK_LEN,
        ensures
            mc@.data == file@,
            mc@.page_size == u16_at(file@, 40),
            mc@.pages_per_cluster == u16_at(file@, 42),
            mc@.raw_page_size == mc@.page_size + (mc@.page_size / 128) * 4,
            mc@.cluster_size == mc@.page_size * mc@.pages_per_cluster,
            mc@.fat_per_cluster == mc@.cluster_size / 4,
            mc@.alloc_offset == u32_at(file@, 52),
            mc.rootdir_cluster_spec() == u32_at(file@, 60),
            mc.fat() == matrix_rows(mc@, fat_clusters(mc@, words_at(file@, 80))),
    {
        let sb = match read_superblock(file.as_slice()) {
            Ok(sb) => sb,
            Err(_) => vstd::pervasive::unreached(),
        };
        let page_size = sb.page_size as usize;
        let pages_per_cluster = sb.pages_per_cluster as usize;
        let spare_size = (page_size / 128) * 4;
        let raw_page_size = page_size + spare_size;
        assert(page_size * pages_per_cluster <= 0xFFFF * 0xFFFF) by (nonlinear_arith)
            requires
                page_size <= 0xFFFF,
                pages_per_cluster <= 0xFFFF,
        ;
        let cluster_size = page_size * pages_per_cluster;
        let fat_per_cluster = cluster_size / 4;
        let mut mc = Memcard {
            data: file,
            page_size,
            pages_per_cluster,
            ifc_list: sb.ifc_list,
            rootdir_cluster: sb.rootdir_cluster as usize,
            alloc_offset: sb.alloc_offset as usize,
            spare_size,
            raw_page_size,
            cluster_size,
            fat_per_cluster,
            fat_matrix: Vec::new(),
            root_entry: None,
            entries_in_root: Vec::new(),
        };
        mc.build_fat_matrix();
        mc
    }

    /// The table entry of cluster `n`, without its top bit.
    fn get_fat_value(&self, n: u32) -> (v: u32)
        requires
            fat_index_ok(self@, self.fat(), n),
        ensures
            v == fat_value(self@, self.fat(), n),
    {
        proof {
            use_type_invariant(self);
        }
        let fpc = self.fat_per_cluster;
        let row = ((n as usize) / fpc) % fpc;
        let col = (n as usize) % fpc;
        assert(self.fat_matrix@[row as int]@ == self.fat()[row as int]);
        let value = self.fat_matrix[row][col];
        if value >= 0x8000_0000 {
            value - 0x8000_0000
        } else {
            value
        }
    }

    /// Reads the directory entries of directory cluster `cluster_offset`
    /// (counted from the allocation offset): one per whole 512-byte block.
    pub fn read_entry_cluster(&mut self, cluster_offset: u32) -> (r: Vec<DirEntry>)
        ensures
            final(self)@ == old(self)@,
            final(self).fat() == old(self).fat(),
            final(self).rootdir_cluster_spec() == old(self).rootdir_cluster_spec(),
            r@.len() == entry_blocks(cluster_bytes(old(self)@, entry_cluster(old(self)@, cluster_offset))).len(),
            forall|i: int|
                0 <= i < r@.len() ==> entry_matches(
                    #[trigger] r@[i],
                    entry_blocks(cluster_bytes(old(self)@, entry_cluster(old(self)@, cluster_offset)))[i],
                ),
    {
        proof {
            use_type_invariant(&*self);
        }
        let cluster = (#[verifier::truncate] (((cluster_offset as u64) + (self.alloc_offset as u64)) as u32));
        let buffer = self.read_cluster(cluster);
        let ghost blocks = entry_blocks(buffer@);
        let entry_count = buffer.len() / DIR_ENTRY_LEN;
        let mut entries: Vec<DirEntry> = Vec::new();
        let mut i: usize = 0;
        while i < entry_count
            invariant
                i <= entry_count,
                entry_count == buffer@.len() / 512,
                blocks == entry_blocks(buffer@),
                entries@.len() == i,
                forall|j: int| 0 <= j < i ==> entry_matches(#[trigger] entries@[j], blocks[j]),
            decreases entry_count - i,
        {
            assert(512 * i + 512 <= buffer@.len()) by (nonlinear_arith)
                requires
                    i < entry_count,
                    entry_count == buffer@.len() / 512,
            ;
            assert(i * 512 + 512 <= buffer.len());
            let block = crate::bytes::slice_bytes(buffer.as_slice(), i * DIR_ENTRY_LEN, DIR_ENTRY_LEN);
            assert(block@ == blocks[i as int]);
            match DirEntry::from_bytes(block.as_slice()) {
                Ok(e) => entries.push(e),
                Err(_) => {
                    assert(false);
                },
            }
            i = i + 1;
        }
        entries
    }


    /// Reads the data of a file entry: follows its chain of clusters to the
    /// end and takes from each cluster as much as remains of the entry's
    /// length.  The chain must end, and each cluster plus the allocation
    /// offset must stay within 32 bits.
    pub fn read_data_cluster(&mut self, entry: &DirEntry) -> (r: Vec<u8>)
        requires
            exists|k: nat|
                chain_ends(old(self)@, old(self).fat(), entry.cluster, k) && chain_in_range(
                    old(self)@,
                    old(self).fat(),
                    entry.cluster,
                    k,
                ),
        ensures
            final(self)@ == old(self)@,
            final(self).fat() == old(self).fat(),
            final(self).rootdir_cluster_spec() == old(self).rootdir_cluster_spec(),
            forall|k: nat|
                chain_ends(old(self)@, old(self).fat(), entry.cluster, k) ==> r@ == chain_data(
                    old(self)@,
                    old(self).fat(),
                    entry.cluster,
                    entry.length as nat,
                    k,
                ),
    {
        proof {
            use_type_invariant(&*self);
        }
        let ghost m = self@;
        let ghost fat = self.fat();
        let ghost k = choose|k: nat|
            chain_ends(m, fat, entry.cluster, k) && chain_in_range(m, fat, entry.cluster, k);
        let mut buffer: Vec<u8> = Vec::new();
        let mut chain_start = entry.cluster;
        let mut bytes_read: usize = 0;
        let ghost mut rem: nat = k;
        let length = entry.length as usize;
        while chain_start != CHAIN_END
            invariant
                m == self@,
                fat == self.fat(),
                bytes_read <= length,
                length == entry.length,
                chain_ends(m, fat, chain_start, rem),
                chain_in_range(m, fat, chain_start, rem),
                chain_ends(m, fat, entry.cluster, k),
                m.cluster_size == self.cluster_size,
                m.alloc_offset == self.alloc_offset,
                self.alloc_offset <= u32::MAX,
                buffer@ + chain_data(m, fat, chain_start, (length - bytes_read) as nat, rem)
                    == chain_data(m, fat, entry.cluster, length as nat, k),
            decreases rem,
        {
            proof {
                lemma_chain_step(m, fat, chain_start, rem);
            }
            let left = length - bytes_read;
            let to_read = if left < self.cluster_size {
                left
            } else {
                self.cluster_size
            };
            let cluster = self.read_cluster(chain_start + self.alloc_offset as u32);
            let ghost before = buffer@;
            let mut j: usize = 0;
            while j < to_read
                invariant
                    j <= to_read,
                    to_read <= cluster@.len(),
                    buffer@ == before + cluster@.take(j as int),
                decreases to_read - j,
            {
                buffer.push(cluster[j]);
                assert(cluster@.take(j + 1) == cluster@.take(j as int).push(cluster@[j as int]));
                j = j + 1;
            }
            bytes_read = bytes_read + to_read;
            let next = self.get_fat_value(chain_start);
            proof {
                assert(buffer@ == before + cluster_bytes(m, (chain_start + m.alloc_offset) as u32).take(
                    to_read as int,
                ));
                rem = (rem - 1) as nat;
            }
            chain_start = next;
        }
        proof {
            lemma_chain_end(m, fat, chain_start, rem);
        }
        buffer
    }

    /// Reads the entries of a directory: follows its chain of clusters to
    /// the end and keeps the first `length` entries found.  The chain must
    /// end.
    pub fn find_sub_entries(&mut self, parent_entry: &DirEntry) -> (r: Vec<DirEntry>)
        requires
            exists|k: nat| chain_ends(old(self)@, old(self).fat(), parent_entry.cluster, k),
        ensures
            final(self)@ == old(self)@,
            final(self).fat() == old(self).fat(),
            final(self).rootdir_cluster_spec() == old(self).rootdir_cluster_spec(),
            forall|k: nat|
                chain_ends(old(self)@, old(self).fat(), parent_entry.cluster, k) ==> {
                    let blocks = chain_entry_blocks(
                        old(self)@,
                        old(self).fat(),
                        parent_entry.cluster,
                        k,
                    );
                    &&& r@.len() == if blocks.len() < parent_entry.length {
                        blocks.len()
                    } else {
                        parent_entry.length as nat
                    }
                    &&& forall|i: int| 0 <= i < r@.len() ==> entry_matches(#[trigger] r@[i], blocks[i])
                },
    {
        proof {
            use_type_invariant(&*self);
        }
        let ghost m = self@;
        let ghost fat = self.fat();
        let ghost k = choose|k: nat| chain_ends(m, fat, parent_entry.cluster, k);
        let ghost total = chain_entry_blocks(m, fat, parent_entry.cluster, k);
        let mut chain_start = parent_entry.cluster;
        let mut sub_entries: Vec<DirEntry> = Vec::new();
        let ghost mut seen: Seq<Seq<u8>> = Seq::empty();
        let ghost mut rem: nat = k;
        let limit = parent_entry.length as usize;
        while chain_start != CHAIN_END
            invariant
                m == self@,
                fat == self.fat(),
                self.rootdir_cluster_spec() == old(self).rootdir_cluster_spec(),
                limit == parent_entry.length,
                chain_ends(m, fat, chain_start, rem),
                total == chain_entry_blocks(m, fat, parent_entry.cluster, k),
                seen + chain_entry_blocks(m, fat, chain_start, rem) == total,
                sub_entries@.len() == if seen.len() < limit {
                    seen.len()
                } else {
                    limit as nat
                },
                forall|i: int|
                    0 <= i < sub_entries@.len() ==> entry_matches(#[trigger] sub_entries@[i], seen[i]),
            decreases rem,
        {
            proof {
                lemma_chain_step(m, fat, chain_start, rem);
            }
            let entries = self.read_entry_cluster(chain_start);
            let ghost blocks = entry_blocks(cluster_bytes(m, entry_cluster(m, chain_start)));
            let mut j: usize = 0;
            let ghost seen0 = seen;
            while j < entries.len()
                invariant
                    j <= entries@.len(),
                    entries@.len() == blocks.len(),
                    forall|i: int| 0 <= i < entries@.len() ==> entry_matches(#[trigger] entries@[i], blocks[i]),
                    seen == seen0 + blocks.take(j as int),
                    sub_entries@.len() == if seen.len() < limit {
                        seen.len()
                    } else {
                        limit as nat
                    },
                    forall|i: int|
                        0 <= i < sub_entries@.len() ==> entry_matches(
                            #[trigger] sub_entries@[i],
                            seen[i],
                        ),
                decreases entries.len() - j,
            {
                if sub_entries.len() < limit {
                    sub_entries.push(entries[j]);
                }
                proof {
                    assert(blocks.take(j + 1) == blocks.take(j as int).push(blocks[j as int]));
                    seen = seen0 + blocks.take(j + 1);
                    assert(entry_matches(entries@[j as int], blocks[j as int]));
                }
                j = j + 1;
            }
            proof {
                assert(blocks.take(blocks.len() as int) == blocks);
                assert(seen + chain_entry_blocks(m, fat, fat_value(m, fat, chain_start), (rem - 1) as nat) == total);
            }
            let next = self.get_fat_value(chain_start);
            proof {
                rem = (rem - 1) as nat;
            }
            chain_start = next;
        }
        proof {
            lemma_chain_end(m, fat, chain_start, rem);
            assert(seen == total);
        }
        sub_entries
    }

}

} // verus!
