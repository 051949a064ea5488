//! What the save builder shows for a file: the viewer it opens, the icon
//! beside its name, and the room it takes in an archive.
use vstd::prelude::*;
use crate::text::{ascii_lower, chars_eq, chars_of, lower_chars};
use std::collections::HashSet;

verus! {

/// The lower-case form of a text, as `str::to_lowercase` gives it.
pub uninterp spec fn text_lowercase(s: Seq<char>) -> Seq<char>;

/// Whether every character of a text is ASCII.
pub open spec fn is_ascii_text(s: Seq<char>) -> bool {
    forall|i: int| 0 <= i < s.len() ==> (#[trigger] s[i] as u32) < 128
}

/// Calls `str::to_lowercase`.  For an ASCII text that is the text with `A`
/// to `Z` lower-cased, as the documentation of `str::to_lowercase` and
/// `str::to_ascii_lowercase` gives it; for other texts the result is only
/// named.
#[verifier::external_body]
fn lowercase_string(s: &str) -> (r: String)
    ensures
        r@ == text_lowercase(s@),
        is_ascii_text(s@) ==> r@ == ascii_lower(s@),
{
    s.to_lowercase()
}

/// The index of the last `c` in a text; -1 when it has none.
pub open spec fn last_index(s: Seq<char>, c: char) -> int
    decreases s.len(),
{
    if s.len() == 0 {
        -1
    } else if s.last() == c {
        s.len() - 1
    } else {
        last_index(s.drop_last(), c)
    }
}

/// The index of the last `.` in a text; -1 when it has none.
pub open spec fn last_dot(s: Seq<char>) -> int {
    last_index(s, '.')
}

/// The text after the last `.`; the whole text when it has none.
pub open spec fn last_segment(s: Seq<char>) -> Seq<char> {
    s.skip(last_dot(s) + 1)
}

/// The extension of a file name: what follows its last `.`, unless the
/// name has no `.` other than a leading one, or is `..`.
pub open spec fn file_extension(name: Seq<char>) -> Option<Seq<char>> {
    if name == seq!['.', '.'] || last_dot(name) <= 0 {
        None
    } else {
        Some(name.skip(last_dot(name) + 1))
    }
}

proof fn lemma_last_index_bounds(s: Seq<char>, c: char)
    ensures
        -1 <= last_index(s, c) < s.len(),
        last_index(s, c) >= 0 ==> s[last_index(s, c)] == c,
        forall|i: int| last_index(s, c) < i < s.len() ==> s[i] != c,
    decreases s.len(),
{
    if s.len() > 0 {
        lemma_last_index_bounds(s.drop_last(), c);
        if s.last() != c {
            assert forall|i: int| last_index(s, c) < i < s.len() implies s[i] != c by {
                if i < s.len() - 1 {
                    assert(s[i] == s.drop_last()[i]);
                }
            }
        }
    }
}

proof fn lemma_last_dot_bounds(s: Seq<char>)
    ensures
        -1 <= last_dot(s) < s.len(),
        last_dot(s) >= 0 ==> s[last_dot(s)] == '.',
        forall|i: int| last_dot(s) < i < s.len() ==> s[i] != '.',
{
    lemma_last_index_bounds(s, '.');
}

fn find_last(s: &Vec<char>, end: usize, c: char) -> (r: Option<usize>)
    requires
        end <= s@.len(),
    ensures
        match r {
            Some(i) => i == last_index(s@.take(end as int), c) && i < end,
            None => last_index(s@.take(end as int), c) == -1,
        },
{
    let mut i: usize = end;
    while i > 0
        invariant
            i <= end <= s@.len(),
            last_index(s@.take(end as int), c) == last_index(s@.take(i as int), c),
        decreases i,
    {
        assert(s@.take(i as int).drop_last() =~= s@.take(i - 1));
        if s[i - 1] == c {
            return Some(i - 1);
        }
        i = i - 1;
    }
    assert(s@.take(0) =~= Seq::<char>::empty());
    None
}

fn find_last_dot(s: &Vec<char>) -> (r: Option<usize>)
    ensures
        match r {
            Some(i) => i == last_dot(s@) && i < s@.len(),
            None => last_dot(s@) == -1,
        },
{
    assert(s@.take(s@.len() as int) =~= s@);
    find_last(s, s.len(), '.')
}

/// The file name a path ends in, taking `/` as the separator: its last
/// part, passing over empty parts and `.`; none when there is no such part
/// or it is `..`.
pub open spec fn path_file_name(path: Seq<char>) -> Option<Seq<char>>
    decreases path.len(),
{
    let i = last_index(path, '/');
    let piece = path.skip(i + 1);
    if piece.len() == 0 || piece == seq!['.'] {
        if i < 0 || i >= path.len() {
            None
        } else {
            path_file_name(path.take(i))
        }
    } else if piece == seq!['.', '.'] {
        None
    } else {
        Some(piece)
    }
}

pub(crate) fn file_name_of(path: &Vec<char>) -> (r: Option<Vec<char>>)
    ensures
        match r {
            Some(n) => path_file_name(path@) == Some(n@),
            None => path_file_name(path@) is None,
        },
{
    let dot = ['.'];
    let dots = ['.', '.'];
    assert(dot@ =~= seq!['.']);
    assert(dots@ =~= seq!['.', '.']);
    let mut end: usize = path.len();
    assert(path@.take(end as int) =~= path@);
    loop
        invariant
            end <= path@.len(),
            dot@ == seq!['.'],
            dots@ == seq!['.', '.'],
            path_file_name(path@) == path_file_name(path@.take(end as int)),
        decreases end,
    {
        let ghost t = path@.take(end as int);
        proof {
            lemma_last_index_bounds(t, '/');
        }
        let slash = find_last(path, end, '/');
        let start: usize = match slash {
            Some(i) => i + 1,
            None => 0,
        };
        let mut piece: Vec<char> = Vec::new();
        let mut k: usize = start;
        while k < end
            invariant
                start <= k <= end <= path@.len(),
                piece@ == path@.subrange(start as int, k as int),
            decreases end - k,
        {
            piece.push(path[k]);
            k = k + 1;
        }
        assert(piece@ =~= t.skip(last_index(t, '/') + 1));
        if piece.len() == 0 || chars_eq(piece.as_slice(), dot.as_slice()) {
            match slash {
                Some(i) => {
                    assert(t.take(i as int) =~= path@.take(i as int));
                    end = i;
                },
                None => {
                    return None;
                },
            }
        } else if chars_eq(piece.as_slice(), dots.as_slice()) {
            return None;
        } else {
            return Some(piece);
        }
    }
}

/// The icon shown beside a file's name.
#[derive(Clone, Copy, Debug, PartialEq, Eq, Structural)]
pub enum FileIcon {
    Plain,
    Executable,
    Model,
    Settings,
    Code,
}

/// The icon for a file whose lower-cased name is `lower`: chosen by what
/// follows its last `.`.
pub open spec fn icon_for(lower: Seq<char>) -> FileIcon {
    let ext = last_segment(lower);
    if ext == "elf"@ {
        FileIcon::Executable
    } else if ext == "icn"@ {
        FileIcon::Model
    } else if ext == "sys"@ {
        FileIcon::Settings
    } else if ext == "cfg"@ {
        FileIcon::Code
    } else {
        FileIcon::Plain
    }
}

/// The icon shown beside a file's name.
pub fn file_icon(file_name: &str) -> (r: FileIcon)
    ensures
        r == icon_for(text_lowercase(file_name@)),
{
    let lower = chars_of(lowercase_string(file_name).as_str());
    proof {
        lemma_last_dot_bounds(lower@);
    }
    let n = lower.len();
    let start = match find_last_dot(&lower) {
        Some(i) => i + 1,
        None => 0,
    };
    let mut ext: Vec<char> = Vec::new();
    let mut k: usize = start;
    while k < lower.len()
        invariant
            start <= k <= lower@.len(),
            ext@ == lower@.subrange(start as int, k as int),
        decreases lower.len() - k,
    {
        ext.push(lower[k]);
        k = k + 1;
    }
    assert(ext@ =~= last_segment(lower@));
    if chars_eq(ext.as_slice(), chars_of("elf").as_slice()) {
        FileIcon::Executable
    } else if chars_eq(ext.as_slice(), chars_of("icn").as_slice()) {
        FileIcon::Model
    } else if chars_eq(ext.as_slice(), chars_of("sys").as_slice()) {
        FileIcon::Settings
    } else if chars_eq(ext.as_slice(), chars_of("cfg").as_slice()) {
        FileIcon::Code
    } else {
        FileIcon::Plain
    }
}

/// The viewers the save builder has.
#[derive(Clone, Copy, Debug, PartialEq, Eq, Structural)]
pub enum ViewerKind {
    Icn,
    IconSys,
    TitleCfg,
}

/// The viewer for a file with the given extension, lower-cased as ASCII.
pub open spec fn viewer_for_extension(ext: Seq<char>) -> Option<ViewerKind> {
    if ext == "icn"@ || ext == "ico"@ {
        Some(ViewerKind::Icn)
    } else if ext == "sys"@ {
        Some(ViewerKind::IconSys)
    } else if ext == "cfg"@ || ext == "cnf"@ || ext == "dat"@ || ext == "txt"@ {
        Some(ViewerKind::TitleCfg)
    } else {
        None
    }
}

/// The viewer the save builder opens for a file, by the extension of the
/// file name its path ends in, in any ASCII case; none for other files.
pub fn viewer_for_file(file_path: &str) -> (r: Option<ViewerKind>)
    ensures
        r == match path_file_name(file_path@) {
            Some(name) => match file_extension(name) {
                Some(ext) => viewer_for_extension(ascii_lower(ext)),
                None => None,
            },
            None => None,
        },
{
    let path = chars_of(file_path);
    let name = match file_name_of(&path) {
        Some(n) => n,
        None => {
            return None;
        },
    };
    proof {
        lemma_last_dot_bounds(name@);
    }
    let parent = ['.', '.'];
    assert(parent@ =~= seq!['.', '.']);
    if chars_eq(name.as_slice(), parent.as_slice()) {
        return None;
    }
    let n = name.len();
    let dot = match find_last_dot(&name) {
        Some(i) => i,
        None => {
            return None;
        },
    };
    if dot == 0 {
        return None;
    }
    let mut ext: Vec<char> = Vec::new();
    let mut k: usize = dot + 1;
    while k < name.len()
        invariant
            dot + 1 <= k <= name@.len(),
            ext@ == name@.subrange(dot + 1, k as int),
        decreases name.len() - k,
    {
        ext.push(name[k]);
        k = k + 1;
    }
    assert(ext@ =~= name@.skip(dot + 1));
    let lower = lower_chars(ext.as_slice());
    let l = lower.as_slice();
    if chars_eq(l, chars_of("icn").as_slice()) || chars_eq(l, chars_of("ico").as_slice()) {
        Some(ViewerKind::Icn)
    } else if chars_eq(l, chars_of("sys").as_slice()) {
        Some(ViewerKind::IconSys)
    } else if chars_eq(l, chars_of("cfg").as_slice()) || chars_eq(l, chars_of("cnf").as_slice())
        || chars_eq(l, chars_of("dat").as_slice()) || chars_eq(l, chars_of("txt").as_slice()) {
        Some(ViewerKind::TitleCfg)
    } else {
        None
    }
}

/// The room a file of `size` bytes takes in an archive: the size rounded up
/// to whole 1024-byte pages.
pub open spec fn page_rounded(size: int) -> int {
    ((size + 1023) / 1024) * 1024
}

/// The size rounded up to whole 1024-byte pages.
pub fn calc_size(size: u64) -> (r: u64)
    requires
        size + 1023 <= u64::MAX,
    ensures
        r == page_rounded(size as int),
{
    let n = (size + 1023) / 1024;
    assert(n * 1024 <= size + 1023) by (nonlinear_arith)
        requires
            n == (size + 1023) / 1024,
    ;
    n * 1024
}

/// The size of an archive holding files of the given sizes: three 512-byte
/// headers for the folder, then a header and the page-rounded contents per
/// file.
pub open spec fn archive_size(sizes: Seq<u64>) -> int
    decreases sizes.len(),
{
    if sizes.len() == 0 {
        1536int
    } else {
        archive_size(sizes.drop_last()) + 512 + page_rounded(sizes.last() as int)
    }
}

/// The size of an archive holding files of the given sizes.
pub fn calculated_size(sizes: &Vec<u64>) -> (r: u64)
    requires
        archive_size(sizes@) <= u64::MAX,
        forall|i: int| 0 <= i < sizes@.len() ==> sizes@[i] + 1023 <= u64::MAX,
    ensures
        r == archive_size(sizes@),
{
    let mut total: u64 = 512 * 3;
    let mut i: usize = 0;
    while i < sizes.len()
        invariant
            i <= sizes@.len(),
            archive_size(sizes@) <= u64::MAX,
            forall|j: int| 0 <= j < sizes@.len() ==> sizes@[j] + 1023 <= u64::MAX,
            total == archive_size(sizes@.take(i as int)),
        decreases sizes.len() - i,
    {
        assert(sizes@.take(i + 1).drop_last() =~= sizes@.take(i as int));
        proof {
            lemma_archive_size_grows(sizes@, i + 1);
        }
        let page = calc_size(sizes[i]);
        total = total + 512 + page;
        i = i + 1;
    }
    assert(sizes@.take(i as int) =~= sizes@);
    total
}

proof fn lemma_archive_size_grows(sizes: Seq<u64>, k: int)
    requires
        0 <= k <= sizes.len(),
    ensures
        archive_size(sizes.take(k)) <= archive_size(sizes),
    decreases sizes.len(),
{
    if k < sizes.len() {
        assert(sizes.drop_last().take(k) =~= sizes.take(k));
        lemma_archive_size_grows(sizes.drop_last(), k);
        assert(page_rounded(sizes.last() as int) >= 0);
    } else {
        assert(sizes.take(k) =~= sizes);
    }
}

/// The rows selected after a click on `row`: a selected row is deselected;
/// any other row becomes the only selected one.
pub open spec fn clicked_selection(selected: Set<usize>, row: usize) -> Set<usize> {
    if selected.contains(row) {
        selected.remove(row)
    } else {
        set![row]
    }
}

/// The rows selected in the file list.
pub struct RowSelection {
    selection: HashSet<usize>,
}

impl View for RowSelection {
    type V = Set<usize>;

    closed spec fn view(&self) -> Set<usize> {
        self.selection@
    }
}

impl RowSelection {
    /// No row is selected.
    pub fn new() -> (s: Self)
        ensures
            s@ == Set::<usize>::empty(),
    {
        RowSelection { selection: HashSet::new() }
    }

    /// Whether `row` is selected.
    pub fn is_selected(&self, row: usize) -> (r: bool)
        ensures
            r == self@.contains(row),
    {
        broadcast use vstd::std_specs::hash::group_hash_axioms;

        self.selection.contains(&row)
    }

    /// A click on `row`: deselects it when selected, else selects it alone.
    pub fn click_row(&mut self, row: usize)
        ensures
            final(self)@ == clicked_selection(old(self)@, row),
    {
        broadcast use vstd::std_specs::hash::group_hash_axioms;

        if self.selection.contains(&row) {
            self.selection.remove(&row);
        } else {
            self.selection.clear();
            self.selection.insert(row);
        }
    }
}

/// Clicking keeps at most one row selected.
pub proof fn lemma_click_selects_at_most_one(selected: Set<usize>, row: usize)
    requires
        selected.finite(),
        selected.len() <= 1,
    ensures
        clicked_selection(selected, row).finite(),
        clicked_selection(selected, row).len() <= 1,
{
    if !selected.contains(row) {
        assert(set![row].len() == 1) by {
            assert(set![row] =~= Set::<usize>::empty().insert(row));
        }
    }
}

} // verus!
