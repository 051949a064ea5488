//! Which files of a save folder go into an archive, and the archive built
//! from them.  Reading the folder is left to the caller, which reports what
//! it found as `FileProbe`s and hands over the files' contents as
//! `PackFile`s.
use vstd::prelude::*;
use crate::psu::{entry_bytes, 
    PSU, PSUEntry, PSUWriter, PsuTimestamp, archive_bytes, dir_entry, entry_writable,
    file_entry, is_dir_entry, is_file_entry, lemma_dot_names_fit, name_fits,
};
use crate::packer::{Error, check_name, spec_check_name};
use crate::text::{ascii_lower, chars_of, lower_chars, chars_eq, contains_char, str_eq};

verus! {

/// What the caller found out about one name in the save folder.
#[derive(Debug, Clone)]
pub struct FileProbe {
    /// The name, relative to the folder.
    pub name: String,
    /// Whether the folder has an entry of that name.
    pub exists: bool,
    /// Whether that entry is a regular file.
    pub is_file: bool,
}

/// A file to be archived, with its contents and timestamps.
#[derive(Debug)]
pub struct PackFile {
    pub name: String,
    pub contents: Vec<u8>,
    pub created: PsuTimestamp,
    pub modified: PsuTimestamp,
}

/// The name of the generated icon file.
pub const ICON_SYS_FILE_NAME: &'static str = "icon.sys";

/// Whether a name reaches into a subfolder.
pub open spec fn has_separator(name: Seq<char>) -> bool {
    name.contains('/') || name.contains('\\')
}

/// Whether a name is the packer's own configuration file, in any ASCII case.
pub open spec fn is_config_name(name: Seq<char>) -> bool {
    ascii_lower(name) == "psu.toml"@
}

/// Whether a candidate is archived: a name taken from the configuration
/// must lie directly in the folder and exist; the configuration file and
/// anything that is not a regular file are left out.
pub open spec fn candidate_kept(p: FileProbe, from_config: bool) -> bool {
    &&& from_config ==> !has_separator(p.name@) && p.exists
    &&& !is_config_name(p.name@)
    &&& p.is_file
}

/// The names of the kept candidates, in order.
pub open spec fn kept_names(c: Seq<FileProbe>, from_config: bool) -> Seq<Seq<char>>
    decreases c.len(),
{
    if c.len() == 0 {
        Seq::empty()
    } else {
        let rest = kept_names(c.drop_last(), from_config);
        if candidate_kept(c.last(), from_config) {
            rest.push(c.last().name@)
        } else {
            rest
        }
    }
}

/// Whether `name` is excluded: some exclusion names it, lies directly in
/// the folder and exists.
pub open spec fn is_excluded(ex: Seq<FileProbe>, name: Seq<char>) -> bool {
    exists|i: int|
        0 <= i < ex.len() && (#[trigger] ex[i]).name@ == name && !has_separator(name)
            && ex[i].exists
}

/// `names` without the excluded ones, in order.
pub open spec fn without_excluded(names: Seq<Seq<char>>, ex: Seq<FileProbe>) -> Seq<Seq<char>>
    decreases names.len(),
{
    if names.len() == 0 {
        Seq::empty()
    } else {
        let rest = without_excluded(names.drop_last(), ex);
        if is_excluded(ex, names.last()) {
            rest
        } else {
            rest.push(names.last())
        }
    }
}

/// The names of the files that go into the archive, in order: the kept
/// candidates less the exclusions, and `icon.sys` at the end when one is
/// generated and not already among them.
pub open spec fn spec_selected_files(
    candidates: Seq<FileProbe>,
    from_config: bool,
    exclusions: Option<Seq<FileProbe>>,
    with_icon_sys: bool,
) -> Seq<Seq<char>> {
    let kept = kept_names(candidates, from_config);
    let files = match exclusions {
        Some(ex) => without_excluded(kept, ex),
        None => kept,
    };
    if with_icon_sys && !files.contains("icon.sys"@) {
        files.push("icon.sys"@)
    } else {
        files
    }
}

/// The views of a list of strings.
pub open spec fn names_view(v: Seq<String>) -> Seq<Seq<char>> {
    v.map_values(|s: String| s@)
}

fn has_separator_exec(name: &str) -> (r: bool)
    ensures
        r == has_separator(name@),
{
    let chars = chars_of(name);
    contains_char(chars.as_slice(), '/') || contains_char(chars.as_slice(), '\\')
}

fn is_config_name_exec(name: &str) -> (r: bool)
    ensures
        r == is_config_name(name@),
{
    let chars = chars_of(name);
    let lower = lower_chars(chars.as_slice());
    let target = chars_of("psu.toml");
    chars_eq(lower.as_slice(), target.as_slice())
}

fn is_excluded_exec(ex: &Vec<FileProbe>, name: &String) -> (r: bool)
    ensures
        r == is_excluded(ex@, name@),
{
    if has_separator_exec(name.as_str()) {
        return false;
    }
    let mut i: usize = 0;
    while i < ex.len()
        invariant
            i <= ex@.len(),
            !has_separator(name@),
            forall|j: int| 0 <= j < i ==> !((#[trigger] ex@[j]).name@ == name@ && ex@[j].exists),
        decreases ex.len() - i,
    {
        if ex[i].exists && str_eq(ex[i].name.as_str(), name.as_str()) {
            assert(ex@[i as int].name@ == name@);
            return true;
        }
        i = i + 1;
    }
    false
}

fn names_contain(names: &Vec<String>, target: &str) -> (r: bool)
    ensures
        r == names_view(names@).contains(target@),
{
    let mut i: usize = 0;
    while i < names.len()
        invariant
            i <= names@.len(),
            forall|j: int| 0 <= j < i ==> (#[trigger] names@[j])@ != target@,
        decreases names.len() - i,
    {
        if str_eq(names[i].as_str(), target) {
            assert(names_view(names@)[i as int] == target@);
            return true;
        }
        i = i + 1;
    }
    proof {
        if names_view(names@).contains(target@) {
            let k = choose|k: int|
                0 <= k < names_view(names@).len() && names_view(names@)[k] == target@;
            assert(names@[k]@ == target@);
        }
    }
    false
}

/// The names of the files that go into the archive, in the order they are
/// added.  `candidates` are the names listed in the configuration
/// (`from_config`) or found in the folder; `exclusions` are the names the
/// configuration excludes; `with_icon_sys` says an `icon.sys` is generated.
pub fn select_pack_files(
    candidates: &Vec<FileProbe>,
    from_config: bool,
    exclusions: Option<&Vec<FileProbe>>,
    with_icon_sys: bool,
) -> (r: Vec<String>)
    ensures
        names_view(r@) == spec_selected_files(
            candidates@,
            from_config,
            match exclusions {
                Some(e) => Some(e@),
                None => None,
            },
            with_icon_sys,
        ),
{
    let mut kept: Vec<String> = Vec::new();
    let mut i: usize = 0;
    while i < candidates.len()
        invariant
            i <= candidates@.len(),
            names_view(kept@) == kept_names(candidates@.take(i as int), from_config),
        decreases candidates.len() - i,
    {
        let p = &candidates[i];
        let keep = (!from_config || (!has_separator_exec(p.name.as_str()) && p.exists))
            && !is_config_name_exec(p.name.as_str()) && p.is_file;
        proof {
            assert(candidates@.take(i + 1).drop_last() == candidates@.take(i as int));
            assert(candidates@.take(i + 1).last() == candidates@[i as int]);
        }
        if keep {
            kept.push(p.name.clone());
        }
        proof {
            assert(names_view(kept@) == kept_names(candidates@.take(i + 1), from_config));
        }
        i = i + 1;
    }
    assert(candidates@.take(candidates@.len() as int) == candidates@);
    let mut files: Vec<String> = match exclusions {
        Some(ex) => {
            let mut out: Vec<String> = Vec::new();
            let mut k: usize = 0;
            while k < kept.len()
                invariant
                    k <= kept@.len(),
                    names_view(out@) == without_excluded(
                        names_view(kept@).take(k as int),
                        ex@,
                    ),
                decreases kept.len() - k,
            {
                proof {
                    assert(names_view(kept@).take(k + 1).drop_last() == names_view(kept@).take(
                        k as int,
                    ));
                    assert(names_view(kept@).take(k + 1).last() == kept@[k as int]@);
                }
                if !is_excluded_exec(ex, &kept[k]) {
                    out.push(kept[k].clone());
                }
                proof {
                    assert(names_view(out@) == without_excluded(
                        names_view(kept@).take(k + 1),
                        ex@,
                    ));
                }
                k = k + 1;
            }
            assert(names_view(kept@).take(kept@.len() as int) == names_view(kept@));
            out
        },
        None => kept,
    };
    if with_icon_sys && !names_contain(&files, ICON_SYS_FILE_NAME) {
        files.push(ICON_SYS_FILE_NAME.to_owned());
        proof {
            assert(names_view(files@) == names_view(files@.drop_last()).push(
                ICON_SYS_FILE_NAME@,
            ));
        }
    }
    files
}

/// Appends the save folder called `name`, counting `file_count` files and
/// its `.` and `..` entries, then `.` and `..`; all three are stamped with
/// `timestamp`.
pub fn add_psu_defaults(psu: &mut PSU, name: &str, file_count: usize, timestamp: PsuTimestamp)
    requires
        file_count + 2 <= u32::MAX,
    ensures
        final(psu).entries@.len() == old(psu).entries@.len() + 3,
        final(psu).entries@.take(old(psu).entries@.len() as int) == old(psu).entries@,
        is_dir_entry(
            final(psu).entries@[old(psu).entries@.len() as int],
            name@,
            (file_count + 2) as u32,
            timestamp,
        ),
        is_dir_entry(final(psu).entries@[old(psu).entries@.len() as int + 1], "."@, 0, timestamp),
        is_dir_entry(final(psu).entries@[old(psu).entries@.len() as int + 2], ".."@, 0, timestamp),
{
    let size = file_count as u32 + 2;
    psu.entries.push(dir_entry(name, size, timestamp));
    psu.entries.push(dir_entry(".", 0, timestamp));
    psu.entries.push(dir_entry("..", 0, timestamp));
}

/// The timestamps a file is archived with: the configured one for both
/// when there is one, else the file's own.
pub open spec fn file_times(f: PackFile, timestamp: Option<PsuTimestamp>) -> (
    PsuTimestamp,
    PsuTimestamp,
) {
    match timestamp {
        Some(t) => (t, t),
        None => (f.created, f.modified),
    }
}

/// Whether `e` is the file entry that archives `f`.
pub open spec fn archives(e: PSUEntry, f: PackFile, timestamp: Option<PsuTimestamp>) -> bool {
    is_file_entry(
        e,
        f.name@,
        f.contents@,
        file_times(f, timestamp).0,
        file_times(f, timestamp).1,
    )
}

/// Appends a file entry for each file, in order, stamped as `file_times`
/// says.
pub fn add_files_to_psu(psu: &mut PSU, files: Vec<PackFile>, timestamp: Option<PsuTimestamp>)
    ensures
        final(psu).entries@.len() == old(psu).entries@.len() + files@.len(),
        final(psu).entries@.take(old(psu).entries@.len() as int) == old(psu).entries@,
        forall|i: int|
            0 <= i < files@.len() ==> archives(
                #[trigger] final(psu).entries@[old(psu).entries@.len() + i],
                files@[i],
                timestamp,
            ),
{
    let ghost n0 = psu.entries@.len();
    let ghost start = psu.entries@;
    let ghost fs = files@;
    for f in it: files.into_iter()
        invariant
            it.seq() == fs,
            psu.entries@.len() == n0 + it.index(),
            psu.entries@.take(n0 as int) == start,
            start.len() == n0,
            forall|i: int|
                0 <= i < it.index() ==> archives(#[trigger] psu.entries@[n0 + i], fs[i], timestamp),
    {
        let ghost before = psu.entries@;
        let (created, modified) = match timestamp {
            Some(t) => (t, t),
            None => (f.created, f.modified),
        };
        psu.entries.push(file_entry(f.name, f.contents, created, modified));
        assert(psu.entries@.take(n0 as int) == before.take(n0 as int));
    }
}

/// Whether `entries` is the archive of the save folder `name` holding
/// `files`: the folder entry counting the files and `.` and `..`, then `.`
/// and `..`, all stamped with the configured timestamp or, without one, the
/// time of packing `now`, then one entry per file.
pub open spec fn is_packed_archive(
    entries: Seq<PSUEntry>,
    name: Seq<char>,
    timestamp: Option<PsuTimestamp>,
    now: PsuTimestamp,
    files: Seq<PackFile>,
) -> bool {
    let t = match timestamp {
        Some(t) => t,
        None => now,
    };
    &&& entries.len() == files.len() + 3
    &&& is_dir_entry(entries[0], name, (files.len() + 2) as u32, t)
    &&& is_dir_entry(entries[1], "."@, 0, t)
    &&& is_dir_entry(entries[2], ".."@, 0, t)
    &&& forall|i: int| 0 <= i < files.len() ==> archives(#[trigger] entries[3 + i], files[i], timestamp)
}

/// Whether every name of an archive fits its name field.
pub open spec fn names_fit(name: Seq<char>, files: Seq<PackFile>) -> bool {
    &&& name_fits(name)
    &&& forall|i: int| 0 <= i < files.len() ==> name_fits((#[trigger] files[i]).name@)
}

/// The archive of the save folder `name` holding `files`; `now` is the
/// time of packing, which stamps the folder entries when no timestamp is
/// configured.
pub fn build_psu(
    name: &str,
    timestamp: Option<PsuTimestamp>,
    now: PsuTimestamp,
    files: Vec<PackFile>,
) -> (psu: PSU)
    requires
        files@.len() + 2 <= u32::MAX,
    ensures
        is_packed_archive(psu.entries@, name@, timestamp, now, files@),
{
    let mut psu = PSU::new();
    let t = match timestamp {
        Some(t) => t,
        None => now,
    };
    add_psu_defaults(&mut psu, name, files.len(), t);
    let ghost three = psu.entries@;
    add_files_to_psu(&mut psu, files, timestamp);
    assert(psu.entries@[0] == three[0]);
    assert(psu.entries@[1] == three[1]);
    assert(psu.entries@[2] == three[2]);
    psu
}

/// The bytes of the archive of the save folder `name` holding `files`,
/// stamped with the configured timestamp or, without one, with `now`.
pub open spec fn packed_bytes(
    name: Seq<char>,
    timestamp: Option<PsuTimestamp>,
    now: PsuTimestamp,
    files: Seq<PackFile>,
) -> Seq<u8> {
    archive_bytes(choose|e: Seq<PSUEntry>| is_packed_archive(e, name, timestamp, now, files))
}

/// The bytes of the archive of the save folder `name` holding `files`;
/// `now` is the time of packing, which stamps the folder, `.` and `..`
/// entries when no timestamp is configured.  Fails when the name has a
/// character other than an ASCII letter or digit, `_`, `-` or a space.
pub fn pack_archive(
    name: &str,
    timestamp: Option<PsuTimestamp>,
    now: PsuTimestamp,
    files: Vec<PackFile>,
) -> (r: Result<Vec<u8>, Error>)
    requires
        files@.len() + 2 <= u32::MAX,
        names_fit(name@, files@),
    ensures
        r is Err <==> !spec_check_name(name@),
        r matches Err(e) ==> e is NameError,
        r matches Ok(bytes) ==> exists|entries: Seq<PSUEntry>|
            is_packed_archive(entries, name@, timestamp, now, files@) && bytes@ == archive_bytes(
                entries,
            ),
        r matches Ok(bytes) ==> bytes@ == packed_bytes(name@, timestamp, now, files@),
{
    if !check_name(name) {
        return Err(Error::NameError);
    }
    let ghost fs = files@;
    let psu = build_psu(name, timestamp, now, files);
    let writer = PSUWriter::new(psu);
    proof {
        lemma_dot_names_fit();
        assert forall|i: int| 0 <= i < writer.archive().entries@.len() implies entry_writable(
            #[trigger] writer.archive().entries@[i],
        ) by {
            if i >= 3 {
                assert(archives(writer.archive().entries@[3 + (i - 3)], fs[i - 3], timestamp));
            }
        }
    }
    proof {
        let e = writer.archive().entries@;
        assert(is_packed_archive(e, name@, timestamp, now, fs));
        let c = choose|c: Seq<PSUEntry>| is_packed_archive(c, name@, timestamp, now, fs);
        lemma_packing_deterministic(e, c, name@, timestamp, now, fs);
    }
    match writer.to_bytes() {
        Ok(bytes) => Ok(bytes),
        Err(e) => Err(Error::IOError(e)),
    }
}

proof fn lemma_kept_names_kept(c: Seq<FileProbe>, from_config: bool)
    ensures
        forall|i: int|
            0 <= i < kept_names(c, from_config).len() ==> !is_config_name(
                #[trigger] kept_names(c, from_config)[i],
            ),
    decreases c.len(),
{
    if c.len() > 0 {
        lemma_kept_names_kept(c.drop_last(), from_config);
        let rest = kept_names(c.drop_last(), from_config);
        let all = kept_names(c, from_config);
        assert forall|i: int| 0 <= i < all.len() implies !is_config_name(#[trigger] all[i]) by {
            if i < rest.len() {
                assert(all[i] == rest[i]);
            } else {
                assert(candidate_kept(c.last(), from_config));
            }
        }
    }
}

proof fn lemma_without_excluded_subset(names: Seq<Seq<char>>, ex: Seq<FileProbe>)
    ensures
        forall|i: int|
            0 <= i < without_excluded(names, ex).len() ==> names.contains(
                #[trigger] without_excluded(names, ex)[i],
            ),
    decreases names.len(),
{
    if names.len() > 0 {
        lemma_without_excluded_subset(names.drop_last(), ex);
        let rest = without_excluded(names.drop_last(), ex);
        assert forall|i: int| 0 <= i < without_excluded(names, ex).len() implies names.contains(
            #[trigger] without_excluded(names, ex)[i],
        ) by {
            if i < rest.len() {
                let x = rest[i];
                assert(names.drop_last().contains(x));
                let j = choose|j: int| 0 <= j < names.drop_last().len() && names.drop_last()[j] == x;
                assert(names[j] == x);
            } else {
                assert(names[names.len() - 1] == names.last());
            }
        }
    }
}

/// The packer's own configuration file never goes into an archive: no
/// selected name is `psu.toml` in any ASCII case, whatever the folder holds
/// and whatever the configuration lists.
pub proof fn lemma_config_file_never_packed(
    candidates: Seq<FileProbe>,
    from_config: bool,
    exclusions: Option<Seq<FileProbe>>,
    with_icon_sys: bool,
)
    ensures
        forall|i: int|
            0 <= i < spec_selected_files(candidates, from_config, exclusions, with_icon_sys).len()
                ==> !is_config_name(
                #[trigger] spec_selected_files(candidates, from_config, exclusions, with_icon_sys)[i],
            ),
{
    let kept = kept_names(candidates, from_config);
    lemma_kept_names_kept(candidates, from_config);
    let files = match exclusions {
        Some(ex) => without_excluded(kept, ex),
        None => kept,
    };
    assert forall|i: int| 0 <= i < files.len() implies !is_config_name(#[trigger] files[i]) by {
        if let Some(ex) = exclusions {
            lemma_without_excluded_subset(kept, ex);
            assert(kept.contains(files[i]));
            let j = choose|j: int| 0 <= j < kept.len() && kept[j] == files[i];
            assert(!is_config_name(kept[j]));
        }
    }
    reveal_strlit("icon.sys");
    reveal_strlit("psu.toml");
    assert(ascii_lower("icon.sys"@)[0] == 'i');
    assert("psu.toml"@[0] == 'p');
}


proof fn lemma_archive_bytes_pointwise(e1: Seq<PSUEntry>, e2: Seq<PSUEntry>)
    requires
        e1.len() == e2.len(),
        forall|i: int| 0 <= i < e1.len() ==> entry_bytes(#[trigger] e1[i]) == entry_bytes(e2[i]),
    ensures
        archive_bytes(e1) == archive_bytes(e2),
    decreases e1.len(),
{
    if e1.len() > 0 {
        assert forall|i: int| 0 <= i < e1.drop_last().len() implies entry_bytes(
            #[trigger] e1.drop_last()[i],
        ) == entry_bytes(e2.drop_last()[i]) by {
            assert(entry_bytes(e1[i]) == entry_bytes(e2[i]));
        }
        lemma_archive_bytes_pointwise(e1.drop_last(), e2.drop_last());
        assert(entry_bytes(e1[e1.len() - 1]) == entry_bytes(e2[e2.len() - 1]));
    }
}

/// Packing is deterministic: every archive of the same folder name,
/// timestamp, time of packing and files serialises to the same bytes.
pub proof fn lemma_packing_deterministic(
    e1: Seq<PSUEntry>,
    e2: Seq<PSUEntry>,
    name: Seq<char>,
    timestamp: Option<PsuTimestamp>,
    now: PsuTimestamp,
    files: Seq<PackFile>,
)
    requires
        is_packed_archive(e1, name, timestamp, now, files),
        is_packed_archive(e2, name, timestamp, now, files),
    ensures
        archive_bytes(e1) == archive_bytes(e2),
{
    assert forall|i: int| 0 <= i < e1.len() implies entry_bytes(#[trigger] e1[i]) == entry_bytes(
        e2[i],
    ) by {
        if i >= 3 {
            assert(archives(e1[3 + (i - 3)], files[i - 3], timestamp));
            assert(archives(e2[3 + (i - 3)], files[i - 3], timestamp));
            assert(e1[i].contents.unwrap()@ == e2[i].contents.unwrap()@);
        }
    }
    lemma_archive_bytes_pointwise(e1, e2);
}


/// With a configured timestamp, the archive's bytes do not depend on when
/// it is packed (for any folder that has an archive, as every folder that
/// `pack_archive` packs has).
pub proof fn lemma_configured_timestamp_ignores_packing_time(
    name: Seq<char>,
    t: PsuTimestamp,
    now1: PsuTimestamp,
    now2: PsuTimestamp,
    files: Seq<PackFile>,
)
    requires
        exists|e: Seq<PSUEntry>| is_packed_archive(e, name, Some(t), now1, files),
    ensures
        packed_bytes(name, Some(t), now1, files) == packed_bytes(name, Some(t), now2, files),
{
    let e1 = choose|e: Seq<PSUEntry>| is_packed_archive(e, name, Some(t), now1, files);
    assert(is_packed_archive(e1, name, Some(t), now2, files));
    let e2 = choose|e: Seq<PSUEntry>| is_packed_archive(e, name, Some(t), now2, files);
    assert(is_packed_archive(e2, name, Some(t), now2, files));
    lemma_packing_deterministic(e1, e2, name, Some(t), now2, files);
}

/// A generated icon.sys always goes into the archive.
pub proof fn lemma_generated_icon_sys_packed(
    candidates: Seq<FileProbe>,
    from_config: bool,
    exclusions: Option<Seq<FileProbe>>,
)
    ensures
        spec_selected_files(candidates, from_config, exclusions, true).contains("icon.sys"@),
{
    let kept = kept_names(candidates, from_config);
    let files = match exclusions {
        Some(ex) => without_excluded(kept, ex),
        None => kept,
    };
    if !files.contains("icon.sys"@) {
        assert(files.push("icon.sys"@)[files.len() as int] == "icon.sys"@);
    }
}

proof fn lemma_kept_names_complete(c: Seq<FileProbe>, i: int)
    requires
        0 <= i < c.len(),
        candidate_kept(c[i], false),
    ensures
        kept_names(c, false).contains(c[i].name@),
    decreases c.len(),
{
    if i < c.len() - 1 {
        lemma_kept_names_complete(c.drop_last(), i);
        let rest = kept_names(c.drop_last(), false);
        let j = choose|j: int| 0 <= j < rest.len() && rest[j] == c[i].name@;
        if candidate_kept(c.last(), false) {
            assert(rest.push(c.last().name@)[j] == c[i].name@);
        }
    } else {
        assert(kept_names(c, false) == kept_names(c.drop_last(), false).push(c[i].name@));
        assert(kept_names(c, false)[kept_names(c.drop_last(), false).len() as int] == c[i].name@);
    }
}

/// With neither an include nor an exclude list every regular file of the
/// folder other than psu.toml goes into the archive.
pub proof fn lemma_no_lists_packs_every_file(candidates: Seq<FileProbe>, with_icon_sys: bool, i: int)
    requires
        0 <= i < candidates.len(),
        candidates[i].is_file,
        !is_config_name(candidates[i].name@),
    ensures
        spec_selected_files(candidates, false, None, with_icon_sys).contains(candidates[i].name@),
{
    lemma_kept_names_complete(candidates, i);
    let files = kept_names(candidates, false);
    let j = choose|j: int| 0 <= j < files.len() && files[j] == candidates[i].name@;
    if with_icon_sys && !files.contains("icon.sys"@) {
        assert(files.push("icon.sys"@)[j] == candidates[i].name@);
    }
}

} // verus!
