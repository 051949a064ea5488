//! The decisions the packer's editor makes about a project folder: name
//! prefixes, the files a project needs, the file lists it edits and the
//! name of the archive it writes.
use vstd::prelude::*;
use crate::icon_title::{is_control, is_control_char};
use crate::packer::{
    Error, io_error_display, ColorConfig, ColorFConfig, Config, IconSysConfig, IconSysFlags, VectorConfig,
    default_ambient_color_spec, default_background_colors_spec, default_light_colors_spec,
    default_light_directions_spec, overlay,
};
use crate::color::Color;
use crate::icon_sys::{ColorF, IconSys, Vector};
use crate::icon_title::{spec_split_title, split_icon_sys_title};
use crate::viewer::{file_name_of, path_file_name};
use crate::title_cfg::{TitleCfg, missing_keys, parse_title_cfg};
use crate::io_error::{IoFailureKind, io_failure_kind};
use crate::psu::{PSUEntry, PSUEntryKind, PsuTimestamp};
use crate::sjis::{encode_sjis, is_roundtrip_sjis, shift_jis_decoded, shift_jis_encoded};
use crate::text::{decimal, decimal_string, is_whitespace, is_whitespace_char, string_push};
use crate::text::{
    ascii_lower, chars_eq, chars_of, lower_chars, starts_with_chars, str_eq, string_from_range,
    string_push_str, trim_spec, trim_str,
};

verus! {

/// A save-folder name prefix used by the SAS naming scheme.
#[derive(Clone, Copy, Debug, PartialEq, Eq, Structural)]
pub enum SasPrefix {
    NoPrefix,
    App,
    Apps,
    Ps1,
    Emu,
    Gme,
    Dst,
    Dbg,
    Raa,
    Rte,
    Sys,
    Zzy,
    Zzz,
}

/// The text of a prefix.
pub open spec fn prefix_text(p: SasPrefix) -> Seq<char> {
    match p {
        SasPrefix::NoPrefix => ""@,
        SasPrefix::App => "APP_"@,
        SasPrefix::Apps => "APPS"@,
        SasPrefix::Ps1 => "PS1_"@,
        SasPrefix::Emu => "EMU_"@,
        SasPrefix::Gme => "GME_"@,
        SasPrefix::Dst => "DST_"@,
        SasPrefix::Dbg => "DBG_"@,
        SasPrefix::Raa => "RAA_"@,
        SasPrefix::Rte => "RTE_"@,
        SasPrefix::Sys => "SYS_"@,
        SasPrefix::Zzy => "ZZY_"@,
        SasPrefix::Zzz => "ZZZ_"@,
    }
}

/// The prefixes a name may carry, in the order they are tried.
pub open spec fn sas_prefixes() -> Seq<SasPrefix> {
    seq![
        SasPrefix::App,
        SasPrefix::Apps,
        SasPrefix::Ps1,
        SasPrefix::Emu,
        SasPrefix::Gme,
        SasPrefix::Dst,
        SasPrefix::Dbg,
        SasPrefix::Raa,
        SasPrefix::Rte,
        SasPrefix::Sys,
        SasPrefix::Zzy,
        SasPrefix::Zzz,
    ]
}

/// The first of `ps` that `name` starts with, and the rest of the name;
/// no prefix and the whole name when there is none.
pub open spec fn split_prefix(name: Seq<char>, ps: Seq<SasPrefix>) -> (SasPrefix, Seq<char>)
    decreases ps.len(),
{
    if ps.len() == 0 {
        (SasPrefix::NoPrefix, name)
    } else if prefix_text(ps[0]).len() <= name.len() && name.take(prefix_text(ps[0]).len() as int)
        == prefix_text(ps[0]) {
        (ps[0], name.skip(prefix_text(ps[0]).len() as int))
    } else {
        split_prefix(name, ps.drop_first())
    }
}

impl Default for SasPrefix {
    fn default() -> (p: Self)
        ensures
            p == SasPrefix::App,
    {
        SasPrefix::App
    }
}

impl SasPrefix {
    /// The prefix as it stands in a name.
    pub fn as_str(self) -> (s: &'static str)
        ensures
            s@ == prefix_text(self),
    {
        match self {
            SasPrefix::NoPrefix => "",
            SasPrefix::App => "APP_",
            SasPrefix::Apps => "APPS",
            SasPrefix::Ps1 => "PS1_",
            SasPrefix::Emu => "EMU_",
            SasPrefix::Gme => "GME_",
            SasPrefix::Dst => "DST_",
            SasPrefix::Dbg => "DBG_",
            SasPrefix::Raa => "RAA_",
            SasPrefix::Rte => "RTE_",
            SasPrefix::Sys => "SYS_",
            SasPrefix::Zzy => "ZZY_",
            SasPrefix::Zzz => "ZZZ_",
        }
    }

    /// The prefix as a list shows it: `(none)` for no prefix.
    pub fn label(self) -> (s: &'static str)
        ensures
            self == SasPrefix::NoPrefix ==> s@ == "(none)"@,
            self != SasPrefix::NoPrefix ==> s@ == prefix_text(self),
    {
        match self {
            SasPrefix::NoPrefix => "(none)",
            _ => self.as_str(),
        }
    }

    /// The prefixes a name may carry, in order.
    pub fn prefixes() -> (v: Vec<SasPrefix>)
        ensures
            v@ == sas_prefixes(),
    {
        let v = vec![
            SasPrefix::App,
            SasPrefix::Apps,
            SasPrefix::Ps1,
            SasPrefix::Emu,
            SasPrefix::Gme,
            SasPrefix::Dst,
            SasPrefix::Dbg,
            SasPrefix::Raa,
            SasPrefix::Rte,
            SasPrefix::Sys,
            SasPrefix::Zzy,
            SasPrefix::Zzz,
        ];
        assert(v@ == sas_prefixes());
        v
    }

    /// Every choice a user has: no prefix, then each prefix.
    pub fn iter_all() -> (v: Vec<SasPrefix>)
        ensures
            v@ == seq![SasPrefix::NoPrefix] + sas_prefixes(),
    {
        let mut v = vec![SasPrefix::NoPrefix];
        let ps = Self::prefixes();
        let mut i: usize = 0;
        while i < ps.len()
            invariant
                i <= ps@.len(),
                ps@ == sas_prefixes(),
                v@ == seq![SasPrefix::NoPrefix] + ps@.take(i as int),
            decreases ps.len() - i,
        {
            v.push(ps[i]);
            assert(ps@.take(i + 1) == ps@.take(i as int).push(ps@[i as int]));
            i = i + 1;
        }
        assert(ps@.take(ps@.len() as int) == ps@);
        v
    }

    /// Splits a name into the first prefix it starts with and the rest.
    pub fn split_from_name(name: &str) -> (r: (SasPrefix, String))
        ensures
            (r.0, r.1@) == split_prefix(name@, sas_prefixes()),
    {
        let ps = Self::prefixes();
        let chars = chars_of(name);
        assert(ps@.skip(0) == ps@);
        let mut i: usize = 0;
        while i < ps.len()
            invariant
                i <= ps@.len(),
                ps@ == sas_prefixes(),
                chars@ == name@,
                split_prefix(name@, ps@.skip(i as int)) == split_prefix(name@, sas_prefixes()),
            decreases ps.len() - i,
        {
            let value = chars_of(ps[i].as_str());
            proof {
                assert(ps@.skip(i as int)[0] == ps@[i as int]);
                assert(ps@.skip(i as int).drop_first() == ps@.skip(i + 1));
            }
            if starts_with_chars(chars.as_slice(), value.as_slice()) {
                let rest = string_from_range(chars.as_slice(), value.len(), chars.len());
                assert(chars@.subrange(value@.len() as int, chars@.len() as int) == name@.skip(
                    value@.len() as int,
                ));
                return (ps[i], rest);
            }
            i = i + 1;
        }
        (SasPrefix::NoPrefix, name.to_owned())
    }
}

/// Which of the packer's two file lists an entry belongs to.
#[derive(Clone, Copy, Debug, PartialEq, Eq, Structural)]
pub enum ListKind {
    Include,
    Exclude,
}

impl ListKind {
    /// The list's heading.
    pub fn label(self) -> (s: &'static str)
        ensures
            self == ListKind::Include ==> s@ == "Include files"@,
            self == ListKind::Exclude ==> s@ == "Exclude files"@,
    {
        match self {
            ListKind::Include => "Include files",
            ListKind::Exclude => "Exclude files",
        }
    }
}

/// Whether `files` holds `name`.
pub open spec fn lists(files: Seq<String>, name: Seq<char>) -> bool {
    exists|i: int| 0 <= i < files.len() && (#[trigger] files[i])@ == name
}

fn list_contains(files: &Vec<String>, name: &str) -> (r: bool)
    ensures
        r == lists(files@, name@),
{
    let mut i: usize = 0;
    while i < files.len()
        invariant
            i <= files@.len(),
            forall|j: int| 0 <= j < i ==> (#[trigger] files@[j])@ != name@,
        decreases files.len() - i,
    {
        if str_eq(files[i].as_str(), name) {
            return true;
        }
        i = i + 1;
    }
    false
}

/// Adds an entry to a file list, trimmed, and gives its index.  Fails on
/// an entry that is empty once trimmed (`File name cannot be empty`) or
/// already listed (the name and ` (already listed)`).
pub fn add_file_entry(files: &mut Vec<String>, entry: &str) -> (r: Result<usize, String>)
    requires
        old(files)@.len() < usize::MAX,
    ensures
        trim_spec(entry@).len() == 0 ==> (r matches Err(m) && m@ == "File name cannot be empty"@
            && final(files)@ == old(files)@),
        trim_spec(entry@).len() > 0 && lists(old(files)@, trim_spec(entry@)) ==> (r matches Err(m)
            && m@ == trim_spec(entry@) + " (already listed)"@ && final(files)@ == old(files)@),
        trim_spec(entry@).len() > 0 && !lists(old(files)@, trim_spec(entry@)) ==> (r matches Ok(i)
            && i == old(files)@.len() && final(files)@.len() == old(files)@.len() + 1
            && final(files)@.take(i as int) == old(files)@ && final(files)@[i as int]@ == trim_spec(
            entry@,
        )),
{
    let trimmed = trim_str(entry);
    if trimmed.as_str().is_empty() {
        proof {
            assert(trimmed@.len() == 0);
        }
        return Err("File name cannot be empty".to_owned());
    }
    proof {
        assert(trimmed@.len() > 0);
    }
    if list_contains(files, trimmed.as_str()) {
        let mut message = trimmed.clone();
        string_push_str(&mut message, " (already listed)");
        return Err(message);
    }
    let ghost before = files@;
    files.push(trimmed);
    let index = files.len() - 1;
    assert(files@.take(index as int) == before);
    Ok(index)
}

/// The flag values offered for icon.sys, with their names.
pub open spec fn icon_flag_options() -> Seq<(u16, Seq<char>)> {
    seq![(0u16, "Save Data"@), (1u16, "System Software"@), (4u16, "Settings"@)]
}

/// Which icon.sys flag the user chose: one of the offered values by index,
/// or a custom value.
#[derive(Clone, Copy, Debug, PartialEq, Eq, Structural)]
pub enum IconFlagSelection {
    Preset(usize),
    Custom,
}

/// The chosen flag value; fails on a preset index past the offered values.
pub fn selected_icon_flag_value(selection: IconFlagSelection, custom: u16) -> (r: Result<
    u16,
    String,
>)
    ensures
        selection matches IconFlagSelection::Preset(i) ==> (if i < 3 {
            r == Ok::<u16, String>(icon_flag_options()[i as int].0)
        } else {
            r matches Err(m) && m@ == "Invalid icon.sys flag selection"@
        }),
        selection is Custom ==> r == Ok::<u16, String>(custom),
{
    match selection {
        IconFlagSelection::Preset(index) => {
            if index == 0 {
                Ok(0)
            } else if index == 1 {
                Ok(1)
            } else if index == 2 {
                Ok(4)
            } else {
                Err("Invalid icon.sys flag selection".to_owned())
            }
        },
        IconFlagSelection::Custom => Ok(custom),
    }
}

/// The save folder's name: the prefix, then the base name.
pub fn folder_name(prefix: SasPrefix, folder_base_name: &str) -> (name: String)
    ensures
        name@ == prefix_text(prefix) + folder_base_name@,
{
    let mut name = prefix.as_str().to_owned();
    string_push_str(&mut name, folder_base_name);
    name
}

/// The base name of the archive file: the file base name when it is not
/// blank, else the folder base name when that is not blank, each trimmed.
pub fn effective_psu_file_base_name(psu_file_base_name: &str, folder_base_name: &str) -> (r:
    Option<String>)
    ensures
        trim_spec(psu_file_base_name@).len() > 0 ==> (r matches Some(n) && n@ == trim_spec(
            psu_file_base_name@,
        )),
        trim_spec(psu_file_base_name@).len() == 0 && trim_spec(folder_base_name@).len() > 0 ==> (r
            matches Some(n) && n@ == trim_spec(folder_base_name@)),
        trim_spec(psu_file_base_name@).len() == 0 && trim_spec(folder_base_name@).len() == 0 ==> r
            is None,
{
    let trimmed_file = trim_str(psu_file_base_name);
    if !trimmed_file.as_str().is_empty() {
        return Some(trimmed_file);
    }
    let trimmed_folder = trim_str(folder_base_name);
    if trimmed_folder.as_str().is_empty() {
        None
    } else {
        Some(trimmed_folder)
    }
}

/// The archive's file name: the prefix, the effective base name and
/// `.psu`; none without a base name.
pub fn default_output_file_name(
    prefix: SasPrefix,
    psu_file_base_name: &str,
    folder_base_name: &str,
) -> (r: Option<String>)
    ensures
        trim_spec(psu_file_base_name@).len() > 0 ==> (r matches Some(n) && n@ == prefix_text(prefix)
            + trim_spec(psu_file_base_name@) + ".psu"@),
        trim_spec(psu_file_base_name@).len() == 0 && trim_spec(folder_base_name@).len() > 0 ==> (r
            matches Some(n) && n@ == prefix_text(prefix) + trim_spec(folder_base_name@) + ".psu"@),
        trim_spec(psu_file_base_name@).len() == 0 && trim_spec(folder_base_name@).len() == 0 ==> r
            is None,
{
    let base_name = match effective_psu_file_base_name(psu_file_base_name, folder_base_name) {
        Some(n) => n,
        None => return None,
    };
    let mut stem = prefix.as_str().to_owned();
    string_push_str(&mut stem, base_name.as_str());
    string_push_str(&mut stem, ".psu");
    Some(stem)
}

/// The list of files to archive as the configuration records it: none
/// when the list is empty.
pub fn included_files_for_config(include_files: &Vec<String>) -> (r: Option<Vec<String>>)
    ensures
        include_files@.len() == 0 ==> r is None,
        include_files@.len() > 0 ==> (r matches Some(v) && v@.map_values(|s: String| s@)
            == include_files@.map_values(|s: String| s@)),
{
    if include_files.len() == 0 {
        return None;
    }
    let mut v: Vec<String> = Vec::new();
    let mut i: usize = 0;
    while i < include_files.len()
        invariant
            i <= include_files@.len(),
            v@.map_values(|s: String| s@) == include_files@.take(i as int).map_values(
                |s: String| s@,
            ),
        decreases include_files.len() - i,
    {
        let ghost before = v@.map_values(|s: String| s@);
        let item = include_files[i].clone();
        assert(item@ == include_files@[i as int]@);
        v.push(item);
        assert(v@.map_values(|s: String| s@) == before.push(include_files@[i as int]@));
        assert(include_files@.take(i + 1) == include_files@.take(i as int).push(
            include_files@[i as int],
        ));
        i = i + 1;
    }
    assert(include_files@.take(include_files@.len() as int) == include_files@);
    Some(v)
}

/// The list of excluded files as the configuration records it: the user's
/// list, with `psu.toml` added at the end when it is missing.
pub fn excluded_files_for_config(exclude_files: &Vec<String>) -> (r: Vec<String>)
    ensures
        lists(exclude_files@, "psu.toml"@) ==> r@.map_values(|s: String| s@)
            == exclude_files@.map_values(|s: String| s@),
        !lists(exclude_files@, "psu.toml"@) ==> r@.map_values(|s: String| s@)
            == exclude_files@.map_values(|s: String| s@).push("psu.toml"@),
{
    let mut v: Vec<String> = Vec::new();
    let mut i: usize = 0;
    while i < exclude_files.len()
        invariant
            i <= exclude_files@.len(),
            v@.map_values(|s: String| s@) == exclude_files@.take(i as int).map_values(
                |s: String| s@,
            ),
        decreases exclude_files.len() - i,
    {
        let ghost before = v@.map_values(|s: String| s@);
        let item = exclude_files[i].clone();
        assert(item@ == exclude_files@[i as int]@);
        v.push(item);
        assert(v@.map_values(|s: String| s@) == before.push(exclude_files@[i as int]@));
        assert(exclude_files@.take(i + 1) == exclude_files@.take(i as int).push(
            exclude_files@[i as int],
        ));
        i = i + 1;
    }
    assert(exclude_files@.take(exclude_files@.len() as int) == exclude_files@);
    if !list_contains(exclude_files, "psu.toml") {
        let ghost before = v@.map_values(|s: String| s@);
        v.push("psu.toml".to_owned());
        assert(v@.map_values(|s: String| s@) == before.push("psu.toml"@));
    }
    v
}

/// How an archive's timestamp is chosen.
#[derive(Clone, Copy, Debug, PartialEq, Eq, Structural)]
pub enum TimestampStrategy {
    NoTimestamp,
    InheritSource,
    SasRules,
    Manual,
}

impl Default for TimestampStrategy {
    fn default() -> (s: Self)
        ensures
            s == TimestampStrategy::NoTimestamp,
    {
        TimestampStrategy::NoTimestamp
    }
}

/// The heading that describes a timestamp strategy.
pub fn current_strategy_title(strategy: TimestampStrategy) -> (s: &'static str)
    ensures
        strategy is NoTimestamp ==> s@ == "No timestamp"@,
        strategy is InheritSource ==> s@ == "Inherited source timestamp"@,
        strategy is SasRules ==> s@ == "SAS rules timestamp"@,
        strategy is Manual ==> s@ == "Manual timestamp"@,
{
    match strategy {
        TimestampStrategy::NoTimestamp => "No timestamp",
        TimestampStrategy::InheritSource => "Inherited source timestamp",
        TimestampStrategy::SasRules => "SAS rules timestamp",
        TimestampStrategy::Manual => "Manual timestamp",
    }
}

/// Why a project needs a file that it lacks.
#[derive(Clone, Copy, Debug, PartialEq, Eq, Structural)]
pub enum MissingFileReason {
    AlwaysRequired,
    ExplicitlyIncluded,
    TimestampAutomation,
}

/// The explanation shown beside a missing file's name, if any.
pub open spec fn reason_detail(r: MissingFileReason) -> Option<Seq<char>> {
    match r {
        MissingFileReason::AlwaysRequired => None,
        MissingFileReason::ExplicitlyIncluded => Some("listed in Include files"@),
        MissingFileReason::TimestampAutomation => Some("needed for SAS timestamp automation"@),
    }
}

impl MissingFileReason {
    /// The explanation shown beside the file name, if any.
    pub fn detail(&self) -> (r: Option<&'static str>)
        ensures
            match r {
                Some(d) => reason_detail(*self) == Some(d@),
                None => reason_detail(*self) is None,
            },
            *self is AlwaysRequired ==> r is None,
            *self is ExplicitlyIncluded ==> (r matches Some(d) && d@ == "listed in Include files"@),
            *self is TimestampAutomation ==> (r matches Some(d) && d@
                == "needed for SAS timestamp automation"@),
    {
        match self {
            MissingFileReason::AlwaysRequired => None,
            MissingFileReason::ExplicitlyIncluded => Some("listed in Include files"),
            MissingFileReason::TimestampAutomation => Some("needed for SAS timestamp automation"),
        }
    }
}

/// A file the project lacks, and why it is needed.
#[derive(Clone, Debug)]
pub struct MissingRequiredFile {
    pub name: String,
    pub reason: MissingFileReason,
}

/// The file that holds the timestamp rules of a project.
pub const TIMESTAMP_RULES_FILE: &'static str = "timestamp_rules.json";

impl MissingRequiredFile {
    /// A file every project needs.
    pub fn always(name: &str) -> (f: Self)
        ensures
            f.name@ == name@,
            f.reason is AlwaysRequired,
    {
        MissingRequiredFile { name: name.to_owned(), reason: MissingFileReason::AlwaysRequired }
    }

    /// A file the list of files to archive names.
    pub fn included(name: &str) -> (f: Self)
        ensures
            f.name@ == name@,
            f.reason is ExplicitlyIncluded,
    {
        MissingRequiredFile { name: name.to_owned(), reason: MissingFileReason::ExplicitlyIncluded }
    }

    /// The timestamp rules file.
    pub fn timestamp_rules() -> (f: Self)
        ensures
            f.name@ == TIMESTAMP_RULES_FILE@,
            f.reason is TimestampAutomation,
    {
        MissingRequiredFile {
            name: TIMESTAMP_RULES_FILE.to_owned(),
            reason: MissingFileReason::TimestampAutomation,
        }
    }
}

/// The files every project needs, in order.
pub open spec fn required_project_files() -> Seq<Seq<char>> {
    seq!["icon.icn"@, "icon.sys"@, "psu.toml"@, "title.cfg"@]
}

/// The files every project needs.
pub fn required_project_files_list() -> (v: Vec<&'static str>)
    ensures
        v@.map_values(|s: &str| s@) == required_project_files(),
{
    let v = vec!["icon.icn", "icon.sys", "psu.toml", "title.cfg"];
    assert(v@.map_values(|s: &str| s@) == required_project_files());
    v
}

/// Whether some entry of the list of files to archive names `file_name`, in any ASCII
/// case.
pub open spec fn include_requires(include_files: Seq<String>, file_name: Seq<char>) -> bool {
    exists|i: int|
        0 <= i < include_files.len() && ascii_lower((#[trigger] include_files[i])@) == ascii_lower(
            file_name,
        )
}

/// Whether some entry of the list of files to archive names `file_name`, in any ASCII
/// case.
pub fn include_requires_file(include_files: &Vec<String>, file_name: &str) -> (r: bool)
    ensures
        r == include_requires(include_files@, file_name@),
{
    let target_chars = chars_of(file_name);
    let target = lower_chars(target_chars.as_slice());
    let mut i: usize = 0;
    while i < include_files.len()
        invariant
            i <= include_files@.len(),
            target@ == ascii_lower(file_name@),
            forall|j: int|
                0 <= j < i ==> ascii_lower((#[trigger] include_files@[j])@) != ascii_lower(
                    file_name@,
                ),
        decreases include_files.len() - i,
    {
        let entry_chars = chars_of(include_files[i].as_str());
        let entry = lower_chars(entry_chars.as_slice());
        if chars_eq(entry.as_slice(), target.as_slice()) {
            return true;
        }
        i = i + 1;
    }
    false
}

/// Whether packing reads the timestamp rules file: the SAS rules are the
/// strategy, and the rules came from the file or were edited.
pub fn uses_timestamp_rules_file(
    strategy: TimestampStrategy,
    rules_loaded_from_file: bool,
    rules_modified: bool,
) -> (r: bool)
    ensures
        r == (strategy is SasRules && (rules_loaded_from_file || rules_modified)),
{
    match strategy {
        TimestampStrategy::SasRules => rules_loaded_from_file || rules_modified,
        _ => false,
    }
}

/// What the caller found in the project folder: for each required file
/// whether it is a regular file there, and the same for `BOOT.ELF` and the
/// timestamp rules file.
#[derive(Clone, Debug)]
pub struct ProjectProbe {
    pub required_present: Vec<bool>,
    pub boot_elf_present: bool,
    pub timestamp_rules_present: bool,
}

/// The missing required files, in order, as names.
pub open spec fn missing_always(present: Seq<bool>) -> Seq<Seq<char>>
    decreases present.len(),
{
    if present.len() == 0 {
        Seq::empty()
    } else {
        let rest = missing_always(present.drop_last());
        if present.last() {
            rest
        } else {
            rest.push(required_project_files()[present.len() - 1])
        }
    }
}

/// The files a project lacks: each required file that is not there, then
/// `BOOT.ELF` when the list of files to archive names it and it is not there, then the
/// timestamp rules file when packing reads it and it is not there.
pub fn missing_required_project_files(
    probe: &ProjectProbe,
    include_files: &Vec<String>,
    strategy: TimestampStrategy,
    rules_loaded_from_file: bool,
    rules_modified: bool,
) -> (r: Vec<MissingRequiredFile>)
    requires
        probe.required_present@.len() == 4,
    ensures
        ({
            let always = missing_always(probe.required_present@);
            let boot = include_requires(include_files@, "BOOT.ELF"@) && !probe.boot_elf_present;
            let rules = strategy is SasRules && (rules_loaded_from_file || rules_modified)
                && !probe.timestamp_rules_present;
            &&& r@.len() == always.len() + (if boot { 1int } else { 0 }) + (if rules { 1int } else { 0 })
            &&& forall|i: int| 0 <= i < always.len() ==> (#[trigger] r@[i]).name@ == always[i]
                && r@[i].reason is AlwaysRequired
            &&& boot ==> r@[always.len() as int].name@ == "BOOT.ELF"@ && r@[always.len() as int].reason is ExplicitlyIncluded
            &&& rules ==> r@[r@.len() - 1].name@ == TIMESTAMP_RULES_FILE@ && r@[r@.len() - 1].reason is TimestampAutomation
        }),
{
    let names = required_project_files_list();
    assert(names@.len() == 4) by {
        assert(names@.map_values(|s: &str| s@).len() == 4);
    }
    let ghost present = probe.required_present@;
    let mut missing: Vec<MissingRequiredFile> = Vec::new();
    let mut i: usize = 0;
    while i < 4
        invariant
            i <= 4,
            present == probe.required_present@,
            present.len() == 4,
            names@.len() == 4,
            names@.map_values(|s: &str| s@) == required_project_files(),
            missing@.len() == missing_always(present.take(i as int)).len(),
            forall|j: int|
                0 <= j < missing@.len() ==> (#[trigger] missing@[j]).name@ == missing_always(
                    present.take(i as int),
                )[j] && missing@[j].reason is AlwaysRequired,
        decreases 4 - i,
    {
        proof {
            assert(present.take(i + 1).drop_last() == present.take(i as int));
            assert(present.take(i + 1).last() == present[i as int]);
            assert(names@[i as int]@ == required_project_files()[i as int]);
        }
        if !probe.required_present[i] {
            missing.push(MissingRequiredFile::always(names[i]));
        }
        i = i + 1;
    }
    assert(present.take(4) == present);
    let ghost n_always = missing@.len();
    if include_requires_file(include_files, "BOOT.ELF") && !probe.boot_elf_present {
        missing.push(MissingRequiredFile::included("BOOT.ELF"));
    }
    if uses_timestamp_rules_file(strategy, rules_loaded_from_file, rules_modified)
        && !probe.timestamp_rules_present {
        missing.push(MissingRequiredFile::timestamp_rules());
    }
    missing
}

/// A text file open in the editor: its text, whether it was edited, and
/// why it could not be read.
#[derive(Debug)]
pub struct TextFileEditor {
    pub content: String,
    pub modified: bool,
    pub load_error: Option<String>,
}

impl Default for TextFileEditor {
    fn default() -> (e: Self)
        ensures
            e.content@.len() == 0,
            !e.modified,
            e.load_error is None,
    {
        TextFileEditor { content: String::new(), modified: false, load_error: None }
    }
}

impl TextFileEditor {
    /// Shows freshly read text.
    pub fn set_content(&mut self, content: String)
        ensures
            final(self).content@ == content@,
            !final(self).modified,
            final(self).load_error is None,
    {
        self.content = content;
        self.modified = false;
        self.load_error = None;
    }

    /// Shows that the file could not be read.
    pub fn set_error_message(&mut self, message: String)
        ensures
            final(self).content@.len() == 0,
            !final(self).modified,
            final(self).load_error matches Some(m) && m@ == message@,
    {
        self.content = String::new();
        self.modified = false;
        self.load_error = Some(message);
    }

    /// Empties the editor.
    pub fn clear(&mut self)
        ensures
            final(self).content@.len() == 0,
            !final(self).modified,
            final(self).load_error is None,
    {
        self.content = String::new();
        self.modified = false;
        self.load_error = None;
    }
}


/// What the editor's pack form holds.
#[derive(Debug, Clone)]
pub struct PackForm {
    pub folder_base_name: String,
    pub psu_file_base_name: String,
    pub selected_prefix: SasPrefix,
    pub timestamp: Option<PsuTimestamp>,
    pub timestamp_strategy: TimestampStrategy,
    pub timestamp_from_rules: bool,
    pub source_timestamp: Option<PsuTimestamp>,
    pub manual_timestamp: Option<PsuTimestamp>,
    pub include_files: Vec<String>,
    pub exclude_files: Vec<String>,
    pub icon_sys_enabled: bool,
    pub icon_sys_use_existing: bool,
    pub icon_sys_existing: Option<IconSys>,
    pub icon_sys_title_line1: String,
    pub icon_sys_title_line2: String,
    pub icon_sys_flag_selection: IconFlagSelection,
    pub icon_sys_custom_flag: u16,
    pub icon_sys_selected_preset: Option<String>,
    pub icon_sys_background_transparency: u32,
    pub icon_sys_background_colors: [ColorConfig; 4],
    pub icon_sys_light_directions: [VectorConfig; 3],
    pub icon_sys_light_colors: [ColorFConfig; 3],
    pub icon_sys_ambient_color: ColorFConfig,
}

impl Default for PackForm {
    /// An empty form: `APP_` prefix, no lists, no generated icon.sys, and
    /// the default icon.sys colours and lights.
    fn default() -> (f: Self)
        ensures
            f.folder_base_name@.len() == 0,
            f.psu_file_base_name@.len() == 0,
            f.selected_prefix == SasPrefix::App,
            f.timestamp is None,
            f.timestamp_strategy == TimestampStrategy::NoTimestamp,
            !f.timestamp_from_rules,
            f.source_timestamp is None,
            f.manual_timestamp is None,
            f.include_files@.len() == 0,
            f.exclude_files@.len() == 0,
            !f.icon_sys_enabled,
            !f.icon_sys_use_existing,
            f.icon_sys_existing is None,
            f.icon_sys_title_line1@.len() == 0,
            f.icon_sys_title_line2@.len() == 0,
            f.icon_sys_flag_selection == IconFlagSelection::Preset(0),
            f.icon_sys_custom_flag == 0,
            f.icon_sys_selected_preset is None,
            f.icon_sys_background_transparency == 0,
    {
        PackForm {
            folder_base_name: String::new(),
            psu_file_base_name: String::new(),
            selected_prefix: SasPrefix::App,
            timestamp: None,
            timestamp_strategy: TimestampStrategy::NoTimestamp,
            timestamp_from_rules: false,
            source_timestamp: None,
            manual_timestamp: None,
            include_files: Vec::new(),
            exclude_files: Vec::new(),
            icon_sys_enabled: false,
            icon_sys_use_existing: false,
            icon_sys_existing: None,
            icon_sys_title_line1: String::new(),
            icon_sys_title_line2: String::new(),
            icon_sys_flag_selection: IconFlagSelection::Preset(0),
            icon_sys_custom_flag: 0,
            icon_sys_selected_preset: None,
            icon_sys_background_transparency: IconSysConfig::default_background_transparency(),
            icon_sys_background_colors: IconSysConfig::default_background_colors(),
            icon_sys_light_directions: IconSysConfig::default_light_directions(),
            icon_sys_light_colors: IconSysConfig::default_light_colors(),
            icon_sys_ambient_color: IconSysConfig::default_ambient_color(),
        }
    }
}

/// The message for an icon.sys title without a Shift-JIS form.
pub open spec fn sjis_title_message() -> Seq<char> {
    "Icon.sys titles must contain characters representable in Shift-JIS"@
}

/// The flag value a selection gives, if any.
pub open spec fn spec_flag_value(selection: IconFlagSelection, custom: u16) -> Option<u16> {
    match selection {
        IconFlagSelection::Preset(i) => if i < 3 {
            Some(icon_flag_options()[i as int].0)
        } else {
            None
        },
        IconFlagSelection::Custom => Some(custom),
    }
}

/// Whether an icon.sys title line is acceptable: no control characters,
/// and it survives Shift-JIS both ways.
pub open spec fn title_line_valid(line: Seq<char>) -> bool {
    &&& forall|i: int| 0 <= i < line.len() ==> !is_control_char(#[trigger] line[i])
    &&& {
        let (bytes, enc_err) = shift_jis_encoded(line);
        let (text, dec_err) = shift_jis_decoded(bytes);
        !enc_err && !dec_err && text == line
    }
}

/// Whether a text has a character other than whitespace.
pub open spec fn has_content(s: Seq<char>) -> bool {
    exists|i: int| 0 <= i < s.len() && !is_whitespace_char(#[trigger] s[i])
}

fn any_control(s: &str) -> (r: bool)
    ensures
        r == exists|i: int| 0 <= i < s@.len() && is_control_char(#[trigger] s@[i]),
{
    let chars = chars_of(s);
    let mut i: usize = 0;
    while i < chars.len()
        invariant
            i <= chars@.len(),
            chars@ == s@,
            forall|j: int| 0 <= j < i ==> !is_control_char(#[trigger] chars@[j]),
        decreases chars.len() - i,
    {
        if is_control(chars[i]) {
            assert(is_control_char(s@[i as int]));
            return true;
        }
        i = i + 1;
    }
    false
}

fn any_content(s: &str) -> (r: bool)
    ensures
        r == has_content(s@),
{
    let chars = chars_of(s);
    let mut i: usize = 0;
    while i < chars.len()
        invariant
            i <= chars@.len(),
            chars@ == s@,
            forall|j: int| 0 <= j < i ==> is_whitespace_char(#[trigger] chars@[j]),
        decreases chars.len() - i,
    {
        if !is_whitespace(chars[i]) {
            assert(!is_whitespace_char(s@[i as int]));
            return true;
        }
        i = i + 1;
    }
    false
}

fn char_count(s: &str) -> (n: usize)
    ensures
        n == s@.len(),
{
    chars_of(s).len()
}

/// The icon.sys settings a form describes: the first title line encoded as
/// Shift-JIS gives the line break (its length cut to 16 bits); the title
/// is the two lines joined; the rest is taken as the form holds it.
pub open spec fn form_icon_sys_matches(f: PackForm, c: IconSysConfig, flag: u16) -> bool {
    &&& c.flags.0 == flag
    &&& c.title@ == f.icon_sys_title_line1@ + f.icon_sys_title_line2@
    &&& c.linebreak_pos == Some(
        (shift_jis_encoded(f.icon_sys_title_line1@).0.len() % 0x1_0000) as u16,
    )
    &&& match (c.preset, f.icon_sys_selected_preset) {
        (Some(a), Some(b)) => a@ == b@,
        (None, None) => true,
        _ => false,
    }
    &&& c.background_transparency == Some(f.icon_sys_background_transparency)
    &&& c.background_colors matches Some(v) && v@ == f.icon_sys_background_colors@
    &&& c.light_directions matches Some(v) && v@ == f.icon_sys_light_directions@
    &&& c.light_colors matches Some(v) && v@ == f.icon_sys_light_colors@
    &&& c.ambient_color == Some(f.icon_sys_ambient_color)
}

/// Whether the form asks for a generated icon.sys.
pub open spec fn form_makes_icon_sys(f: PackForm) -> bool {
    f.icon_sys_enabled && !f.icon_sys_use_existing
}

fn clone_preset(p: &Option<String>) -> (r: Option<String>)
    ensures
        match (r, *p) {
            (Some(a), Some(b)) => a@ == b@,
            (None, None) => true,
            _ => false,
        },
{
    match p {
        Some(s) => Some(s.clone()),
        None => None,
    }
}

/// Whether `c` is the configuration a form describes: the prefixed name,
/// the timestamp, the include list (none when empty), the exclude list with
/// psu.toml added once, and the generated icon.sys settings when asked for.
pub open spec fn config_describes_form(f: PackForm, c: Config) -> bool {
    &&& trim_spec(f.folder_base_name@).len() > 0
    &&& c.name@ == prefix_text(f.selected_prefix) + f.folder_base_name@
    &&& c.timestamp == f.timestamp
    &&& (f.include_files@.len() == 0 ==> c.inclusions is None)
    &&& (f.include_files@.len() > 0 ==> (c.inclusions matches Some(v) && v@.map_values(
        |s: String| s@,
    ) == f.include_files@.map_values(|s: String| s@)))
    &&& c.exclude matches Some(v) && (lists(f.exclude_files@, "psu.toml"@) ==> v@.map_values(
        |s: String| s@,
    ) == f.exclude_files@.map_values(|s: String| s@)) && (!lists(
        f.exclude_files@,
        "psu.toml"@,
    ) ==> v@.map_values(|s: String| s@) == f.exclude_files@.map_values(
        |s: String| s@,
    ).push("psu.toml"@))
    &&& (!form_makes_icon_sys(f) ==> c.icon_sys is None)
    &&& (form_makes_icon_sys(f) ==> (c.icon_sys matches Some(i)
        && form_icon_sys_matches(
        f,
        i,
        spec_flag_value(f.icon_sys_flag_selection, f.icon_sys_custom_flag).unwrap(),
    )))
}

/// The first complaint about a form's icon.sys settings, if any: only a
/// generated icon.sys is checked, line lengths first, then Shift-JIS, then
/// that the title is not blank, then the flag selection.
pub open spec fn icon_sys_settings_error(f: PackForm) -> Option<Seq<char>> {
    let l1 = f.icon_sys_title_line1@;
    let l2 = f.icon_sys_title_line2@;
    if !form_makes_icon_sys(f) {
        None
    } else if l1.len() > 16 {
        Some("Icon.sys line 1 cannot exceed 16 characters"@)
    } else if l2.len() > 16 {
        Some("Icon.sys line 2 cannot exceed 16 characters"@)
    } else if !(title_line_valid(l1) && title_line_valid(l2)) {
        Some(sjis_title_message())
    } else if !(has_content(l1) || has_content(l2)) {
        Some("Provide at least one non-space character for the icon.sys title"@)
    } else if spec_flag_value(f.icon_sys_flag_selection, f.icon_sys_custom_flag) is None {
        Some("Invalid icon.sys flag selection"@)
    } else {
        None
    }
}

impl PackForm {
    /// The configuration the form describes.  Fails, in this order, when a
    /// generated icon.sys is asked for and its first title line has no
    /// Shift-JIS form or the flag selection is invalid, or when the folder
    /// base name is blank.
    pub fn config_from_state(&self) -> (r: Result<Config, String>)
        ensures
            form_makes_icon_sys(*self) && shift_jis_encoded(self.icon_sys_title_line1@).1 ==> (r
                matches Err(m) && m@ == sjis_title_message()),
            form_makes_icon_sys(*self) && !shift_jis_encoded(self.icon_sys_title_line1@).1
                && spec_flag_value(self.icon_sys_flag_selection, self.icon_sys_custom_flag) is None
                ==> (r matches Err(m) && m@ == "Invalid icon.sys flag selection"@),
            (form_makes_icon_sys(*self) ==> !shift_jis_encoded(self.icon_sys_title_line1@).1
                && spec_flag_value(self.icon_sys_flag_selection, self.icon_sys_custom_flag) is Some)
                && trim_spec(self.folder_base_name@).len() == 0 ==> (r matches Err(m) && m@
                == "PSU name cannot be empty"@),
            r matches Ok(c) ==> config_describes_form(*self, c),
            (form_makes_icon_sys(*self) ==> !shift_jis_encoded(self.icon_sys_title_line1@).1
                && spec_flag_value(self.icon_sys_flag_selection, self.icon_sys_custom_flag) is Some)
                && trim_spec(self.folder_base_name@).len() > 0 ==> r is Ok,
    {
        let inclusions = included_files_for_config(&self.include_files);
        let exclude = excluded_files_for_config(&self.exclude_files);
        let icon_sys = if self.icon_sys_enabled && !self.icon_sys_use_existing {
            let encoded_line1 = match encode_sjis(self.icon_sys_title_line1.as_str()) {
                Ok(b) => b,
                Err(_) => {
                    return Err(
                        "Icon.sys titles must contain characters representable in Shift-JIS".to_owned(),
                    );
                },
            };
            let n: usize = encoded_line1.len();
            let linebreak_pos = (#[verifier::truncate] (n as u16));
            assert(linebreak_pos == (n % 0x1_0000) as u16) by (bit_vector)
                requires
                    linebreak_pos == (#[verifier::truncate] (n as u16)),
            ;
            let mut combined_title = self.icon_sys_title_line1.clone();
            string_push_str(&mut combined_title, self.icon_sys_title_line2.as_str());
            let flag_value = selected_icon_flag_value(
                self.icon_sys_flag_selection,
                self.icon_sys_custom_flag,
            )?;
            let bg = self.icon_sys_background_colors;
            let dirs = self.icon_sys_light_directions;
            let lights = self.icon_sys_light_colors;
            let background_colors = vec![bg[0], bg[1], bg[2], bg[3]];
            let light_directions = vec![dirs[0], dirs[1], dirs[2]];
            let light_colors = vec![lights[0], lights[1], lights[2]];
            assert(background_colors@ == bg@);
            assert(light_directions@ == dirs@);
            assert(light_colors@ == lights@);
            Some(
                IconSysConfig {
                    flags: IconSysFlags::new(flag_value),
                    title: combined_title,
                    linebreak_pos: Some(linebreak_pos),
                    preset: clone_preset(&self.icon_sys_selected_preset),
                    background_transparency: Some(self.icon_sys_background_transparency),
                    background_colors: Some(background_colors),
                    light_directions: Some(light_directions),
                    light_colors: Some(light_colors),
                    ambient_color: Some(self.icon_sys_ambient_color),
                },
            )
        } else {
            None
        };
        let trimmed = trim_str(self.folder_base_name.as_str());
        if trimmed.as_str().is_empty() {
            return Err("PSU name cannot be empty".to_owned());
        }
        let name = folder_name(self.selected_prefix, self.folder_base_name.as_str());
        Ok(
            Config {
                name,
                timestamp: self.timestamp,
                inclusions,
                exclude: Some(exclude),
                icon_sys,
            },
        )
    }

    /// Checks the icon.sys settings of the form when a generated icon.sys
    /// is asked for: each title line at most 16 characters, without
    /// control characters and surviving Shift-JIS, some character other
    /// than whitespace, and a valid flag selection.
    pub fn validate_icon_sys_settings(&self) -> (r: Result<(), String>)
        ensures
            match icon_sys_settings_error(*self) {
                Some(m) => r matches Err(e) && e@ == m,
                None => r is Ok,
            },
            !form_makes_icon_sys(*self) ==> r is Ok,
            form_makes_icon_sys(*self) ==> {
                let l1 = self.icon_sys_title_line1@;
                let l2 = self.icon_sys_title_line2@;
                &&& l1.len() > 16 ==> (r matches Err(m) && m@
                    == "Icon.sys line 1 cannot exceed 16 characters"@)
                &&& l1.len() <= 16 && l2.len() > 16 ==> (r matches Err(m) && m@
                    == "Icon.sys line 2 cannot exceed 16 characters"@)
                &&& l1.len() <= 16 && l2.len() <= 16 && !(title_line_valid(l1) && title_line_valid(
                    l2,
                )) ==> (r matches Err(m) && m@ == sjis_title_message())
                &&& l1.len() <= 16 && l2.len() <= 16 && title_line_valid(l1) && title_line_valid(l2)
                    && !(has_content(l1) || has_content(l2)) ==> (r matches Err(m) && m@
                    == "Provide at least one non-space character for the icon.sys title"@)
                &&& l1.len() <= 16 && l2.len() <= 16 && title_line_valid(l1) && title_line_valid(l2)
                    && (has_content(l1) || has_content(l2)) ==> (r is Ok <==> spec_flag_value(
                    self.icon_sys_flag_selection,
                    self.icon_sys_custom_flag,
                ) is Some)
            },
    {
        if self.icon_sys_enabled && !self.icon_sys_use_existing {
            let line1 = self.icon_sys_title_line1.as_str();
            let line2 = self.icon_sys_title_line2.as_str();
            if char_count(line1) > 16 {
                return Err("Icon.sys line 1 cannot exceed 16 characters".to_owned());
            }
            if char_count(line2) > 16 {
                return Err("Icon.sys line 2 cannot exceed 16 characters".to_owned());
            }
            let valid1 = !any_control(line1) && is_roundtrip_sjis(line1);
            let valid2 = !any_control(line2) && is_roundtrip_sjis(line2);
            if !valid1 || !valid2 {
                return Err(
                    "Icon.sys titles must contain characters representable in Shift-JIS".to_owned(),
                );
            }
            if !(any_content(line1) || any_content(line2)) {
                return Err(
                    "Provide at least one non-space character for the icon.sys title".to_owned(),
                );
            }
            match selected_icon_flag_value(self.icon_sys_flag_selection, self.icon_sys_custom_flag) {
                Ok(_) => {},
                Err(e) => {
                    return Err(e);
                },
            }
        }
        Ok(())
    }

    /// The configuration, after the icon.sys settings pass their checks.
    pub fn build_config(&self) -> (r: Result<Config, String>)
        ensures
            self.validate_ok() ==> (r is Ok <==> trim_spec(self.folder_base_name@).len() > 0),
            !self.validate_ok() ==> r is Err,
            icon_sys_settings_error(*self) matches Some(m) ==> (r matches Err(e) && e@ == m),
            icon_sys_settings_error(*self) is None && trim_spec(self.folder_base_name@).len() == 0
                ==> (r matches Err(e) && e@ == "PSU name cannot be empty"@),
            r matches Ok(c) ==> config_describes_form(*self, c),
    {
        match self.validate_icon_sys_settings() {
            Ok(()) => {},
            Err(e) => {
                return Err(e);
            },
        }
        self.config_from_state()
    }

    /// Whether the icon.sys settings pass `validate_icon_sys_settings`.
    pub open spec fn validate_ok(self) -> bool {
        form_makes_icon_sys(self) ==> {
            let l1 = self.icon_sys_title_line1@;
            let l2 = self.icon_sys_title_line2@;
            &&& l1.len() <= 16
            &&& l2.len() <= 16
            &&& title_line_valid(l1)
            &&& title_line_valid(l2)
            &&& (has_content(l1) || has_content(l2))
            &&& spec_flag_value(self.icon_sys_flag_selection, self.icon_sys_custom_flag) is Some
        }
    }
}


/// What the editor takes from an opened archive: the save folder's name
/// and creation time, the names of its files, and the contents of its
/// `psu.toml`, `title.cfg` and `icon.sys`.
#[derive(Debug)]
pub struct LoadedPsu {
    pub root_name: String,
    pub root_timestamp: PsuTimestamp,
    pub files: Vec<String>,
    pub psu_toml: Option<Vec<u8>>,
    pub title_cfg: Option<Vec<u8>>,
    pub icon_sys: Option<Vec<u8>>,
}

/// Whether an entry is a directory other than `.` and `..`.
pub open spec fn is_folder_entry(e: PSUEntry) -> bool {
    e.kind == PSUEntryKind::Directory && e.name@ != "."@ && e.name@ != ".."@
}

/// The index of the first folder entry.
pub open spec fn first_folder(e: Seq<PSUEntry>) -> Option<int>
    decreases e.len(),
{
    if e.len() == 0 {
        None
    } else {
        match first_folder(e.drop_last()) {
            Some(i) => Some(i),
            None => if is_folder_entry(e.last()) {
                Some(e.len() - 1)
            } else {
                None
            },
        }
    }
}

/// The names of the file entries, in order.
pub open spec fn file_names(e: Seq<PSUEntry>) -> Seq<Seq<char>>
    decreases e.len(),
{
    if e.len() == 0 {
        Seq::empty()
    } else if e.last().kind == PSUEntryKind::File {
        file_names(e.drop_last()).push(e.last().name@)
    } else {
        file_names(e.drop_last())
    }
}

/// Whether an entry is a file called `name` in any ASCII case, with
/// contents.
pub open spec fn is_named_file(e: PSUEntry, name: Seq<char>) -> bool {
    e.kind == PSUEntryKind::File && ascii_lower(e.name@) == ascii_lower(name) && e.contents is Some
}

/// The index of the first file entry called `name` (any ASCII case) with
/// contents.
pub open spec fn first_named_file(e: Seq<PSUEntry>, name: Seq<char>) -> Option<int>
    decreases e.len(),
{
    if e.len() == 0 {
        None
    } else {
        match first_named_file(e.drop_last(), name) {
            Some(i) => Some(i),
            None => if is_named_file(e.last(), name) {
                Some(e.len() - 1)
            } else {
                None
            },
        }
    }
}

/// Whether `found` holds the contents of the entry `first_named_file`
/// finds, or nothing when there is none.
pub open spec fn found_contents(e: Seq<PSUEntry>, name: Seq<char>, found: Option<Vec<u8>>) -> bool {
    match first_named_file(e, name) {
        Some(i) => found matches Some(b) && b@ == e[i].contents.unwrap()@,
        None => found is None,
    }
}

proof fn lemma_first_bounds(e: Seq<PSUEntry>, name: Seq<char>)
    ensures
        first_folder(e) matches Some(i) ==> 0 <= i < e.len() && is_folder_entry(e[i]),
        first_named_file(e, name) matches Some(i) ==> 0 <= i < e.len() && is_named_file(
            e[i],
            name,
        ),
    decreases e.len(),
{
    if e.len() > 0 {
        lemma_first_bounds(e.drop_last(), name);
    }
}

fn named_like(e: &PSUEntry, lower_target: &Vec<char>) -> (r: bool)
    ensures
        r == (e.kind == PSUEntryKind::File && ascii_lower(e.name@) == lower_target@),
{
    match e.kind {
        PSUEntryKind::File => {
            let name = lower_chars(chars_of(e.name.as_str()).as_slice());
            chars_eq(name.as_slice(), lower_target.as_slice())
        },
        PSUEntryKind::Directory => false,
    }
}

fn clone_bytes(b: &Vec<u8>) -> (r: Vec<u8>)
    ensures
        r@ == b@,
{
    let mut r: Vec<u8> = Vec::new();
    let mut i: usize = 0;
    while i < b.len()
        invariant
            i <= b@.len(),
            r@ == b@.take(i as int),
        decreases b.len() - i,
    {
        r.push(b[i]);
        assert(b@.take(i + 1) == b@.take(i as int).push(b@[i as int]));
        i = i + 1;
    }
    assert(b@.take(b@.len() as int) == b@);
    r
}

/// What an opened archive gives the editor; `None` when it has no folder
/// entry other than `.` and `..`.
pub fn summarize_psu_entries(entries: &Vec<PSUEntry>) -> (r: Option<LoadedPsu>)
    ensures
        first_folder(entries@) is None <==> r is None,
        r matches Some(l) ==> {
            let i = first_folder(entries@).unwrap();
            &&& l.root_name@ == entries@[i].name@
            &&& l.root_timestamp == entries@[i].created
            &&& l.files@.map_values(|s: String| s@) == file_names(entries@)
            &&& found_contents(entries@, "psu.toml"@, l.psu_toml)
            &&& found_contents(entries@, "title.cfg"@, l.title_cfg)
            &&& found_contents(entries@, "icon.sys"@, l.icon_sys)
        },
{
    let toml_name = lower_chars(chars_of("psu.toml").as_slice());
    let cfg_name = lower_chars(chars_of("title.cfg").as_slice());
    let icon_name = lower_chars(chars_of("icon.sys").as_slice());
    let mut root: Option<(String, PsuTimestamp)> = None;
    let mut files: Vec<String> = Vec::new();
    let mut psu_toml: Option<Vec<u8>> = None;
    let mut title_cfg: Option<Vec<u8>> = None;
    let mut icon_sys: Option<Vec<u8>> = None;
    let mut i: usize = 0;
    while i < entries.len()
        invariant
            i <= entries@.len(),
            toml_name@ == ascii_lower("psu.toml"@),
            cfg_name@ == ascii_lower("title.cfg"@),
            icon_name@ == ascii_lower("icon.sys"@),
            match (root, first_folder(entries@.take(i as int))) {
                (Some((n, t)), Some(k)) => n@ == entries@[k].name@ && t == entries@[k].created,
                (None, None) => true,
                _ => false,
            },
            files@.map_values(|s: String| s@) == file_names(entries@.take(i as int)),
            found_contents(entries@.take(i as int), "psu.toml"@, psu_toml),
            found_contents(entries@.take(i as int), "title.cfg"@, title_cfg),
            found_contents(entries@.take(i as int), "icon.sys"@, icon_sys),
        decreases entries.len() - i,
    {
        let e = &entries[i];
        let ghost pre = entries@.take(i as int);
        let ghost cur = entries@.take(i + 1);
        proof {
            assert(cur.drop_last() == pre);
            assert(cur.last() == entries@[i as int]);
            lemma_first_bounds(pre, "psu.toml"@);
            lemma_first_bounds(pre, "title.cfg"@);
            lemma_first_bounds(pre, "icon.sys"@);
            assert forall|k: int| 0 <= k < i implies cur[k] == pre[k] && pre[k] == entries@[k] by {}
        }
        match e.kind {
            PSUEntryKind::Directory => {
                if root.is_none() && !str_eq(e.name.as_str(), ".") && !str_eq(e.name.as_str(), "..") {
                    root = Some((e.name.clone(), e.created));
                }
            },
            PSUEntryKind::File => {
                if psu_toml.is_none() && named_like(e, &toml_name) {
                    match &e.contents {
                        Some(b) => {
                            psu_toml = Some(clone_bytes(b));
                        },
                        None => {},
                    }
                }
                if title_cfg.is_none() && named_like(e, &cfg_name) {
                    match &e.contents {
                        Some(b) => {
                            title_cfg = Some(clone_bytes(b));
                        },
                        None => {},
                    }
                }
                if icon_sys.is_none() && named_like(e, &icon_name) {
                    match &e.contents {
                        Some(b) => {
                            icon_sys = Some(clone_bytes(b));
                        },
                        None => {},
                    }
                }
                let ghost before = files@.map_values(|s: String| s@);
                files.push(e.name.clone());
                assert(files@.map_values(|s: String| s@) == before.push(e.name@));
            },
        }
        i = i + 1;
    }
    assert(entries@.take(entries@.len() as int) == entries@);
    match root {
        Some((root_name, root_timestamp)) => Some(
            LoadedPsu { root_name, root_timestamp, files, psu_toml, title_cfg, icon_sys },
        ),
        None => None,
    }
}


/// The flag selection a flag value gives: the offered option with that
/// value, or a custom value.
pub open spec fn flag_selection_of(value: u16) -> IconFlagSelection {
    if value == icon_flag_options()[0].0 {
        IconFlagSelection::Preset(0)
    } else if value == icon_flag_options()[1].0 {
        IconFlagSelection::Preset(1)
    } else if value == icon_flag_options()[2].0 {
        IconFlagSelection::Preset(2)
    } else {
        IconFlagSelection::Custom
    }
}

/// The selection for a flag value: the index of the offered option that has
/// it, or custom.
pub fn flag_selection_for(value: u16) -> (r: IconFlagSelection)
    ensures
        r == flag_selection_of(value),
{
    if value == 0 {
        IconFlagSelection::Preset(0)
    } else if value == 1 {
        IconFlagSelection::Preset(1)
    } else if value == 4 {
        IconFlagSelection::Preset(2)
    } else {
        IconFlagSelection::Custom
    }
}

pub open spec fn color_config_of(c: Color) -> ColorConfig {
    ColorConfig { r: c.r, g: c.g, b: c.b, a: c.a }
}

pub open spec fn color_f_config_of(c: ColorF) -> ColorFConfig {
    ColorFConfig { r: c.r, g: c.g, b: c.b, a: c.a }
}

pub open spec fn vector_config_of(v: Vector) -> VectorConfig {
    VectorConfig { x: v.x, y: v.y, z: v.z, w: v.w }
}

fn color_configs(c: &[Color; 4]) -> (r: [ColorConfig; 4])
    ensures
        r@ == c@.map_values(|x: Color| color_config_of(x)),
{
    let r = [
        ColorConfig { r: c[0].r, g: c[0].g, b: c[0].b, a: c[0].a },
        ColorConfig { r: c[1].r, g: c[1].g, b: c[1].b, a: c[1].a },
        ColorConfig { r: c[2].r, g: c[2].g, b: c[2].b, a: c[2].a },
        ColorConfig { r: c[3].r, g: c[3].g, b: c[3].b, a: c[3].a },
    ];
    assert(r@ == c@.map_values(|x: Color| color_config_of(x)));
    r
}

fn color_f_configs(c: &[ColorF; 3]) -> (r: [ColorFConfig; 3])
    ensures
        r@ == c@.map_values(|x: ColorF| color_f_config_of(x)),
{
    let r = [
        ColorFConfig { r: c[0].r, g: c[0].g, b: c[0].b, a: c[0].a },
        ColorFConfig { r: c[1].r, g: c[1].g, b: c[1].b, a: c[1].a },
        ColorFConfig { r: c[2].r, g: c[2].g, b: c[2].b, a: c[2].a },
    ];
    assert(r@ == c@.map_values(|x: ColorF| color_f_config_of(x)));
    r
}

fn vector_configs(v: &[Vector; 3]) -> (r: [VectorConfig; 3])
    ensures
        r@ == v@.map_values(|x: Vector| vector_config_of(x)),
{
    let r = [
        VectorConfig { x: v[0].x, y: v[0].y, z: v[0].z, w: v[0].w },
        VectorConfig { x: v[1].x, y: v[1].y, z: v[1].z, w: v[1].w },
        VectorConfig { x: v[2].x, y: v[2].y, z: v[2].z, w: v[2].w },
    ];
    assert(r@ == v@.map_values(|x: Vector| vector_config_of(x)));
    r
}

/// Whether two forms agree on everything but their icon.sys settings.
pub open spec fn same_project_fields(a: PackForm, b: PackForm) -> bool {
    &&& a.folder_base_name@ == b.folder_base_name@
    &&& a.psu_file_base_name@ == b.psu_file_base_name@
    &&& a.selected_prefix == b.selected_prefix
    &&& a.timestamp == b.timestamp
    &&& a.timestamp_strategy == b.timestamp_strategy
    &&& a.timestamp_from_rules == b.timestamp_from_rules
    &&& a.source_timestamp == b.source_timestamp
    &&& a.manual_timestamp == b.manual_timestamp
    &&& a.include_files@ == b.include_files@
    &&& a.exclude_files@ == b.exclude_files@
}

/// Whether a form shows the title of an icon.sys broken at `linebreak`.
pub open spec fn shows_title(f: PackForm, title: Seq<char>, linebreak: u16) -> bool {
    (f.icon_sys_title_line1@, f.icon_sys_title_line2@) == spec_split_title(title, linebreak as int)
}

/// Whether a form's icon.sys settings are those of an empty form.
pub open spec fn icon_fields_reset(f: PackForm) -> bool {
    &&& !f.icon_sys_enabled
    &&& !f.icon_sys_use_existing
    &&& f.icon_sys_existing is None
    &&& f.icon_sys_title_line1@.len() == 0
    &&& f.icon_sys_title_line2@.len() == 0
    &&& f.icon_sys_flag_selection == IconFlagSelection::Preset(0)
    &&& f.icon_sys_custom_flag == icon_flag_options()[0].0
    &&& f.icon_sys_background_transparency == 0
    &&& f.icon_sys_background_colors@ == default_background_colors_spec()
    &&& f.icon_sys_light_directions@ == default_light_directions_spec()
    &&& f.icon_sys_light_colors@ == default_light_colors_spec()
    &&& f.icon_sys_ambient_color == default_ambient_color_spec()
    &&& f.icon_sys_selected_preset is None
}

/// Whether a form shows an icon.sys read from the project, kept to be
/// packed as it is.
pub open spec fn icon_file_shown(f: PackForm, icon_sys: IconSys) -> bool {
    &&& f.icon_sys_enabled
    &&& f.icon_sys_use_existing
    &&& f.icon_sys_existing == Some(icon_sys)
    &&& f.icon_sys_custom_flag == icon_sys.flags
    &&& f.icon_sys_flag_selection == flag_selection_of(icon_sys.flags)
    &&& shows_title(f, icon_sys.title@, icon_sys.linebreak_pos)
    &&& f.icon_sys_background_transparency == icon_sys.background_transparency
    &&& f.icon_sys_background_colors@ == icon_sys.background_colors@.map_values(
        |x: Color| color_config_of(x),
    )
    &&& f.icon_sys_light_directions@ == icon_sys.light_directions@.map_values(
        |x: Vector| vector_config_of(x),
    )
    &&& f.icon_sys_light_colors@ == icon_sys.light_colors@.map_values(
        |x: ColorF| color_f_config_of(x),
    )
    &&& f.icon_sys_ambient_color == color_f_config_of(icon_sys.ambient_color)
    &&& f.icon_sys_selected_preset is None
}

/// Whether a form shows the `[icon_sys]` table `cfg`, with what it leaves
/// out taken from `fallback` where there is one, else from the defaults.
pub open spec fn icon_config_shown(
    f: PackForm,
    cfg: IconSysConfig,
    fallback: Option<IconSys>,
) -> bool {
    &&& f.icon_sys_enabled
    &&& !f.icon_sys_use_existing
    &&& f.icon_sys_custom_flag == cfg.flags.0
    &&& f.icon_sys_flag_selection == flag_selection_of(cfg.flags.0)
    &&& shows_title(
        f,
        cfg.title@,
        match cfg.linebreak_pos {
            Some(p) => p,
            None => 0u16,
        },
    )
    &&& f.icon_sys_background_transparency == match cfg.background_transparency {
        Some(t) => t,
        None => match fallback {
            Some(x) => x.background_transparency,
            None => 0u32,
        },
    }
    &&& f.icon_sys_background_colors@ == match cfg.background_colors {
        Some(v) => overlay(default_background_colors_spec(), Some(v@)),
        None => match fallback {
            Some(x) => x.background_colors@.map_values(|c: Color| color_config_of(c)),
            None => default_background_colors_spec(),
        },
    }
    &&& f.icon_sys_light_directions@ == match cfg.light_directions {
        Some(v) => overlay(default_light_directions_spec(), Some(v@)),
        None => match fallback {
            Some(x) => x.light_directions@.map_values(|c: Vector| vector_config_of(c)),
            None => default_light_directions_spec(),
        },
    }
    &&& f.icon_sys_light_colors@ == match cfg.light_colors {
        Some(v) => overlay(default_light_colors_spec(), Some(v@)),
        None => match fallback {
            Some(x) => x.light_colors@.map_values(|c: ColorF| color_f_config_of(c)),
            None => default_light_colors_spec(),
        },
    }
    &&& f.icon_sys_ambient_color == match cfg.ambient_color {
        Some(c) => c,
        None => match fallback {
            Some(x) => color_f_config_of(x.ambient_color),
            None => default_ambient_color_spec(),
        },
    }
    &&& match (f.icon_sys_selected_preset, cfg.preset) {
        (Some(a), Some(b)) => a@ == b@,
        (None, None) => true,
        _ => false,
    }
}

/// The value an optional reference points to.
pub open spec fn deref_icon_sys(o: Option<&IconSys>) -> Option<IconSys> {
    match o {
        Some(x) => Some(*x),
        None => None,
    }
}

impl PackForm {
    /// Clears the icon.sys settings back to those of an empty form.
    pub fn reset_icon_sys_fields(&mut self)
        ensures
            same_project_fields(*final(self), *old(self)),
            icon_fields_reset(*final(self)),
    {
        self.icon_sys_enabled = false;
        self.icon_sys_use_existing = false;
        self.icon_sys_existing = None;
        self.icon_sys_title_line1 = String::new();
        self.icon_sys_title_line2 = String::new();
        self.icon_sys_flag_selection = IconFlagSelection::Preset(0);
        self.icon_sys_custom_flag = 0;
        self.icon_sys_background_transparency = IconSysConfig::default_background_transparency();
        self.icon_sys_background_colors = IconSysConfig::default_background_colors();
        self.icon_sys_light_directions = IconSysConfig::default_light_directions();
        self.icon_sys_light_colors = IconSysConfig::default_light_colors();
        self.icon_sys_ambient_color = IconSysConfig::default_ambient_color();
        self.icon_sys_selected_preset = None;
    }

    /// Shows an icon.sys read from the project: the form keeps it to be
    /// packed as it is, and its fields fill the icon.sys settings.
    pub fn apply_icon_sys_file(&mut self, icon_sys: &IconSys)
        ensures
            same_project_fields(*final(self), *old(self)),
            icon_file_shown(*final(self), *icon_sys),
    {
        let flag_value = icon_sys.flags;
        self.icon_sys_enabled = true;
        self.icon_sys_use_existing = true;
        self.icon_sys_existing = Some(icon_sys.duplicate());
        self.icon_sys_custom_flag = flag_value;
        self.icon_sys_flag_selection = flag_selection_for(flag_value);
        let (line1, line2) = split_icon_sys_title(
            icon_sys.title.as_str(),
            icon_sys.linebreak_pos as usize,
        );
        self.icon_sys_title_line1 = line1;
        self.icon_sys_title_line2 = line2;
        self.icon_sys_background_transparency = icon_sys.background_transparency;
        self.icon_sys_background_colors = color_configs(&icon_sys.background_colors);
        self.icon_sys_light_directions = vector_configs(&icon_sys.light_directions);
        self.icon_sys_light_colors = color_f_configs(&icon_sys.light_colors);
        let a = icon_sys.ambient_color;
        self.icon_sys_ambient_color = ColorFConfig { r: a.r, g: a.g, b: a.b, a: a.a };
        self.icon_sys_selected_preset = None;
    }

    /// Shows the `[icon_sys]` table of a project.  What the table leaves out
    /// comes from `icon_sys_fallback` (an icon.sys read beside it) where
    /// there is one, else from the defaults.
    pub fn apply_icon_sys_config(
        &mut self,
        icon_cfg: IconSysConfig,
        icon_sys_fallback: Option<&IconSys>,
    )
        ensures
            same_project_fields(*final(self), *old(self)),
            final(self).icon_sys_existing == old(self).icon_sys_existing,
            icon_config_shown(*final(self), icon_cfg, deref_icon_sys(icon_sys_fallback)),
    {
        let flag_value = icon_cfg.flags.0;
        self.icon_sys_enabled = true;
        self.icon_sys_use_existing = false;
        self.icon_sys_custom_flag = flag_value;
        self.icon_sys_flag_selection = flag_selection_for(flag_value);
        let break_index = icon_cfg.linebreak_position();
        let (line1, line2) = split_icon_sys_title(icon_cfg.title.as_str(), break_index as usize);
        self.icon_sys_title_line1 = line1;
        self.icon_sys_title_line2 = line2;
        self.icon_sys_background_transparency = match icon_cfg.background_transparency {
            Some(t) => t,
            None => match icon_sys_fallback {
                Some(f) => f.background_transparency,
                None => IconSysConfig::default_background_transparency(),
            },
        };
        self.icon_sys_background_colors = if icon_cfg.background_colors.is_some() {
            icon_cfg.background_colors_array()
        } else {
            match icon_sys_fallback {
                Some(f) => color_configs(&f.background_colors),
                None => IconSysConfig::default_background_colors(),
            }
        };
        self.icon_sys_light_directions = if icon_cfg.light_directions.is_some() {
            icon_cfg.light_directions_array()
        } else {
            match icon_sys_fallback {
                Some(f) => vector_configs(&f.light_directions),
                None => IconSysConfig::default_light_directions(),
            }
        };
        self.icon_sys_light_colors = if icon_cfg.light_colors.is_some() {
            icon_cfg.light_colors_array()
        } else {
            match icon_sys_fallback {
                Some(f) => color_f_configs(&f.light_colors),
                None => IconSysConfig::default_light_colors(),
            }
        };
        self.icon_sys_ambient_color = match icon_cfg.ambient_color {
            Some(c) => c,
            None => match icon_sys_fallback {
                Some(f) => {
                    let a = f.ambient_color;
                    ColorFConfig { r: a.r, g: a.g, b: a.b, a: a.a }
                },
                None => IconSysConfig::default_ambient_color(),
            },
        };
        self.icon_sys_selected_preset = clone_preset(&icon_cfg.preset);
    }

    /// Takes the folder name apart into its prefix and base name.
    pub fn set_folder_name_from_full(&mut self, name: &str)
        ensures
            (final(self).selected_prefix, final(self).folder_base_name@) == split_prefix(
                name@,
                sas_prefixes(),
            ),
            *final(self) == (PackForm {
                selected_prefix: final(self).selected_prefix,
                folder_base_name: final(self).folder_base_name,
                ..*old(self)
            }),
    {
        let (prefix, remainder) = SasPrefix::split_from_name(name);
        self.selected_prefix = prefix;
        self.folder_base_name = remainder;
    }

    /// Takes the archive's file name apart: the prefix is dropped when it
    /// is none or the folder's own, else the whole name is kept.
    pub fn set_psu_file_base_from_full(&mut self, file_stem: &str)
        ensures
            ({
                let (prefix, rest) = split_prefix(file_stem@, sas_prefixes());
                final(self).psu_file_base_name@ == if prefix == SasPrefix::NoPrefix || prefix
                    == old(self).selected_prefix {
                    rest
                } else {
                    file_stem@
                }
            }),
            *final(self) == (PackForm {
                psu_file_base_name: final(self).psu_file_base_name,
                ..*old(self)
            }),
    {
        let (prefix, remainder) = SasPrefix::split_from_name(file_stem);
        if prefix == SasPrefix::NoPrefix || prefix == self.selected_prefix {
            self.psu_file_base_name = remainder;
        } else {
            self.psu_file_base_name = file_stem.to_owned();
        }
    }
}


/// The timestamp a strategy picks from the source's timestamp, the one the
/// SAS rules plan and the one typed in.
pub open spec fn strategy_timestamp(
    strategy: TimestampStrategy,
    source: Option<PsuTimestamp>,
    planned: Option<PsuTimestamp>,
    manual: Option<PsuTimestamp>,
) -> Option<PsuTimestamp> {
    match strategy {
        TimestampStrategy::NoTimestamp => None,
        TimestampStrategy::InheritSource => source,
        TimestampStrategy::SasRules => planned,
        TimestampStrategy::Manual => manual,
    }
}

/// The form with its timestamp worked out again from its strategy.
pub open spec fn refreshed(f: PackForm, planned: Option<PsuTimestamp>) -> PackForm {
    let t = strategy_timestamp(
        f.timestamp_strategy,
        f.source_timestamp,
        planned,
        f.manual_timestamp,
    );
    PackForm {
        timestamp: t,
        timestamp_from_rules: f.timestamp_strategy == TimestampStrategy::SasRules && t is Some,
        ..f
    }
}

/// The form with an empty typed-in timestamp filled, under the manual
/// strategy, from the source's timestamp or else the planned one.
pub open spec fn manual_filled(f: PackForm, planned: Option<PsuTimestamp>) -> PackForm {
    if f.timestamp_strategy == TimestampStrategy::Manual && f.manual_timestamp is None {
        PackForm {
            manual_timestamp: if f.source_timestamp is Some {
                f.source_timestamp
            } else {
                planned
            },
            ..f
        }
    } else {
        f
    }
}

/// The strategy a form falls back on: the source's timestamp when there is
/// one, else the planned one, else a typed-in one.
pub open spec fn recommended_strategy(
    source: Option<PsuTimestamp>,
    planned: Option<PsuTimestamp>,
) -> TimestampStrategy {
    if source is Some {
        TimestampStrategy::InheritSource
    } else if planned is Some {
        TimestampStrategy::SasRules
    } else {
        TimestampStrategy::Manual
    }
}

/// The form after its strategy is set: unchanged when it already has that
/// strategy.
pub open spec fn strategy_set(
    f: PackForm,
    strategy: TimestampStrategy,
    planned: Option<PsuTimestamp>,
) -> PackForm {
    if f.timestamp_strategy == strategy {
        f
    } else {
        refreshed(manual_filled(PackForm { timestamp_strategy: strategy, ..f }, planned), planned)
    }
}

/// The strategy to recommend for a source timestamp and a planned one.
pub fn recommended_timestamp_strategy(
    source_timestamp: Option<PsuTimestamp>,
    planned_timestamp: Option<PsuTimestamp>,
) -> (r: Option<TimestampStrategy>)
    ensures
        r == Some(recommended_strategy(source_timestamp, planned_timestamp)),
{
    if source_timestamp.is_some() {
        Some(TimestampStrategy::InheritSource)
    } else if planned_timestamp.is_some() {
        Some(TimestampStrategy::SasRules)
    } else {
        Some(TimestampStrategy::Manual)
    }
}

fn same_timestamp(a: Option<PsuTimestamp>, b: Option<PsuTimestamp>) -> (r: bool)
    ensures
        r == (a == b),
{
    match (a, b) {
        (Some(x), Some(y)) => x == y,
        (None, None) => true,
        _ => false,
    }
}

impl PackForm {
    /// Works the timestamp out again from the strategy; `planned` is the
    /// timestamp the SAS rules give the folder's name.  Says whether the
    /// timestamp changed.
    pub fn refresh_timestamp_from_strategy(&mut self, planned: Option<PsuTimestamp>) -> (changed:
        bool)
        ensures
            *final(self) == refreshed(*old(self), planned),
            changed == (final(self).timestamp != old(self).timestamp),
    {
        let new_timestamp = match self.timestamp_strategy {
            TimestampStrategy::NoTimestamp => None,
            TimestampStrategy::InheritSource => self.source_timestamp,
            TimestampStrategy::SasRules => planned,
            TimestampStrategy::Manual => self.manual_timestamp,
        };
        let changed = !same_timestamp(self.timestamp, new_timestamp);
        self.timestamp = new_timestamp;
        self.timestamp_from_rules = self.timestamp_strategy == TimestampStrategy::SasRules
            && self.timestamp.is_some();
        changed
    }

    fn fill_manual_timestamp(&mut self, planned: Option<PsuTimestamp>)
        ensures
            *final(self) == manual_filled(*old(self), planned),
    {
        if self.timestamp_strategy == TimestampStrategy::Manual && self.manual_timestamp.is_none() {
            if self.source_timestamp.is_some() {
                self.manual_timestamp = self.source_timestamp;
            } else {
                self.manual_timestamp = planned;
            }
        }
    }

    /// Chooses how the timestamp is set.  Under the manual strategy an empty
    /// typed-in timestamp is first filled from the source's or the planned
    /// one.  Says whether the timestamp changed.
    pub fn set_timestamp_strategy(
        &mut self,
        strategy: TimestampStrategy,
        planned: Option<PsuTimestamp>,
    ) -> (changed: bool)
        ensures
            *final(self) == strategy_set(*old(self), strategy, planned),
            changed == (final(self).timestamp != old(self).timestamp),
    {
        if self.timestamp_strategy == strategy {
            return false;
        }
        self.timestamp_strategy = strategy;
        self.fill_manual_timestamp(planned);
        self.refresh_timestamp_from_strategy(planned)
    }

    /// After a new source is loaded: without a strategy the form takes the
    /// source's timestamp, or else the planned one; then the typed-in
    /// timestamp is filled and the timestamp worked out again.
    pub fn sync_timestamp_after_source_update(&mut self, planned: Option<PsuTimestamp>) -> (changed:
        bool)
        ensures
            ({
                let s = if old(self).timestamp_strategy == TimestampStrategy::NoTimestamp {
                    if old(self).source_timestamp is Some {
                        TimestampStrategy::InheritSource
                    } else if planned is Some {
                        TimestampStrategy::SasRules
                    } else {
                        TimestampStrategy::NoTimestamp
                    }
                } else {
                    old(self).timestamp_strategy
                };
                *final(self) == refreshed(
                    manual_filled(PackForm { timestamp_strategy: s, ..*old(self) }, planned),
                    planned,
                )
            }),
            changed == (final(self).timestamp != old(self).timestamp),
    {
        if self.timestamp_strategy == TimestampStrategy::NoTimestamp {
            if self.source_timestamp.is_some() {
                self.timestamp_strategy = TimestampStrategy::InheritSource;
            } else if planned.is_some() {
                self.timestamp_strategy = TimestampStrategy::SasRules;
            }
        }
        self.fill_manual_timestamp(planned);
        self.refresh_timestamp_from_strategy(planned)
    }

    /// Gives a form without a strategy the recommended one.  Says whether the
    /// timestamp changed.
    pub fn ensure_timestamp_strategy_default(&mut self, planned: Option<PsuTimestamp>) -> (changed:
        bool)
        ensures
            old(self).timestamp_strategy != TimestampStrategy::NoTimestamp ==> *final(self) == *old(
                self,
            ),
            old(self).timestamp_strategy == TimestampStrategy::NoTimestamp ==> *final(self)
                == strategy_set(
                *old(self),
                recommended_strategy(old(self).source_timestamp, planned),
                planned,
            ),
            changed == (final(self).timestamp != old(self).timestamp),
    {
        if self.timestamp_strategy != TimestampStrategy::NoTimestamp {
            return false;
        }
        match recommended_timestamp_strategy(self.source_timestamp, planned) {
            Some(strategy) => self.set_timestamp_strategy(strategy, planned),
            None => false,
        }
    }
}


/// The items joined with `sep` between each two.
pub open spec fn joined(items: Seq<Seq<char>>, sep: Seq<char>) -> Seq<char>
    decreases items.len(),
{
    if items.len() == 0 {
        Seq::empty()
    } else if items.len() == 1 {
        items[0]
    } else {
        joined(items.drop_last(), sep) + sep + items.last()
    }
}

fn join_strings(items: &Vec<String>, sep: &str) -> (r: String)
    ensures
        r@ == joined(items@.map_values(|s: String| s@), sep@),
{
    let ghost v = items@.map_values(|s: String| s@);
    let mut out = String::new();
    let mut i: usize = 0;
    while i < items.len()
        invariant
            i <= items@.len(),
            v == items@.map_values(|s: String| s@),
            out@ == joined(v.take(i as int), sep@),
        decreases items.len() - i,
    {
        proof {
            assert(v.take(i + 1).drop_last() =~= v.take(i as int));
            assert(v.take(i + 1).last() == items@[i as int]@);
        }
        if i > 0 {
            string_push_str(&mut out, sep);
        }
        string_push_str(&mut out, items[i].as_str());
        proof {
            if i == 0 {
                assert(out@ =~= v.take(1)[0]);
            }
        }
        i = i + 1;
    }
    assert(v.take(i as int) =~= v);
    out
}

/// The line that lists one missing file: a bullet, the name and, in
/// brackets, why it is needed.
pub open spec fn missing_file_line(m: MissingRequiredFile) -> Seq<char> {
    match reason_detail(m.reason) {
        Some(d) => "• "@ + m.name@ + " ("@ + d + ")"@,
        None => "• "@ + m.name@,
    }
}

/// The message that lists the files a project lacks, one per line.
pub fn format_missing_required_files_message(missing: &Vec<MissingRequiredFile>) -> (r: String)
    ensures
        r@ == "The selected folder is missing files needed to pack the PSU:\n"@ + joined(
            missing@.map_values(|m: MissingRequiredFile| missing_file_line(m)),
            "\n"@,
        ),
{
    let mut lines: Vec<String> = Vec::new();
    let mut i: usize = 0;
    while i < missing.len()
        invariant
            i <= missing@.len(),
            lines@.map_values(|s: String| s@) == missing@.take(i as int).map_values(
                |m: MissingRequiredFile| missing_file_line(m),
            ),
        decreases missing.len() - i,
    {
        let entry = &missing[i];
        let mut line = String::new();
        string_push_str(&mut line, "• ");
        string_push_str(&mut line, entry.name.as_str());
        match entry.reason.detail() {
            Some(detail) => {
                string_push_str(&mut line, " (");
                string_push_str(&mut line, detail);
                string_push_str(&mut line, ")");
            },
            None => {},
        }
        let ghost before = lines@;
        lines.push(line);
        proof {
            assert(missing@.take(i + 1) =~= missing@.take(i as int).push(missing@[i as int]));
            assert(lines@.map_values(|s: String| s@) =~= before.map_values(|s: String| s@).push(
                line@,
            ));
        }
        i = i + 1;
    }
    assert(missing@.take(i as int) =~= missing@);
    let mut message = String::new();
    string_push_str(&mut message, "The selected folder is missing files needed to pack the PSU:\n");
    let body = join_strings(&lines, "\n");
    string_push_str(&mut message, body.as_str());
    message
}

/// An error message with the files it concerns: the message, then, after
/// a space where the message is not empty, `Failed files: ` and the names
/// joined with commas.
pub open spec fn error_text_spec(message: Seq<char>, failed: Seq<Seq<char>>) -> Seq<char> {
    if failed.len() == 0 {
        message
    } else {
        (if message.len() == 0 {
            message
        } else {
            message.push(' ')
        }) + "Failed files: "@ + joined(failed, ", "@)
    }
}

/// The text shown for an error message and the files it concerns.
pub fn error_text(message: &str, failed_files: &Vec<String>) -> (r: String)
    ensures
        r@ == error_text_spec(message@, failed_files@.map_values(|s: String| s@)),
{
    let mut text = message.to_owned();
    if failed_files.len() > 0 {
        if char_count(message) > 0 {
            string_push(&mut text, ' ');
        }
        string_push_str(&mut text, "Failed files: ");
        let list = join_strings(failed_files, ", ");
        string_push_str(&mut text, list.as_str());
    }
    text
}

/// The digit `d` (below sixteen) in upper-case hexadecimal.
pub open spec fn hex_digit(d: int) -> char {
    if d < 10 {
        (48 + d) as char
    } else {
        (55 + d) as char
    }
}

/// A 16-bit value as four upper-case hexadecimal digits.
pub open spec fn hex4(v: u16) -> Seq<char> {
    seq![
        hex_digit((v / 4096) as int),
        hex_digit(((v / 256) % 16) as int),
        hex_digit(((v / 16) % 16) as int),
        hex_digit((v % 16) as int),
    ]
}

fn hex_digit_char(d: u16) -> (c: char)
    requires
        d < 16,
    ensures
        c == hex_digit(d as int),
{
    let b: u8 = if d < 10 {
        48 + d as u8
    } else {
        55 + d as u8
    };
    b as char
}

/// How a flag selection is shown: the offered option's name, `Preset` and
/// the index for an index past the options, or `Custom` with the value in
/// hexadecimal.
pub fn icon_flag_label(selection: IconFlagSelection, custom_flag: u16) -> (r: String)
    ensures
        selection matches IconFlagSelection::Preset(i) ==> r@ == if i < 3 {
            icon_flag_options()[i as int].1
        } else {
            "Preset "@ + decimal(i as nat)
        },
        selection is Custom ==> r@ == "Custom (0x"@ + hex4(custom_flag) + ")"@,
{
    match selection {
        IconFlagSelection::Preset(index) => {
            if index == 0 {
                "Save Data".to_owned()
            } else if index == 1 {
                "System Software".to_owned()
            } else if index == 2 {
                "Settings".to_owned()
            } else {
                let mut s = "Preset ".to_owned();
                let n = decimal_string(index as u64);
                string_push_str(&mut s, n.as_str());
                s
            }
        },
        IconFlagSelection::Custom => {
            let mut s = "Custom (0x".to_owned();
            string_push(&mut s, hex_digit_char(custom_flag / 4096));
            string_push(&mut s, hex_digit_char((custom_flag / 256) % 16));
            string_push(&mut s, hex_digit_char((custom_flag / 16) % 16));
            string_push(&mut s, hex_digit_char(custom_flag % 16));
            string_push_str(&mut s, ")");
            s
        },
    }
}

/// Removes the selected entry of a list.  The selection moves to the entry
/// that took its place, or to the new last entry, or goes when the list is
/// empty.  Says whether an entry was removed.
pub fn remove_selected_entry(files: &mut Vec<String>, selected: &mut Option<usize>) -> (removed:
    bool)
    requires
        *old(selected) matches Some(i) ==> i < old(files)@.len(),
    ensures
        removed == (*old(selected) is Some),
        *old(selected) is None ==> final(files)@ == old(files)@ && *final(selected) is None,
        *old(selected) matches Some(i) ==> {
            &&& final(files)@ == old(files)@.remove(i as int)
            &&& if final(files)@.len() == 0 {
                *final(selected) is None
            } else if i >= final(files)@.len() {
                *final(selected) == Some((final(files)@.len() - 1) as usize)
            } else {
                *final(selected) == Some(i)
            }
        },
{
    match *selected {
        Some(idx) => {
            files.remove(idx);
            if files.len() == 0 {
                *selected = None;
            } else if idx >= files.len() {
                *selected = Some(files.len() - 1);
            } else {
                *selected = Some(idx);
            }
            true
        },
        None => false,
    }
}

/// The strategy, typed-in timestamp, timestamp and rules flag of a form.
pub open spec fn timestamp_fields(f: PackForm) -> (
    TimestampStrategy,
    Option<PsuTimestamp>,
    Option<PsuTimestamp>,
    bool,
) {
    (f.timestamp_strategy, f.manual_timestamp, f.timestamp, f.timestamp_from_rules)
}

/// Those fields after the save's name changed: a form without a strategy
/// gets the recommended one, and under the SAS rules the timestamp is
/// worked out again; otherwise they stay.
pub open spec fn timestamps_after_inputs_change(f: PackForm, planned: Option<PsuTimestamp>) -> (
    TimestampStrategy,
    Option<PsuTimestamp>,
    Option<PsuTimestamp>,
    bool,
) {
    if f.timestamp_strategy == TimestampStrategy::NoTimestamp {
        timestamp_fields(
            strategy_set(f, recommended_strategy(f.source_timestamp, planned), planned),
        )
    } else if f.timestamp_strategy == TimestampStrategy::SasRules {
        timestamp_fields(refreshed(f, planned))
    } else {
        timestamp_fields(f)
    }
}

impl PackForm {
    /// Clears the save's name, timestamp settings, file lists and icon.sys
    /// settings.
    pub fn reset_metadata_fields(&mut self)
        ensures
            final(self).selected_prefix == SasPrefix::App,
            final(self).folder_base_name@.len() == 0,
            final(self).psu_file_base_name@.len() == 0,
            final(self).timestamp is None,
            final(self).timestamp_strategy == TimestampStrategy::NoTimestamp,
            !final(self).timestamp_from_rules,
            final(self).source_timestamp is None,
            final(self).manual_timestamp is None,
            final(self).include_files@.len() == 0,
            final(self).exclude_files@.len() == 0,
            icon_fields_reset(*final(self)),
    {
        self.selected_prefix = SasPrefix::App;
        self.folder_base_name = String::new();
        self.psu_file_base_name = String::new();
        self.timestamp = None;
        self.timestamp_strategy = TimestampStrategy::NoTimestamp;
        self.timestamp_from_rules = false;
        self.source_timestamp = None;
        self.manual_timestamp = None;
        self.include_files = Vec::new();
        self.exclude_files = Vec::new();
        self.reset_icon_sys_fields();
    }

    /// After the save's name changes: an empty archive name takes the
    /// trimmed folder name, a form without a strategy gets the recommended
    /// one, and under the SAS rules the timestamp is worked out again from
    /// `planned`.  Says whether the timestamp changed.
    pub fn metadata_inputs_changed(&mut self, planned: Option<PsuTimestamp>) -> (changed: bool)
        ensures
            final(self).psu_file_base_name@ == if trim_spec(old(self).psu_file_base_name@).len()
                == 0 && trim_spec(old(self).folder_base_name@).len() > 0 {
                trim_spec(old(self).folder_base_name@)
            } else {
                old(self).psu_file_base_name@
            },
            final(self).folder_base_name@ == old(self).folder_base_name@,
            final(self).selected_prefix == old(self).selected_prefix,
            final(self).source_timestamp == old(self).source_timestamp,
            timestamp_fields(*final(self)) == timestamps_after_inputs_change(*old(self), planned),
            *final(self) == (PackForm {
                psu_file_base_name: final(self).psu_file_base_name,
                timestamp: final(self).timestamp,
                timestamp_strategy: final(self).timestamp_strategy,
                timestamp_from_rules: final(self).timestamp_from_rules,
                manual_timestamp: final(self).manual_timestamp,
                ..*old(self)
            }),
            changed == (final(self).timestamp != old(self).timestamp),
    {
        let start = self.timestamp;
        let trimmed_file = trim_str(self.psu_file_base_name.as_str());
        if char_count(trimmed_file.as_str()) == 0 {
            let trimmed_folder = trim_str(self.folder_base_name.as_str());
            if char_count(trimmed_folder.as_str()) > 0 {
                self.psu_file_base_name = trimmed_folder;
            }
        }
        self.ensure_timestamp_strategy_default(planned);
        if self.timestamp_strategy == TimestampStrategy::SasRules {
            self.refresh_timestamp_from_strategy(planned);
        }
        !same_timestamp(start, self.timestamp)
    }
}


/// Whether a form's timestamp is the one its strategy picks, marked as
/// coming from the SAS rules exactly when they gave it.
pub open spec fn timestamp_consistent(f: PackForm, planned: Option<PsuTimestamp>) -> bool {
    &&& f.timestamp == strategy_timestamp(
        f.timestamp_strategy,
        f.source_timestamp,
        planned,
        f.manual_timestamp,
    )
    &&& f.timestamp_from_rules == (f.timestamp_strategy == TimestampStrategy::SasRules
        && f.timestamp is Some)
}

/// Choosing a new strategy leaves the form's timestamp the one that
/// strategy picks; choosing the manual strategy with a source timestamp at
/// hand leaves a typed-in timestamp to pick.
pub proof fn lemma_strategy_set_consistent(
    f: PackForm,
    strategy: TimestampStrategy,
    planned: Option<PsuTimestamp>,
)
    requires
        f.timestamp_strategy != strategy,
    ensures
        timestamp_consistent(strategy_set(f, strategy, planned), planned),
        strategy_set(f, strategy, planned).timestamp_strategy == strategy,
        strategy == TimestampStrategy::Manual && f.source_timestamp is Some ==> strategy_set(
            f,
            strategy,
            planned,
        ).timestamp is Some,
{
}

/// Working the timestamp out again twice gives what doing it once gives.
pub proof fn lemma_refresh_idempotent(f: PackForm, planned: Option<PsuTimestamp>)
    ensures
        refreshed(refreshed(f, planned), planned) == refreshed(f, planned),
        timestamp_consistent(refreshed(f, planned), planned),
{
}


/// Checks the text of the title.cfg editor: the status to show when it has
/// every mandatory key, else the error to show.
pub fn apply_title_cfg_edits(content: &str) -> (r: Result<String, String>)
    ensures
        missing_keys(parse_title_cfg(content@)).len() == 0 ==> (r matches Ok(s) && s@
            == "Validated title.cfg contents."@),
        missing_keys(parse_title_cfg(content@)).len() > 0 ==> (r matches Err(m) && m@
            == "title.cfg is missing mandatory fields. Please include the required keys."@),
{
    let cfg = TitleCfg::new(content.to_owned());
    if !cfg.has_mandatory_fields() {
        return Err(
            "title.cfg is missing mandatory fields. Please include the required keys.".to_owned(),
        );
    }
    Ok("Validated title.cfg contents.".to_owned())
}


/// The files of the include list that the folder lacks, in order;
/// `is_file` says, entry by entry, whether the folder has that file.
pub fn missing_include_files(include_files: &Vec<String>, is_file: &Vec<bool>) -> (r: Vec<String>)
    requires
        is_file@.len() == include_files@.len(),
    ensures
        r@.map_values(|s: String| s@) == absent_names(
            include_files@.map_values(|s: String| s@),
            is_file@,
        ),
{
    let ghost names = include_files@.map_values(|s: String| s@);
    let mut out: Vec<String> = Vec::new();
    let mut i: usize = 0;
    while i < include_files.len()
        invariant
            i <= include_files@.len(),
            is_file@.len() == include_files@.len(),
            names == include_files@.map_values(|s: String| s@),
            out@.map_values(|s: String| s@) == absent_names(
                names.take(i as int),
                is_file@.take(i as int),
            ),
        decreases include_files.len() - i,
    {
        proof {
            assert(names.take(i + 1).drop_last() =~= names.take(i as int));
            assert(is_file@.take(i + 1).drop_last() =~= is_file@.take(i as int));
        }
        if !is_file[i] {
            let ghost before = out@;
            out.push(include_files[i].clone());
            assert(out@.map_values(|s: String| s@) =~= before.map_values(|s: String| s@).push(
                include_files@[i as int]@,
            ));
        }
        i = i + 1;
    }
    assert(names.take(i as int) =~= names);
    assert(is_file@.take(i as int) =~= is_file@);
    out
}

/// The names whose entry in `present` is false, in order.
pub open spec fn absent_names(names: Seq<Seq<char>>, present: Seq<bool>) -> Seq<Seq<char>>
    decreases names.len(),
{
    if names.len() == 0 || present.len() == 0 {
        Seq::empty()
    } else if present.last() {
        absent_names(names.drop_last(), present.drop_last())
    } else {
        absent_names(names.drop_last(), present.drop_last()).push(names.last())
    }
}

/// The characters of an optional text.
pub open spec fn str_view(o: Option<&str>) -> Option<Seq<char>> {
    match o {
        Some(d) => Some(d@),
        None => None,
    }
}

/// The message for an I/O failure while packing: `error_text` is the
/// error's own text and `missing_destination` the folder the archive was to
/// go into when that folder does not exist.
pub open spec fn io_failure_text(
    kind: IoFailureKind,
    error_text: Seq<char>,
    missing_destination: Option<Seq<char>>,
) -> Seq<char> {
    match kind {
        IoFailureKind::NotFound => match missing_destination {
            Some(d) => "Cannot write the PSU file because the destination folder "@ + d
                + " does not exist."@,
            None => "A required file or folder could not be found: "@ + error_text,
        },
        IoFailureKind::PermissionDenied => "Permission denied while accessing the file system: "@
            + error_text,
        IoFailureKind::Other => "File system error: "@ + error_text,
    }
}

/// The message for an I/O failure while packing.
pub fn io_failure_message(
    kind: IoFailureKind,
    error_text: &str,
    missing_destination: Option<&str>,
) -> (r: String)
    ensures
        r@ == io_failure_text(
            kind,
            error_text@,
            str_view(missing_destination),
        ),
{
    match kind {
        IoFailureKind::NotFound => match missing_destination {
            Some(d) => {
                let mut s = "Cannot write the PSU file because the destination folder ".to_owned();
                string_push_str(&mut s, d);
                string_push_str(&mut s, " does not exist.");
                s
            },
            None => {
                let mut s = "A required file or folder could not be found: ".to_owned();
                string_push_str(&mut s, error_text);
                s
            },
        },
        IoFailureKind::PermissionDenied => {
            let mut s = "Permission denied while accessing the file system: ".to_owned();
            string_push_str(&mut s, error_text);
            s
        },
        IoFailureKind::Other => {
            let mut s = "File system error: ".to_owned();
            string_push_str(&mut s, error_text);
            s
        },
    }
}

/// The message shown when packing fails.  For an I/O failure,
/// `missing_files` are the listed files the folder lacks (then they are
/// what the message names) and `missing_destination` the archive's folder
/// when it does not exist.
pub fn format_pack_error(
    err: &Error,
    folder: &str,
    missing_files: &Vec<String>,
    missing_destination: Option<&str>,
) -> (r: String)
    ensures
        *err is NameError ==> r@
            == "PSU name can only contain letters, numbers, spaces, underscores, and hyphens."@,
        *err matches Error::ConfigError(m) ==> r@ == "Configuration error: "@ + m@,
        *err is IOError && missing_files@.len() > 0 ==> r@
            == "The following files referenced in the configuration are missing from "@ + folder@
            + ":\n"@ + joined(
            missing_files@.map_values(|s: String| "• "@ + s@),
            "\n"@,
        ),
        *err is IOError && missing_files@.len() == 0 ==> exists|k: IoFailureKind, t: Seq<char>|
            r@ == #[trigger] io_failure_text(
                k,
                t,
                str_view(missing_destination),
            ),
{
    match err {
        Error::NameError => "PSU name can only contain letters, numbers, spaces, underscores, and hyphens."
            .to_owned(),
        Error::ConfigError(message) => {
            let mut s = "Configuration error: ".to_owned();
            string_push_str(&mut s, message.as_str());
            s
        },
        Error::IOError(io_err) => {
            if missing_files.len() > 0 {
                let mut bullets: Vec<String> = Vec::new();
                let mut i: usize = 0;
                while i < missing_files.len()
                    invariant
                        i <= missing_files@.len(),
                        bullets@.map_values(|s: String| s@) == missing_files@.take(
                            i as int,
                        ).map_values(|s: String| "• "@ + s@),
                    decreases missing_files.len() - i,
                {
                    let mut line = "• ".to_owned();
                    string_push_str(&mut line, missing_files[i].as_str());
                    let ghost before = bullets@;
                    bullets.push(line);
                    proof {
                        assert(missing_files@.take(i + 1) =~= missing_files@.take(i as int).push(
                            missing_files@[i as int],
                        ));
                        assert(bullets@.map_values(|s: String| s@) =~= before.map_values(
                            |s: String| s@,
                        ).push(line@));
                    }
                    i = i + 1;
                }
                assert(missing_files@.take(i as int) =~= missing_files@);
                let mut s = "The following files referenced in the configuration are missing from "
                    .to_owned();
                string_push_str(&mut s, folder);
                string_push_str(&mut s, ":\n");
                let body = join_strings(&bullets, "\n");
                string_push_str(&mut s, body.as_str());
                return s;
            }
            let kind = io_failure_kind(io_err);
            let text = io_error_display(io_err);
            io_failure_message(kind, text.as_str(), missing_destination)
        },
    }
}


/// The entries of an optional list; none when it is absent.
pub open spec fn list_or_empty(o: Option<Vec<String>>) -> Seq<String> {
    match o {
        Some(v) => v@,
        None => Seq::empty(),
    }
}

/// Whether a form's icon.sys settings show a project's `[icon_sys]` table
/// when it has one, else its icon.sys file `existing` when there is one,
/// else the defaults; the form keeps `existing`.
pub open spec fn icon_sys_loaded(
    f: PackForm,
    table: Option<IconSysConfig>,
    existing: Option<IconSys>,
) -> bool {
    &&& f.icon_sys_existing == existing
    &&& match table {
        Some(cfg) => icon_config_shown(f, cfg, existing),
        None => match existing {
            Some(x) => icon_file_shown(f, x),
            None => icon_fields_reset(f),
        },
    }
}

fn list_or_new(o: Option<Vec<String>>) -> (r: Vec<String>)
    ensures
        r@ == list_or_empty(o),
{
    match o {
        Some(v) => v,
        None => Vec::new(),
    }
}

fn copy_icon_sys(o: &Option<IconSys>) -> (r: Option<IconSys>)
    ensures
        r == *o,
{
    match o {
        Some(x) => Some(x.duplicate()),
        None => None,
    }
}

impl PackForm {
    fn show_icon_sys(&mut self, table: Option<IconSysConfig>, existing: Option<IconSys>)
        ensures
            same_project_fields(*final(self), *old(self)),
            icon_sys_loaded(*final(self), table, existing),
    {
        match table {
            Some(cfg) => self.apply_icon_sys_config(cfg, existing.as_ref()),
            None => match &existing {
                Some(x) => self.apply_icon_sys_file(x),
                None => self.reset_icon_sys_fields(),
            },
        }
        self.icon_sys_existing = existing;
    }

    /// Fills the form from a project's configuration, read from its folder
    /// with the project's icon.sys file `parsed_icon_sys`, if it has one:
    /// the name gives the prefix, base name and archive name, the timestamp
    /// becomes the source's, and the lists and icon.sys settings are taken
    /// over.
    pub fn apply_loaded_config(&mut self, config: Config, parsed_icon_sys: Option<IconSys>)
        ensures
            (final(self).selected_prefix, final(self).folder_base_name@) == split_prefix(
                config.name@,
                sas_prefixes(),
            ),
            final(self).psu_file_base_name@ == final(self).folder_base_name@,
            final(self).source_timestamp == config.timestamp,
            final(self).timestamp == old(self).timestamp,
            final(self).timestamp_strategy == old(self).timestamp_strategy,
            final(self).timestamp_from_rules == old(self).timestamp_from_rules,
            final(self).manual_timestamp == old(self).manual_timestamp,
            final(self).include_files@ == list_or_empty(config.inclusions),
            final(self).exclude_files@ == list_or_empty(config.exclude),
            icon_sys_loaded(*final(self), config.icon_sys, parsed_icon_sys),
    {
        let Config { name, timestamp, inclusions, exclude, icon_sys } = config;
        self.set_folder_name_from_full(name.as_str());
        self.psu_file_base_name = self.folder_base_name.clone();
        self.source_timestamp = timestamp;
        self.include_files = list_or_new(inclusions);
        self.exclude_files = list_or_new(exclude);
        self.show_icon_sys(icon_sys, parsed_icon_sys);
    }

    /// Takes over a configuration typed into the psu.toml editor: the name
    /// as when a project is loaded, its timestamp as the source's, the typed-in
    /// and the current one, under the manual strategy (none without a
    /// timestamp); then as after any change of name; the lists; and the
    /// icon.sys settings from its table, else from the icon.sys the form
    /// keeps.  `planned` is the timestamp the SAS rules give the new name.
    pub fn apply_psu_toml_config(&mut self, config: Config, planned: Option<PsuTimestamp>)
        ensures
            (final(self).selected_prefix, final(self).folder_base_name@) == split_prefix(
                config.name@,
                sas_prefixes(),
            ),
            final(self).psu_file_base_name@ == final(self).folder_base_name@,
            final(self).source_timestamp == config.timestamp,
            timestamp_fields(*final(self)) == timestamps_after_inputs_change(
                PackForm {
                    timestamp: config.timestamp,
                    source_timestamp: config.timestamp,
                    manual_timestamp: config.timestamp,
                    timestamp_strategy: if config.timestamp is Some {
                        TimestampStrategy::Manual
                    } else {
                        TimestampStrategy::NoTimestamp
                    },
                    timestamp_from_rules: false,
                    ..*old(self)
                },
                planned,
            ),
            final(self).include_files@ == list_or_empty(config.inclusions),
            final(self).exclude_files@ == list_or_empty(config.exclude),
            icon_sys_loaded(*final(self), config.icon_sys, old(self).icon_sys_existing),
    {
        let Config { name, timestamp, inclusions, exclude, icon_sys } = config;
        self.set_folder_name_from_full(name.as_str());
        self.psu_file_base_name = self.folder_base_name.clone();
        self.source_timestamp = timestamp;
        self.manual_timestamp = timestamp;
        self.timestamp = timestamp;
        self.timestamp_strategy = if timestamp.is_some() {
            TimestampStrategy::Manual
        } else {
            TimestampStrategy::NoTimestamp
        };
        self.timestamp_from_rules = false;
        proof {
            let b = self.folder_base_name@;
            if trim_spec(b).len() > 0 {
                assert(trim_spec(self.psu_file_base_name@).len() > 0);
            }
        }
        self.metadata_inputs_changed(planned);
        self.include_files = list_or_new(inclusions);
        self.exclude_files = list_or_new(exclude);
        let existing = copy_icon_sys(&self.icon_sys_existing);
        self.show_icon_sys(icon_sys, existing);
    }
}


/// What exporting an archive to a folder does with one entry.
#[derive(Clone, Debug, PartialEq, Eq)]
pub enum ExportAction {
    /// `.` and `..` are left out.
    Skip,
    /// The save folder itself is created.
    CreateRoot,
    /// A folder of that name is created inside the save folder.
    CreateSubdir(String),
    /// The entry's contents are written to a file of that name inside the
    /// save folder.
    WriteFile(String),
}

/// The message for an archive without a save folder entry.
pub open spec fn no_metadata_message(source: Seq<char>) -> Seq<char> {
    source + " does not contain PSU metadata"@
}

/// The name of the save folder an archive exports to: that of its first
/// folder entry other than `.` and `..`, which must not be blank.
/// `source` names the archive in the messages.
pub fn export_root_name(entries: &Vec<PSUEntry>, source: &str) -> (r: Result<String, String>)
    ensures
        first_folder(entries@) is None ==> (r matches Err(m) && m@ == no_metadata_message(
            source@,
        )),
        first_folder(entries@) matches Some(i) ==> {
            let name = entries@[i].name@;
            &&& trim_spec(name).len() == 0 ==> (r matches Err(m) && m@ == source@
                + " does not contain a valid root directory entry."@)
            &&& trim_spec(name).len() > 0 ==> (r matches Ok(n) && n@ == name)
        },
{
    proof {
        lemma_first_bounds(entries@, Seq::empty());
    }
    let mut i: usize = 0;
    while i < entries.len()
        invariant
            i <= entries@.len(),
            first_folder(entries@.take(i as int)) is None,
        decreases entries.len() - i,
    {
        assert(entries@.take(i + 1).drop_last() =~= entries@.take(i as int));
        let e = &entries[i];
        let is_dot = str_eq(e.name.as_str(), ".") || str_eq(e.name.as_str(), "..");
        if e.kind == PSUEntryKind::Directory && !is_dot {
            proof {
                lemma_first_folder_prefix(entries@, i as int);
            }
            let name = e.name.clone();
            if char_count(trim_str(name.as_str()).as_str()) == 0 {
                let mut m = source.to_owned();
                string_push_str(&mut m, " does not contain a valid root directory entry.");
                return Err(m);
            }
            return Ok(name);
        }
        i = i + 1;
    }
    assert(entries@.take(i as int) =~= entries@);
    let mut m = source.to_owned();
    string_push_str(&mut m, " does not contain PSU metadata");
    Err(m)
}

proof fn lemma_first_folder_prefix(e: Seq<PSUEntry>, i: int)
    requires
        0 <= i < e.len(),
        first_folder(e.take(i)) is None,
        is_folder_entry(e[i]),
    ensures
        first_folder(e) == Some(i),
    decreases e.len(),
{
    if i < e.len() - 1 {
        assert(e.drop_last().take(i) =~= e.take(i));
        lemma_first_folder_prefix(e.drop_last(), i);
    } else {
        assert(e.drop_last() =~= e.take(i));
    }
}

/// What exporting an archive does with one entry, the save folder being
/// `root_name`: `.` and `..` are skipped, folders created (the save folder
/// itself, or one inside it), files written inside the save folder; a file
/// entry without contents stops the export.
pub fn export_action(entry: &PSUEntry, root_name: &str) -> (r: Result<ExportAction, String>)
    ensures
        entry.kind == PSUEntryKind::Directory ==> {
            &&& (entry.name@ == "."@ || entry.name@ == ".."@) ==> r == Ok::<ExportAction, String>(
                ExportAction::Skip,
            )
            &&& (entry.name@ != "."@ && entry.name@ != ".."@ && entry.name@ == root_name@) ==> r
                == Ok::<ExportAction, String>(ExportAction::CreateRoot)
            &&& (entry.name@ != "."@ && entry.name@ != ".."@ && entry.name@ != root_name@) ==> (r
                matches Ok(ExportAction::CreateSubdir(n)) && n@ == entry.name@)
        },
        entry.kind == PSUEntryKind::File ==> {
            &&& entry.contents is None ==> (r matches Err(m) && m@ == entry.name@
                + " is missing file data in the PSU archive."@)
            &&& entry.contents is Some ==> (r matches Ok(ExportAction::WriteFile(n)) && n@
                == entry.name@)
        },
{
    match entry.kind {
        PSUEntryKind::Directory => {
            if str_eq(entry.name.as_str(), ".") || str_eq(entry.name.as_str(), "..") {
                Ok(ExportAction::Skip)
            } else if str_eq(entry.name.as_str(), root_name) {
                Ok(ExportAction::CreateRoot)
            } else {
                Ok(ExportAction::CreateSubdir(entry.name.clone()))
            }
        },
        PSUEntryKind::File => {
            if entry.contents.is_none() {
                let mut m = entry.name.clone();
                string_push_str(&mut m, " is missing file data in the PSU archive.");
                Err(m)
            } else {
                Ok(ExportAction::WriteFile(entry.name.clone()))
            }
        },
    }
}


/// The message for an I/O failure while reading a project's psu.toml at
/// `config_path`: a missing file asks for one to be created; any other
/// failure gives the path and the error's text.
pub open spec fn load_io_text(kind: IoFailureKind, config_path: Seq<char>, error_text: Seq<char>) -> Seq<
    char,
> {
    match kind {
        IoFailureKind::NotFound => "Could not find "@ + config_path
            + ". Create a psu.toml file in the selected folder."@,
        _ => "Failed to read "@ + config_path + ": "@ + error_text,
    }
}

/// The message for an I/O failure of kind `kind`, whose text is
/// `error_text`, while reading the psu.toml at `config_path`.
pub fn load_io_message(kind: IoFailureKind, config_path: &str, error_text: &str) -> (r: String)
    ensures
        r@ == load_io_text(kind, config_path@, error_text@),
{
    match kind {
        IoFailureKind::NotFound => {
            let mut s = "Could not find ".to_owned();
            string_push_str(&mut s, config_path);
            string_push_str(&mut s, ". Create a psu.toml file in the selected folder.");
            s
        },
        _ => {
            let mut s = "Failed to read ".to_owned();
            string_push_str(&mut s, config_path);
            string_push_str(&mut s, ": ");
            string_push_str(&mut s, error_text);
            s
        },
    }
}

/// The message shown when a project's configuration cannot be loaded;
/// `config_path` is where its psu.toml was looked for.  An I/O failure is
/// answered by `load_io_message` for the failure's kind and text.
pub fn format_load_error(err: &Error, config_path: &str) -> (r: String)
    ensures
        *err is NameError ==> r@ == "Configuration contains an invalid PSU name."@,
        *err matches Error::ConfigError(m) ==> r@ == "The psu.toml file is invalid: "@ + m@,
        *err is IOError ==> exists|k: IoFailureKind, t: Seq<char>|
            r@ == load_io_text(k, config_path@, t),
{
    match err {
        Error::NameError => "Configuration contains an invalid PSU name.".to_owned(),
        Error::ConfigError(message) => {
            let mut s = "The psu.toml file is invalid: ".to_owned();
            string_push_str(&mut s, message.as_str());
            s
        },
        Error::IOError(io_err) => {
            let kind = io_failure_kind(io_err);
            let text = io_error_display(io_err);
            let r = load_io_message(kind, config_path, text.as_str());
            assert(r@ == load_io_text(kind, config_path@, text@));
            r
        },
    }
}

/// The missing files other than psu.toml (in any ASCII case), in order.
pub open spec fn without_psu_toml(missing: Seq<MissingRequiredFile>) -> Seq<MissingRequiredFile>
    decreases missing.len(),
{
    if missing.len() == 0 {
        Seq::empty()
    } else if ascii_lower(missing.last().name@) == "psu.toml"@ {
        without_psu_toml(missing.drop_last())
    } else {
        without_psu_toml(missing.drop_last()).push(missing.last())
    }
}

/// Drops psu.toml from a list of missing files, for a pack that brings its
/// own configuration.
pub fn drop_missing_psu_toml(missing: Vec<MissingRequiredFile>) -> (r: Vec<MissingRequiredFile>)
    ensures
        r@ == without_psu_toml(missing@),
{
    let target = chars_of("psu.toml");
    let mut out: Vec<MissingRequiredFile> = Vec::new();
    let mut i: usize = 0;
    while i < missing.len()
        invariant
            i <= missing@.len(),
            target@ == "psu.toml"@,
            out@ == without_psu_toml(missing@.take(i as int)),
        decreases missing.len() - i,
    {
        assert(missing@.take(i + 1).drop_last() =~= missing@.take(i as int));
        let lower = lower_chars(chars_of(missing[i].name.as_str()).as_slice());
        if !chars_eq(lower.as_slice(), target.as_slice()) {
            out.push(missing[i].clone_entry());
        }
        i = i + 1;
    }
    assert(missing@.take(i as int) =~= missing@);
    out
}

impl MissingRequiredFile {
    /// A copy of this entry.
    pub fn clone_entry(&self) -> (r: Self)
        ensures
            r == *self,
    {
        MissingRequiredFile { name: self.name.clone(), reason: self.reason }
    }
}

impl PackForm {
    /// Checks the names before a pack: the folder's base name must not be
    /// blank; an empty archive name takes the trimmed folder name.
    pub fn check_pack_names(&mut self) -> (r: Result<(), String>)
        ensures
            trim_spec(old(self).folder_base_name@).len() == 0 ==> (r matches Err(m) && m@
                == "Please provide a folder name"@ && *final(self) == *old(self)),
            trim_spec(old(self).folder_base_name@).len() > 0 ==> {
                &&& r is Ok
                &&& final(self).psu_file_base_name@ == if trim_spec(
                    old(self).psu_file_base_name@,
                ).len() == 0 {
                    trim_spec(old(self).folder_base_name@)
                } else {
                    old(self).psu_file_base_name@
                }
                &&& *final(self) == (PackForm {
                    psu_file_base_name: final(self).psu_file_base_name,
                    ..*old(self)
                })
            },
    {
        let trimmed_folder = trim_str(self.folder_base_name.as_str());
        if char_count(trimmed_folder.as_str()) == 0 {
            return Err("Please provide a folder name".to_owned());
        }
        let trimmed_file = trim_str(self.psu_file_base_name.as_str());
        if char_count(trimmed_file.as_str()) == 0 {
            self.psu_file_base_name = trimmed_folder;
        }
        Ok(())
    }
}


impl PackForm {
    /// Turns icon.sys handling on or off; turned off, or on without an
    /// icon.sys read from the project, the form generates one.
    pub fn set_icon_sys_enabled(&mut self, enabled: bool)
        ensures
            final(self).icon_sys_enabled == enabled,
            final(self).icon_sys_use_existing == (enabled && old(self).icon_sys_existing is Some
                && old(self).icon_sys_use_existing),
            *final(self) == (PackForm {
                icon_sys_enabled: enabled,
                icon_sys_use_existing: final(self).icon_sys_use_existing,
                ..*old(self)
            }),
    {
        self.icon_sys_enabled = enabled;
        if !enabled {
            self.icon_sys_use_existing = false;
        } else if self.icon_sys_existing.is_none() {
            self.icon_sys_use_existing = false;
        }
    }

    /// Chooses between packing the icon.sys read from the project and
    /// generating one.  Switching to the read one shows its fields.  Without
    /// a read icon.sys nothing changes.
    pub fn set_icon_sys_mode(&mut self, use_existing: bool)
        ensures
            old(self).icon_sys_existing is None ==> *final(self) == *old(self),
            old(self).icon_sys_existing matches Some(x) ==> {
                &&& final(self).icon_sys_use_existing == use_existing
                &&& same_project_fields(*final(self), *old(self))
                &&& (use_existing && !old(self).icon_sys_use_existing) ==> icon_file_shown(
                    *final(self),
                    x,
                )
                &&& !(use_existing && !old(self).icon_sys_use_existing) ==> *final(self) == (
                PackForm { icon_sys_use_existing: use_existing, ..*old(self) })
            },
    {
        let existing = copy_icon_sys(&self.icon_sys_existing);
        match existing {
            Some(x) => {
                let previous = self.icon_sys_use_existing;
                self.icon_sys_use_existing = use_existing;
                if use_existing && !previous {
                    self.apply_icon_sys_file(&x);
                }
            },
            None => {},
        }
    }
}


/// The exclusions of a built configuration always list psu.toml, so
/// building again adds nothing; when the form's list lacked it, it is
/// listed exactly once.
pub proof fn lemma_config_excluded_once(files: Seq<String>, out: Seq<String>)
    requires
        out.map_values(|s: String| s@) == if lists(files, "psu.toml"@) {
            files.map_values(|s: String| s@)
        } else {
            files.map_values(|s: String| s@).push("psu.toml"@)
        },
    ensures
        lists(out, "psu.toml"@),
        !lists(files, "psu.toml"@) ==> forall|i: int, j: int|
            0 <= i < out.len() && 0 <= j < out.len() && (#[trigger] out[i])@ == "psu.toml"@ && (
            #[trigger] out[j])@ == "psu.toml"@ ==> i == j,
{
    let v = out.map_values(|s: String| s@);
    assert(v.len() == out.len());
    if lists(files, "psu.toml"@) {
        let k = choose|k: int| 0 <= k < files.len() && (#[trigger] files[k])@ == "psu.toml"@;
        assert(v[k] == files[k]@);
        assert(out[k]@ == v[k]);
    } else {
        let n = files.len() as int;
        assert(out[n]@ == v[n]);
        assert forall|i: int, j: int|
            0 <= i < out.len() && 0 <= j < out.len() && (#[trigger] out[i])@ == "psu.toml"@ && (
            #[trigger] out[j])@ == "psu.toml"@ implies i == j by {
            if i < n {
                assert(out[i]@ == v[i] && v[i] == files[i]@);
            }
            if j < n {
                assert(out[j]@ == v[j] && v[j] == files[j]@);
            }
        }
    }
}


/// Whether no name occurs twice in a list.
pub open spec fn distinct_names(files: Seq<String>) -> bool {
    forall|i: int, j: int| 0 <= i < j < files.len() ==> (#[trigger] files[i])@ != (#[trigger] files[j])@
}

/// A file list that `add_file_entry` extends never holds a name twice:
/// whatever it appends was not listed before.
pub proof fn lemma_added_entries_stay_distinct(
    before: Seq<String>,
    after: Seq<String>,
    entry: Seq<char>,
)
    requires
        distinct_names(before),
        trim_spec(entry).len() > 0,
        !lists(before, trim_spec(entry)),
        after.len() == before.len() + 1,
        after.take(before.len() as int) == before,
        after[before.len() as int]@ == trim_spec(entry),
    ensures
        distinct_names(after),
{
    assert forall|i: int, j: int| 0 <= i < j < after.len() implies (#[trigger] after[i])@ != (
    #[trigger] after[j])@ by {
        assert(after[i] == before[i]);
        if j < before.len() {
            assert(after[j] == before[j]);
        } else {
            assert(after[j]@ == trim_spec(entry));
            if before[i]@ == trim_spec(entry) {
                assert(0 <= i < before.len() && before[i]@ == trim_spec(entry));
                assert(lists(before, trim_spec(entry)));
            }
        }
    }
}


/// Whether a folder entry is a regular file called icon.sys in any ASCII
/// case.
pub open spec fn is_icon_sys_file(name: Seq<char>, is_file: bool) -> bool {
    is_file && ascii_lower(name) == "icon.sys"@
}

/// The first of a folder's entries, in the order given, that is a regular
/// file called icon.sys in any ASCII case; `is_file` says, entry by entry,
/// whether it is a regular file.
pub fn find_icon_sys_entry(names: &Vec<String>, is_file: &Vec<bool>) -> (r: Option<usize>)
    requires
        is_file@.len() == names@.len(),
    ensures
        match r {
            Some(i) => i < names@.len() && is_icon_sys_file(names@[i as int]@, is_file@[i as int])
                && forall|j: int| 0 <= j < i ==> !is_icon_sys_file(
                    #[trigger] names@[j]@,
                    is_file@[j],
                ),
            None => forall|j: int| 0 <= j < names@.len() ==> !is_icon_sys_file(
                #[trigger] names@[j]@,
                is_file@[j],
            ),
        },
{
    let target = chars_of("icon.sys");
    let mut i: usize = 0;
    while i < names.len()
        invariant
            i <= names@.len(),
            is_file@.len() == names@.len(),
            target@ == "icon.sys"@,
            forall|j: int| 0 <= j < i ==> !is_icon_sys_file(#[trigger] names@[j]@, is_file@[j]),
        decreases names.len() - i,
    {
        if is_file[i] {
            let lower = lower_chars(chars_of(names[i].as_str()).as_slice());
            if chars_eq(lower.as_slice(), target.as_slice()) {
                return Some(i);
            }
        }
        i = i + 1;
    }
    None
}


/// The output path after the save's name changed: replaced by the new
/// default path (or cleared when there is none) when it was blank or its
/// file name was the previous default file name; otherwise kept.
pub open spec fn output_after_change(
    output: Seq<char>,
    previous_default: Option<Seq<char>>,
    default_path: Option<Seq<char>>,
) -> Seq<char> {
    let replace = trim_spec(output).len() == 0 || (previous_default matches Some(p)
        && path_file_name(output) == Some(p));
    if replace {
        match default_path {
            Some(d) => d,
            None => Seq::empty(),
        }
    } else {
        output
    }
}

/// The output path after the save's name changed; `previous_default_output`
/// is the default file name before the change and `default_output_path` the
/// default path after it.
pub fn update_output_if_matches_default(
    output: &str,
    previous_default_output: Option<&str>,
    default_output_path: Option<&str>,
) -> (r: String)
    ensures
        r@ == output_after_change(
            output@,
            str_view(previous_default_output),
            str_view(default_output_path),
        ),
{
    let replace = if char_count(trim_str(output).as_str()) == 0 {
        true
    } else {
        match previous_default_output {
            Some(previous) => match file_name_of(&chars_of(output)) {
                Some(name) => chars_eq(name.as_slice(), chars_of(previous).as_slice()),
                None => false,
            },
            None => false,
        }
    };
    if replace {
        match default_output_path {
            Some(path) => path.to_owned(),
            None => String::new(),
        }
    } else {
        output.to_owned()
    }
}


/// A list's heading as a text.
pub open spec fn list_label(kind: ListKind) -> Seq<char> {
    match kind {
        ListKind::Include => "Include files"@,
        ListKind::Exclude => "Exclude files"@,
    }
}

/// The error shown when a typed entry cannot be added to a list: the
/// reason why, as the failed file.
pub fn add_entry_failure_message(kind: ListKind, err: &str) -> (r: String)
    ensures
        r@ == error_text_spec(
            "Could not add the entry to the "@ + list_label(kind) + " list"@,
            seq![err@],
        ),
{
    let mut message = "Could not add the entry to the ".to_owned();
    string_push_str(&mut message, kind.label());
    string_push_str(&mut message, " list");
    let failed = vec![err.to_owned()];
    assert(failed@.map_values(|s: String| s@) =~= seq![err@]);
    error_text(message.as_str(), &failed)
}

/// The error shown when picked files cannot be added to a list: the
/// reasons, one per file, as the failed files.
pub fn add_files_failure_message(kind: ListKind, invalid_entries: &Vec<String>) -> (r: String)
    ensures
        r@ == error_text_spec(
            "Some files could not be added to the "@ + list_label(kind) + " list"@,
            invalid_entries@.map_values(|s: String| s@),
        ),
{
    let mut message = "Some files could not be added to the ".to_owned();
    string_push_str(&mut message, kind.label());
    string_push_str(&mut message, " list");
    error_text(message.as_str(), invalid_entries)
}

/// The archive a request works on: the loaded archive when there is one,
/// else the trimmed output path, or none when that is blank.
pub open spec fn requested_archive(loaded_psu_path: Option<Seq<char>>, output: Seq<char>) -> Option<
    Seq<char>,
> {
    match loaded_psu_path {
        Some(p) => Some(p),
        None => if trim_spec(output).len() == 0 {
            None
        } else {
            Some(trim_spec(output))
        },
    }
}

fn requested_archive_path(loaded_psu_path: Option<&str>, output: &str) -> (r: Option<String>)
    ensures
        match r {
            Some(p) => requested_archive(str_view(loaded_psu_path), output@) == Some(p@),
            None => requested_archive(str_view(loaded_psu_path), output@) is None,
        },
{
    match loaded_psu_path {
        Some(p) => Some(p.to_owned()),
        None => {
            let trimmed = trim_str(output);
            if char_count(trimmed.as_str()) == 0 {
                None
            } else {
                Some(trimmed)
            }
        },
    }
}

/// The archive an update rewrites, or why there is none.
pub fn determine_update_destination(loaded_psu_path: Option<&str>, output: &str) -> (r: Result<
    String,
    String,
>)
    ensures
        match requested_archive(str_view(loaded_psu_path), output@) {
            Some(p) => r matches Ok(d) && d@ == p,
            None => r matches Err(m) && m@
                == "Load a PSU file or set the output path before updating."@,
        },
{
    match requested_archive_path(loaded_psu_path, output) {
        Some(p) => Ok(p),
        None => Err("Load a PSU file or set the output path before updating.".to_owned()),
    }
}

/// The archive an export reads, or why there is none.
pub fn determine_export_source_path(loaded_psu_path: Option<&str>, output: &str) -> (r: Result<
    String,
    String,
>)
    ensures
        match requested_archive(str_view(loaded_psu_path), output@) {
            Some(p) => r matches Ok(d) && d@ == p,
            None => r matches Err(m) && m@
                == "Load a PSU file or select a packed PSU before exporting its contents."@,
        },
{
    match requested_archive_path(loaded_psu_path, output) {
        Some(p) => Ok(p),
        None => Err(
            "Load a PSU file or select a packed PSU before exporting its contents.".to_owned(),
        ),
    }
}

/// The answer to an update whose destination does not exist.
pub fn missing_update_destination_message(destination: &str) -> (r: String)
    ensures
        r@ == "Cannot update because "@ + destination@ + " does not exist."@,
{
    let mut message = "Cannot update because ".to_owned();
    string_push_str(&mut message, destination);
    string_push_str(&mut message, " does not exist.");
    message
}

/// The answer to an export whose source archive is not a file.
pub fn missing_export_source_message(source: &str) -> (r: String)
    ensures
        r@ == "Cannot export because "@ + source@ + " does not exist."@,
{
    let mut message = "Cannot export because ".to_owned();
    string_push_str(&mut message, source);
    string_push_str(&mut message, " does not exist.");
    message
}

/// A pack the user still has to confirm because required files are
/// missing.
pub enum PendingPackAction {
    Pack {
        folder: String,
        output_path: String,
        config: Config,
        missing_required_files: Vec<MissingRequiredFile>,
    },
}

impl PendingPackAction {
    /// The required files the pack lacks.
    pub fn missing_files(&self) -> (r: &Vec<MissingRequiredFile>)
        ensures
            match *self {
                PendingPackAction::Pack { missing_required_files, .. } => r
                    == &missing_required_files,
            },
    {
        match self {
            PendingPackAction::Pack { missing_required_files, .. } => missing_required_files,
        }
    }
}

/// A pack to start: the folder, the archive to write and the configuration.
pub struct PackJob {
    pub folder: String,
    pub output_path: String,
    pub config: Config,
}

/// The editor's pack requests: at most one waits for confirmation.
pub struct PackQueue {
    pub pending_pack_action: Option<PendingPackAction>,
}

impl PackQueue {
    /// No pack waits.
    pub fn new() -> (q: Self)
        ensures
            q.pending_pack_action is None,
    {
        PackQueue { pending_pack_action: None }
    }

    /// A pack request, made once its inputs are prepared.  While a pack runs
    /// nothing happens.  Otherwise, with no required file missing the pack
    /// starts at once and nothing waits any more; with files missing it
    /// waits for confirmation, in place of any waiting one.
    pub fn handle_pack_request(
        &mut self,
        pack_running: bool,
        folder: String,
        output_path: String,
        config: Config,
        missing_required_files: Vec<MissingRequiredFile>,
    ) -> (job: Option<PackJob>)
        ensures
            pack_running ==> job is None && final(self).pending_pack_action == old(
                self,
            ).pending_pack_action,
            !pack_running && missing_required_files@.len() == 0 ==> job == Some(
                PackJob { folder, output_path, config },
            ) && final(self).pending_pack_action is None,
            !pack_running && missing_required_files@.len() > 0 ==> job is None
                && final(self).pending_pack_action == Some(
                PendingPackAction::Pack { folder, output_path, config, missing_required_files },
            ),
    {
        if pack_running {
            None
        } else if missing_required_files.len() == 0 {
            self.pending_pack_action = None;
            Some(PackJob { folder, output_path, config })
        } else {
            self.pending_pack_action = Some(
                PendingPackAction::Pack { folder, output_path, config, missing_required_files },
            );
            None
        }
    }

    /// The user proceeds: the waiting pack, if any, starts and no longer
    /// waits.
    pub fn confirm_pending_pack_action(&mut self) -> (job: Option<PackJob>)
        ensures
            final(self).pending_pack_action is None,
            match old(self).pending_pack_action {
                Some(PendingPackAction::Pack { folder, output_path, config, .. }) => job == Some(
                    PackJob { folder, output_path, config },
                ),
                None => job is None,
            },
    {
        match self.pending_pack_action.take() {
            Some(PendingPackAction::Pack { folder, output_path, config, .. }) => Some(
                PackJob { folder, output_path, config },
            ),
            None => None,
        }
    }

    /// The user goes back, or a request fails before it could wait: nothing
    /// waits any more.
    pub fn cancel_pending_pack_action(&mut self)
        ensures
            final(self).pending_pack_action is None,
    {
        self.pending_pack_action = None;
    }

    /// The files the waiting pack lacks, if a pack waits.
    pub fn pending_pack_missing_files(&self) -> (r: Option<&Vec<MissingRequiredFile>>)
        ensures
            match self.pending_pack_action {
                Some(PendingPackAction::Pack { missing_required_files, .. }) => r == Some(
                    &missing_required_files,
                ),
                None => r is None,
            },
    {
        match &self.pending_pack_action {
            Some(a) => Some(a.missing_files()),
            None => None,
        }
    }
}

} // verus!
