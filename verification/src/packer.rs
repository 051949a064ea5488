//! The packer's rules: project configuration, icon.sys generation, which
//! files of a project folder go into the archive, and the archive itself.
use vstd::prelude::*;
use crate::color::Color;
use crate::icon_sys::{ColorF, Vector, IconSys, IconSysModel};
use crate::numparse::{parse_u16_radix, spec_parse_u16};
use crate::psu::{PsuTimestamp, PSU, PSUEntry, PSUWriter, is_dir_entry, is_file_entry, name_fits,
    archive_bytes, entry_writable, epoch, DIR_ID, FILE_ID};
use crate::text::{chars_of, chars_eq, string_from_chars, trim_chars, trim_spec, ascii_lower,
    lower_char};

verus! {

/// What went wrong while packing.
#[derive(Debug)]
pub enum Error {
    /// The folder name has characters outside the accepted set.
    NameError,
    IOError(std::io::Error),
    ConfigError(String),
}

/// Calls the `Debug` formatting of an I/O error.
#[verifier::external_body]
fn io_error_debug(err: &std::io::Error) -> String {
    format!("{err:?}")
}

/// Calls the `Display` formatting of an I/O error.
#[verifier::external_body]
pub(crate) fn io_error_display(err: &std::io::Error) -> String {
    err.to_string()
}

impl Error {
    /// The message shown for the error.
    pub fn message(&self) -> (s: String)
        ensures
            *self matches Error::NameError ==> s@ == "Name must match [a-zA-Z0-9._-\\s]+"@,
            *self matches Error::ConfigError(m) ==> s@ == m@,
    {
        match self {
            Error::NameError => "Name must match [a-zA-Z0-9._-\\s]+".to_owned(),
            Error::IOError(err) => io_error_debug(err),
            Error::ConfigError(err) => err.clone(),
        }
    }
}

// ---------------------------------------------------------------------------
// Names
// ---------------------------------------------------------------------------

/// The characters a folder name may hold: the ASCII letters and digits,
/// `_`, `-` and space.
pub open spec fn name_char_ok(c: char) -> bool {
    ('a' <= c && c <= 'z') || ('A' <= c && c <= 'Z') || ('0' <= c && c <= '9') || c == '_'
        || c == '-' || c == ' '
}

/// Whether every character of a folder name is accepted.
pub open spec fn spec_check_name(name: Seq<char>) -> bool {
    forall|i: int| 0 <= i < name.len() ==> name_char_ok(#[trigger] name[i])
}

/// Whether every character of a folder name is accepted.
pub fn check_name(name: &str) -> (r: bool)
    ensures
        r == spec_check_name(name@),
{
    let chars = chars_of(name);
    let mut i: usize = 0;
    while i < chars.len()
        invariant
            i <= chars@.len(),
            chars@ == name@,
            forall|k: int| 0 <= k < i ==> name_char_ok(#[trigger] chars@[k]),
        decreases chars.len() - i,
    {
        let c = chars[i];
        if !(('a' <= c && c <= 'z') || ('A' <= c && c <= 'Z') || ('0' <= c && c <= '9') || c
            == '_' || c == '-' || c == ' ') {
            assert(!name_char_ok(chars@[i as int]));
            return false;
        }
        i = i + 1;
    }
    true
}

// ---------------------------------------------------------------------------
// icon.sys flags
// ---------------------------------------------------------------------------

/// The icon.sys flag word.
#[derive(Debug, Clone, Copy, PartialEq, Eq, Structural)]
pub struct IconSysFlags(pub u16);

impl From<u16> for IconSysFlags {
    /// The flag word with the given value.
    fn from(value: u16) -> (f: Self) {
        IconSysFlags(value)
    }
}

impl vstd::std_specs::convert::FromSpecImpl<u16> for IconSysFlags {
    open spec fn obeys_from_spec() -> bool {
        true
    }

    open spec fn from_spec(v: u16) -> Self {
        IconSysFlags(v)
    }
}

impl From<IconSysFlags> for u16 {
    /// The value of a flag word.
    fn from(value: IconSysFlags) -> (v: u16) {
        value.0
    }
}

impl vstd::std_specs::convert::FromSpecImpl<IconSysFlags> for u16 {
    open spec fn obeys_from_spec() -> bool {
        true
    }

    open spec fn from_spec(v: IconSysFlags) -> u16 {
        v.0
    }
}

impl IconSysFlags {
    pub fn new(value: u16) -> (f: Self)
        ensures
            f.0 == value,
    {
        IconSysFlags(value)
    }

    pub fn value(self) -> (v: u16)
        ensures
            v == self.0,
    {
        self.0
    }
}

/// Whether `c` is ASCII whitespace as `char::is_ascii_whitespace` defines
/// it: space, tab, line feed, form feed, carriage return.
pub open spec fn is_ascii_ws(c: char) -> bool {
    c == ' ' || c == '\t' || c == '\n' || c == '\x0C' || c == '\r'
}

/// A flag name folded for matching: lower-cased, without ASCII whitespace,
/// underscores and parentheses.
pub open spec fn fold_flag_name(s: Seq<char>) -> Seq<char> {
    ascii_lower(s).filter(|c: char| !is_ascii_ws(c) && c != '_' && c != '(' && c != ')')
}

/// The flag value of a descriptive name.
pub open spec fn spec_named_flag(value: Seq<char>) -> Option<u16> {
    let n = fold_flag_name(value);
    if n == "ps2savefile"@ || n == "savefile"@ {
        Some(0)
    } else if n == "softwareps2"@ || n == "software"@ {
        Some(1)
    } else if n == "unrecognizeddata"@ || n == "unrecognized"@ || n == "data"@ {
        Some(2)
    } else if n == "softwarepocketstation"@ || n == "pocketstation"@ {
        Some(3)
    } else if n == "settingsps2"@ || n == "settings"@ {
        Some(4)
    } else if n == "systemdriver"@ || n == "driver"@ {
        Some(5)
    } else {
        None
    }
}

fn fold_flag_chars(s: &[char]) -> (r: Vec<char>)
    ensures
        r@ == fold_flag_name(s@),
{
    let mut r: Vec<char> = Vec::new();
    let mut i: usize = 0;
    while i < s.len()
        invariant
            i <= s@.len(),
            r@ == fold_flag_name(s@.take(i as int)),
        decreases s.len() - i,
    {
        let c = s[i];
        let l = if 'A' <= c && c <= 'Z' {
            (((c as u32) + 32) as u8) as char
        } else {
            c
        };
        proof {
            reveal(Seq::filter);
            assert(s@.take(i + 1) == s@.take(i as int).push(c));
            assert(ascii_lower(s@.take(i + 1)) == ascii_lower(s@.take(i as int)).push(lower_char(c)));
            assert(ascii_lower(s@.take(i + 1)).drop_last() == ascii_lower(s@.take(i as int)));
        }
        if !(l == ' ' || l == '\t' || l == '\n' || l == '\x0C' || l == '\r') && l != '_' && l != '('
            && l != ')' {
            r.push(l);
        }
        i = i + 1;
    }
    assert(s@.take(s@.len() as int) == s@);
    r
}

fn is_literal(s: &[char], lit: &str) -> (r: bool)
    ensures
        r == (s@ == lit@),
{
    chars_eq(s, chars_of(lit).as_slice())
}

/// The flag value of a descriptive name such as "PS2 Save File".
pub fn parse_named_flag(value: &str) -> (r: Option<u16>)
    ensures
        r == spec_named_flag(value@),
{
    let n = fold_flag_chars(chars_of(value).as_slice());
    let n = n.as_slice();
    if is_literal(n, "ps2savefile") || is_literal(n, "savefile") {
        Some(0)
    } else if is_literal(n, "softwareps2") || is_literal(n, "software") {
        Some(1)
    } else if is_literal(n, "unrecognizeddata") || is_literal(n, "unrecognized") || is_literal(
        n,
        "data",
    ) {
        Some(2)
    } else if is_literal(n, "softwarepocketstation") || is_literal(n, "pocketstation") {
        Some(3)
    } else if is_literal(n, "settingsps2") || is_literal(n, "settings") {
        Some(4)
    } else if is_literal(n, "systemdriver") || is_literal(n, "driver") {
        Some(5)
    } else {
        None
    }
}

/// How a flag string is read: a descriptive name, `0x`/`0X` and
/// hexadecimal digits, or a decimal number, after trimming.
pub open spec fn spec_parse_flag(value: Seq<char>) -> Option<u16> {
    let t = trim_spec(value);
    match spec_named_flag(t) {
        Some(v) => Some(v),
        None => if t.len() >= 2 && t[0] == '0' && (t[1] == 'x' || t[1] == 'X') {
            spec_parse_u16(t.skip(2), 16)
        } else {
            spec_parse_u16(t, 10)
        },
    }
}

/// The message for a flag number outside the 16-bit range.
pub open spec fn flag_range_message() -> Seq<char> {
    "icon_sys.flags must be between 0 and 65535"@
}

/// An icon.sys flag given as an unsigned number; fails above 65535.
pub fn flag_from_u64(value: u64) -> (r: Result<u16, String>)
    ensures
        value <= 0xFFFF ==> r == Ok::<u16, String>(value as u16),
        value > 0xFFFF ==> (r matches Err(m) && m@ == flag_range_message()),
{
    if value > 0xFFFF {
        return Err("icon_sys.flags must be between 0 and 65535".to_owned());
    }
    Ok(value as u16)
}

/// An icon.sys flag given as a signed number; fails outside 0 to 65535.
pub fn flag_from_i64(value: i64) -> (r: Result<u16, String>)
    ensures
        0 <= value <= 0xFFFF ==> r == Ok::<u16, String>(value as u16),
        !(0 <= value <= 0xFFFF) ==> (r matches Err(m) && m@ == flag_range_message()),
{
    if value < 0 || value > 0xFFFF {
        return Err("icon_sys.flags must be between 0 and 65535".to_owned());
    }
    Ok(value as u16)
}

/// Reads an icon.sys flag from text; the error message names the trimmed
/// input.
pub fn parse_flag_string(value: &str) -> (r: Result<u16, String>)
    ensures
        match (r, spec_parse_flag(value@)) {
            (Ok(a), Some(b)) => a == b,
            (Err(_), None) => true,
            _ => false,
        },
        r matches Err(msg) ==> {
            let t = trim_spec(value@);
            ||| (t.len() >= 2 && t[0] == '0' && (t[1] == 'x' || t[1] == 'X') && msg@
                == "Invalid hexadecimal icon_sys flag: "@ + t)
            ||| (!(t.len() >= 2 && t[0] == '0' && (t[1] == 'x' || t[1] == 'X')) && msg@
                == "Invalid icon_sys flag value: "@ + t)
        },
{
    let trimmed = trim_chars(chars_of(value).as_slice());
    let trimmed_s = string_from_chars(trimmed.as_slice());
    if let Some(mapped) = parse_named_flag(trimmed_s.as_str()) {
        return Ok(mapped);
    }
    if trimmed.len() >= 2 && trimmed[0] == '0' && (trimmed[1] == 'x' || trimmed[1] == 'X') {
        let mut rest: Vec<char> = Vec::new();
        let mut i: usize = 2;
        while i < trimmed.len()
            invariant
                2 <= i <= trimmed@.len(),
                rest@ == trimmed@.subrange(2, i as int),
            decreases trimmed.len() - i,
        {
            rest.push(trimmed[i]);
            i = i + 1;
        }
        assert(rest@ == trimmed@.skip(2));
        match parse_u16_radix(rest.as_slice(), 16) {
            Some(v) => Ok(v),
            None => {
                let mut msg = chars_of("Invalid hexadecimal icon_sys flag: ");
                let ghost prefix = msg@;
                let mut k: usize = 0;
                while k < trimmed.len()
                    invariant
                        k <= trimmed@.len(),
                        msg@ == prefix + trimmed@.take(k as int),
                    decreases trimmed.len() - k,
                {
                    msg.push(trimmed[k]);
                    assert(trimmed@.take(k + 1) == trimmed@.take(k as int).push(trimmed@[k as int]));
                    k = k + 1;
                }
                assert(trimmed@.take(trimmed@.len() as int) == trimmed@);
                Err(string_from_chars(msg.as_slice()))
            },
        }
    } else {
        match parse_u16_radix(trimmed.as_slice(), 10) {
            Some(v) => Ok(v),
            None => {
                let mut msg = chars_of("Invalid icon_sys flag value: ");
                let ghost prefix = msg@;
                let mut k: usize = 0;
                while k < trimmed.len()
                    invariant
                        k <= trimmed@.len(),
                        msg@ == prefix + trimmed@.take(k as int),
                    decreases trimmed.len() - k,
                {
                    msg.push(trimmed[k]);
                    assert(trimmed@.take(k + 1) == trimmed@.take(k as int).push(trimmed@[k as int]));
                    k = k + 1;
                }
                assert(trimmed@.take(trimmed@.len() as int) == trimmed@);
                Err(string_from_chars(msg.as_slice()))
            },
        }
    }
}


// ---------------------------------------------------------------------------
// Configuration
// ---------------------------------------------------------------------------

/// A background colour as configured.
#[derive(Debug, Clone, Copy, PartialEq, Eq, Structural)]
pub struct ColorConfig {
    pub r: u8,
    pub g: u8,
    pub b: u8,
    pub a: u8,
}

/// A float colour as configured (bit patterns of 32-bit floats).
#[derive(Debug, Clone, Copy, PartialEq, Eq, Structural)]
pub struct ColorFConfig {
    pub r: u32,
    pub g: u32,
    pub b: u32,
    pub a: u32,
}

/// A light direction as configured (bit patterns of 32-bit floats).
#[derive(Debug, Clone, Copy, PartialEq, Eq, Structural)]
pub struct VectorConfig {
    pub x: u32,
    pub y: u32,
    pub z: u32,
    pub w: u32,
}

impl ColorConfig {
    pub fn to_color(self) -> (c: Color)
        ensures
            c == (Color { r: self.r, g: self.g, b: self.b, a: self.a }),
    {
        Color { r: self.r, g: self.g, b: self.b, a: self.a }
    }
}

impl ColorFConfig {
    pub fn to_color_f(self) -> (c: ColorF)
        ensures
            c == (ColorF { r: self.r, g: self.g, b: self.b, a: self.a }),
    {
        ColorF { r: self.r, g: self.g, b: self.b, a: self.a }
    }
}

impl VectorConfig {
    pub fn to_vector(self) -> (v: Vector)
        ensures
            v == (Vector { x: self.x, y: self.y, z: self.z, w: self.w }),
    {
        Vector { x: self.x, y: self.y, z: self.z, w: self.w }
    }
}

/// The `[icon_sys]` table of a project: what to write into icon.sys.
#[derive(Debug, Clone)]
pub struct IconSysConfig {
    pub flags: IconSysFlags,
    pub title: String,
    pub linebreak_pos: Option<u16>,
    pub preset: Option<String>,
    pub background_transparency: Option<u32>,
    pub background_colors: Option<Vec<ColorConfig>>,
    pub light_directions: Option<Vec<VectorConfig>>,
    pub light_colors: Option<Vec<ColorFConfig>>,
    pub ambient_color: Option<ColorFConfig>,
}

/// A project configuration (`psu.toml`).
#[derive(Debug, Clone)]
pub struct Config {
    pub name: String,
    pub timestamp: Option<PsuTimestamp>,
    /// The files to pack; `None` packs the whole folder.
    pub inclusions: Option<Vec<String>>,
    pub exclude: Option<Vec<String>>,
    pub icon_sys: Option<IconSysConfig>,
}

pub const DEFAULT_LINEBREAK_POS: u16 = 0;
pub const DEFAULT_BACKGROUND_TRANSPARENCY: u32 = 0;
/// The file name written into the icon fields of a generated icon.sys.
pub const ICON_FILE_NAME: &'static str = "icon.icn";

/// Bit patterns of 0.0, 0.2, 0.3, 0.5 and 1.0 as 32-bit floats.
pub open spec fn f32_zero() -> u32 { 0 }
pub open spec fn f32_point_two() -> u32 { 0x3E4C_CCCD }
pub open spec fn f32_point_three() -> u32 { 0x3E99_999A }
pub open spec fn f32_half() -> u32 { 0x3F00_0000 }
pub open spec fn f32_one() -> u32 { 0x3F80_0000 }

/// Default background colours: all transparent black.
pub open spec fn default_background_colors_spec() -> Seq<ColorConfig> {
    Seq::new(4, |i: int| ColorConfig { r: 0, g: 0, b: 0, a: 0 })
}

/// Default light directions: all (0, 0, 1, 0).
pub open spec fn default_light_directions_spec() -> Seq<VectorConfig> {
    Seq::new(3, |i: int| VectorConfig { x: f32_zero(), y: f32_zero(), z: f32_one(), w: f32_zero() })
}

/// Default light colours: white, half grey, 0.3 grey, all opaque.
pub open spec fn default_light_colors_spec() -> Seq<ColorFConfig> {
    seq![
        ColorFConfig { r: f32_one(), g: f32_one(), b: f32_one(), a: f32_one() },
        ColorFConfig { r: f32_half(), g: f32_half(), b: f32_half(), a: f32_one() },
        ColorFConfig { r: f32_point_three(), g: f32_point_three(), b: f32_point_three(), a: f32_one() },
    ]
}

/// Default ambient colour: 0.2 grey, opaque.
pub open spec fn default_ambient_color_spec() -> ColorFConfig {
    ColorFConfig { r: f32_point_two(), g: f32_point_two(), b: f32_point_two(), a: f32_one() }
}

/// A configured list over its defaults: each configured entry replaces the
/// default at its position; entries past the end are ignored.
pub open spec fn overlay<T>(defaults: Seq<T>, values: Option<Seq<T>>) -> Seq<T> {
    match values {
        Some(v) => Seq::new(defaults.len(), |i: int| if i < v.len() { v[i] } else { defaults[i] }),
        None => defaults,
    }
}

pub open spec fn opt_vec_view<T>(o: Option<Vec<T>>) -> Option<Seq<T>> {
    match o {
        Some(v) => Some(v@),
        None => None,
    }
}

impl IconSysConfig {
    pub fn default_linebreak_pos() -> (v: u16)
        ensures
            v == 0,
    {
        DEFAULT_LINEBREAK_POS
    }

    pub fn default_background_transparency() -> (v: u32)
        ensures
            v == 0,
    {
        DEFAULT_BACKGROUND_TRANSPARENCY
    }

    pub fn default_background_colors() -> (c: [ColorConfig; 4])
        ensures
            c@ == default_background_colors_spec(),
    {
        let z = ColorConfig { r: 0, g: 0, b: 0, a: 0 };
        let c = [z, z, z, z];
        assert(c@ =~= default_background_colors_spec());
        c
    }

    pub fn default_light_directions() -> (d: [VectorConfig; 3])
        ensures
            d@ == default_light_directions_spec(),
    {
        let v = VectorConfig { x: 0, y: 0, z: 0x3F80_0000, w: 0 };
        let d = [v, v, v];
        assert(d@ =~= default_light_directions_spec());
        d
    }

    pub fn default_light_colors() -> (c: [ColorFConfig; 3])
        ensures
            c@ == default_light_colors_spec(),
    {
        let c = [
            ColorFConfig { r: 0x3F80_0000, g: 0x3F80_0000, b: 0x3F80_0000, a: 0x3F80_0000 },
            ColorFConfig { r: 0x3F00_0000, g: 0x3F00_0000, b: 0x3F00_0000, a: 0x3F80_0000 },
            ColorFConfig { r: 0x3E99_999A, g: 0x3E99_999A, b: 0x3E99_999A, a: 0x3F80_0000 },
        ];
        assert(c@ =~= default_light_colors_spec());
        c
    }

    pub fn default_ambient_color() -> (c: ColorFConfig)
        ensures
            c == default_ambient_color_spec(),
    {
        ColorFConfig { r: 0x3E4C_CCCD, g: 0x3E4C_CCCD, b: 0x3E4C_CCCD, a: 0x3F80_0000 }
    }

    /// The configured background transparency, or the default.
    pub fn background_transparency_value(&self) -> (v: u32)
        ensures
            v == match self.background_transparency {
                Some(t) => t,
                None => 0,
            },
    {
        match self.background_transparency {
            Some(t) => t,
            None => Self::default_background_transparency(),
        }
    }

    /// The background colours: configured entries over the defaults.
    pub fn background_colors_array(&self) -> (c: [ColorConfig; 4])
        ensures
            c@ == overlay(default_background_colors_spec(), opt_vec_view(self.background_colors)),
    {
        let mut colors = Self::default_background_colors();
        if let Some(values) = &self.background_colors {
            let mut i: usize = 0;
            while i < 4 && i < values.len()
                invariant
                    i <= 4,
                    i <= values@.len(),
                    colors@.len() == 4,
                    forall|k: int| 0 <= k < i ==> colors@[k] == values@[k],
                    forall|k: int| i <= k < 4 ==> colors@[k] == default_background_colors_spec()[k],
                decreases 4 - i,
            {
                colors[i] = values[i];
                i = i + 1;
            }
        }
        assert(colors@ =~= overlay(default_background_colors_spec(), opt_vec_view(self.background_colors)));
        colors
    }

    /// The light directions: configured entries over the defaults.
    pub fn light_directions_array(&self) -> (d: [VectorConfig; 3])
        ensures
            d@ == overlay(default_light_directions_spec(), opt_vec_view(self.light_directions)),
    {
        let mut dirs = Self::default_light_directions();
        if let Some(values) = &self.light_directions {
            let mut i: usize = 0;
            while i < 3 && i < values.len()
                invariant
                    i <= 3,
                    i <= values@.len(),
                    dirs@.len() == 3,
                    forall|k: int| 0 <= k < i ==> dirs@[k] == values@[k],
                    forall|k: int| i <= k < 3 ==> dirs@[k] == default_light_directions_spec()[k],
                decreases 3 - i,
            {
                dirs[i] = values[i];
                i = i + 1;
            }
        }
        assert(dirs@ =~= overlay(default_light_directions_spec(), opt_vec_view(self.light_directions)));
        dirs
    }

    /// The light colours: configured entries over the defaults.
    pub fn light_colors_array(&self) -> (c: [ColorFConfig; 3])
        ensures
            c@ == overlay(default_light_colors_spec(), opt_vec_view(self.light_colors)),
    {
        let mut colors = Self::default_light_colors();
        if let Some(values) = &self.light_colors {
            let mut i: usize = 0;
            while i < 3 && i < values.len()
                invariant
                    i <= 3,
                    i <= values@.len(),
                    colors@.len() == 3,
                    forall|k: int| 0 <= k < i ==> colors@[k] == values@[k],
                    forall|k: int| i <= k < 3 ==> colors@[k] == default_light_colors_spec()[k],
                decreases 3 - i,
            {
                colors[i] = values[i];
                i = i + 1;
            }
        }
        assert(colors@ =~= overlay(default_light_colors_spec(), opt_vec_view(self.light_colors)));
        colors
    }

    /// The configured ambient colour, or the default.
    pub fn ambient_color_value(&self) -> (c: ColorFConfig)
        ensures
            c == match self.ambient_color {
                Some(a) => a,
                None => default_ambient_color_spec(),
            },
    {
        match self.ambient_color {
            Some(a) => a,
            None => Self::default_ambient_color(),
        }
    }

    /// The configured line break position, or the default.
    pub fn linebreak_position(&self) -> (v: u16)
        ensures
            v == match self.linebreak_pos {
                Some(p) => p,
                None => 0,
            },
    {
        match self.linebreak_pos {
            Some(p) => p,
            None => Self::default_linebreak_pos(),
        }
    }
}


pub open spec fn color_of(c: ColorConfig) -> Color {
    Color { r: c.r, g: c.g, b: c.b, a: c.a }
}

pub open spec fn color_f_of(c: ColorFConfig) -> ColorF {
    ColorF { r: c.r, g: c.g, b: c.b, a: c.a }
}

pub open spec fn vector_of(v: VectorConfig) -> Vector {
    Vector { x: v.x, y: v.y, z: v.z, w: v.w }
}

/// Which configured list has the wrong number of entries, if any: 0 for
/// the background colours (4 needed), 1 for the light directions (3), 2
/// for the light colours (3).
pub open spec fn icon_sys_config_mismatch(c: IconSysConfig) -> Option<int> {
    if c.background_colors is Some && c.background_colors.unwrap()@.len() != 4 {
        Some(0)
    } else if c.light_directions is Some && c.light_directions.unwrap()@.len() != 3 {
        Some(1)
    } else if c.light_colors is Some && c.light_colors.unwrap()@.len() != 3 {
        Some(2)
    } else {
        None
    }
}

/// The icon.sys a configuration describes: configured values where given,
/// defaults elsewhere, and `icon.icn` as every icon file.
pub open spec fn spec_built_icon_sys(c: IconSysConfig) -> IconSysModel {
    IconSysModel {
        flags: c.flags.0,
        linebreak_pos: match c.linebreak_pos {
            Some(p) => p,
            None => 0,
        },
        background_transparency: match c.background_transparency {
            Some(t) => t,
            None => 0,
        },
        background_colors: overlay(
            default_background_colors_spec(),
            opt_vec_view(c.background_colors),
        ).map_values(|x: ColorConfig| color_of(x)),
        light_directions: overlay(
            default_light_directions_spec(),
            opt_vec_view(c.light_directions),
        ).map_values(|x: VectorConfig| vector_of(x)),
        light_colors: overlay(default_light_colors_spec(), opt_vec_view(c.light_colors)).map_values(
            |x: ColorFConfig| color_f_of(x),
        ),
        ambient_color: color_f_of(
            match c.ambient_color {
                Some(a) => a,
                None => default_ambient_color_spec(),
            },
        ),
        title: c.title@,
        icon_file: "icon.icn"@,
        icon_copy_file: "icon.icn"@,
        icon_delete_file: "icon.icn"@,
    }
}

impl IconSysConfig {
    /// The icon.sys the configuration describes; fails when a configured
    /// list has the wrong number of entries.
    pub fn build_icon_sys(&self) -> (r: Result<IconSys, Error>)
        ensures
            r is Ok <==> icon_sys_config_mismatch(*self) is None,
            r matches Ok(s) ==> s.view() == spec_built_icon_sys(*self),
            icon_sys_config_mismatch(*self) == Some(0int) ==> (r matches Err(Error::ConfigError(m))
                && m@ == "icon_sys.background_colors must contain exactly 4 entries"@),
            icon_sys_config_mismatch(*self) == Some(1int) ==> (r matches Err(Error::ConfigError(m))
                && m@ == "icon_sys.light_directions must contain exactly 3 entries"@),
            icon_sys_config_mismatch(*self) == Some(2int) ==> (r matches Err(Error::ConfigError(m))
                && m@ == "icon_sys.light_colors must contain exactly 3 entries"@),
    {
        if let Some(colors) = &self.background_colors {
            if colors.len() != 4 {
                return Err(
                    Error::ConfigError(
                        "icon_sys.background_colors must contain exactly 4 entries".to_owned(),
                    ),
                );
            }
        }
        if let Some(directions) = &self.light_directions {
            if directions.len() != 3 {
                return Err(
                    Error::ConfigError(
                        "icon_sys.light_directions must contain exactly 3 entries".to_owned(),
                    ),
                );
            }
        }
        if let Some(colors) = &self.light_colors {
            if colors.len() != 3 {
                return Err(
                    Error::ConfigError(
                        "icon_sys.light_colors must contain exactly 3 entries".to_owned(),
                    ),
                );
            }
        }
        let bg = self.background_colors_array();
        let dirs = self.light_directions_array();
        let lights = self.light_colors_array();
        let ambient = self.ambient_color_value();
        let background_colors = [bg[0].to_color(), bg[1].to_color(), bg[2].to_color(), bg[3].to_color()];
        let light_directions = [dirs[0].to_vector(), dirs[1].to_vector(), dirs[2].to_vector()];
        let light_colors = [lights[0].to_color_f(), lights[1].to_color_f(), lights[2].to_color_f()];
        let s = IconSys {
            flags: self.flags.value(),
            linebreak_pos: self.linebreak_position(),
            background_transparency: self.background_transparency_value(),
            background_colors,
            light_directions,
            light_colors,
            ambient_color: ambient.to_color_f(),
            title: self.title.clone(),
            icon_file: ICON_FILE_NAME.to_owned(),
            icon_copy_file: ICON_FILE_NAME.to_owned(),
            icon_delete_file: ICON_FILE_NAME.to_owned(),
        };
        assert(s.view().background_colors =~= spec_built_icon_sys(*self).background_colors);
        assert(s.view().light_directions =~= spec_built_icon_sys(*self).light_directions);
        assert(s.view().light_colors =~= spec_built_icon_sys(*self).light_colors);
        Ok(s)
    }

    /// The bytes of the icon.sys the configuration describes; fails as
    /// `build_icon_sys` does, or when the title or a file name does not fit.
    pub fn to_bytes(&self) -> (r: Result<Vec<u8>, Error>)
        ensures
            r is Ok <==> icon_sys_config_mismatch(*self) is None
                && crate::icon_sys::spec_icon_sys_bytes(spec_built_icon_sys(*self)) is Some,
            r matches Ok(b) ==> b@ == crate::icon_sys::spec_icon_sys_bytes(
                spec_built_icon_sys(*self),
            ).unwrap(),
            icon_sys_config_mismatch(*self) is None && crate::icon_sys::spec_icon_sys_bytes(
                spec_built_icon_sys(*self),
            ) is None ==> (r matches Err(Error::ConfigError(_))),
    {
        let icon_sys = self.build_icon_sys()?;
        match icon_sys.to_bytes() {
            Ok(b) => Ok(b),
            Err(err) => Err(Error::ConfigError(io_error_display(&err))),
        }
    }
}

} // verus!
