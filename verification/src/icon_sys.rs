//! icon.sys: the metadata file of a PS2 save (title, colours, lighting,
//! icon file names).  Floating-point fields are carried as the bit
//! patterns the file stores.
use vstd::prelude::*;
use crate::bytes::{u16_at, u32_at, le16, le32, zeros, read_u16_le, read_u32_le, push_u16_le,
    push_u32_le, push_zeros, push_all, slice_bytes, lemma_u16_of, lemma_u32_of, lemma_concat_left,
    lemma_concat_right};
use crate::color::Color;
use crate::io_error::invalid_data;
use crate::sjis::{all_ascii, encode_sjis, shift_jis_decoded, shift_jis_encoded};
use crate::text::{bytes_before_nul, chars_of, string_from_chars, utf8_text};
use vstd::utf8::encode_utf8;
use unicode_normalization::UnicodeNormalization;

verus! {

/// An RGBA colour of 32-bit floats, held as their bit patterns.
#[derive(Debug, Clone, Copy, PartialEq, Eq, Structural)]
pub struct ColorF {
    pub r: u32,
    pub g: u32,
    pub b: u32,
    pub a: u32,
}

/// A 4-component vector of 32-bit floats, held as their bit patterns.
#[derive(Debug, Clone, Copy, PartialEq, Eq, Structural)]
pub struct Vector {
    pub x: u32,
    pub y: u32,
    pub z: u32,
    pub w: u32,
}

/// The contents of an icon.sys file.
#[derive(Debug, Clone)]
pub struct IconSys {
    pub flags: u16,
    /// Byte offset in the Shift-JIS title where the second line begins.
    pub linebreak_pos: u16,
    pub background_transparency: u32,
    pub background_colors: [Color; 4],
    pub light_directions: [Vector; 3],
    pub light_colors: [ColorF; 3],
    pub ambient_color: ColorF,
    pub title: String,
    pub icon_file: String,
    pub icon_copy_file: String,
    pub icon_delete_file: String,
}

/// Bytes of an icon.sys file as written.
pub const ICON_SYS_SIZE: usize = 964;

/// Bytes a reader needs: everything up to the end of the icon file names.
pub const ICON_SYS_READ_SIZE: usize = 452;

/// Characters before the first NUL character.
pub open spec fn chars_before_nul(s: Seq<char>) -> Seq<char>
    decreases s.len(),
{
    if s.len() == 0 || s[0] == '\0' {
        Seq::empty()
    } else {
        seq![s[0]] + chars_before_nul(s.drop_first())
    }
}

/// A C string field decoded as UTF-8 (invalid sequences replaced).
pub open spec fn spec_cstring(b: Seq<u8>) -> Seq<char> {
    utf8_text(bytes_before_nul(b))
}

pub open spec fn color_u32_at(d: Seq<u8>, p: int) -> Color {
    Color {
        r: u32_at(d, p) as u8,
        g: u32_at(d, p + 4) as u8,
        b: u32_at(d, p + 8) as u8,
        a: u32_at(d, p + 12) as u8,
    }
}

pub open spec fn colorf_at(d: Seq<u8>, p: int) -> ColorF {
    ColorF { r: u32_at(d, p), g: u32_at(d, p + 4), b: u32_at(d, p + 8), a: u32_at(d, p + 12) }
}

pub open spec fn vector_at(d: Seq<u8>, p: int) -> Vector {
    Vector { x: u32_at(d, p), y: u32_at(d, p + 4), z: u32_at(d, p + 8), w: u32_at(d, p + 12) }
}

/// What `unicode_normalization`'s NFKC normalisation gives for a text.
pub uninterp spec fn nfkc(s: Seq<char>) -> Seq<char>;

/// The NFKC form of a text: ASCII text is already in that form, other text
/// gives what `nfkc` names.
pub open spec fn nfkc_text(s: Seq<char>) -> Seq<char> {
    if all_ascii(s) {
        s
    } else {
        nfkc(s)
    }
}

/// Calls `UnicodeNormalization::nfkc` and collects the result.  Its
/// decomposition passes 7-bit ASCII through and its quick check counts
/// ASCII as always normalised, so ASCII text comes back unchanged; for
/// other text only the name is stated.
#[verifier::external_body]
fn nfkc_call(s: &str) -> (r: String)
    ensures
        all_ascii(s@) ==> r@ == s@,
        !all_ascii(s@) ==> r@ == nfkc(s@),
{
    s.nfkc().collect::<String>()
}

/// The title stored in a 68-byte field: the bytes before the first zero
/// byte Shift-JIS decoded, NFKC normalised, cut at the first NUL.
pub open spec fn spec_sjis_title(b: Seq<u8>) -> Seq<char> {
    chars_before_nul(nfkc_text(shift_jis_decoded(bytes_before_nul(b)).0))
}

/// The icon.sys fields as read from bytes.
pub struct IconSysModel {
    pub flags: u16,
    pub linebreak_pos: u16,
    pub background_transparency: u32,
    pub background_colors: Seq<Color>,
    pub light_directions: Seq<Vector>,
    pub light_colors: Seq<ColorF>,
    pub ambient_color: ColorF,
    pub title: Seq<char>,
    pub icon_file: Seq<char>,
    pub icon_copy_file: Seq<char>,
    pub icon_delete_file: Seq<char>,
}

impl IconSys {
    /// A copy of this icon.sys.
    pub fn duplicate(&self) -> (r: IconSys)
        ensures
            r == *self,
    {
        IconSys {
            flags: self.flags,
            linebreak_pos: self.linebreak_pos,
            background_transparency: self.background_transparency,
            background_colors: self.background_colors,
            light_directions: self.light_directions,
            light_colors: self.light_colors,
            ambient_color: self.ambient_color,
            title: self.title.clone(),
            icon_file: self.icon_file.clone(),
            icon_copy_file: self.icon_copy_file.clone(),
            icon_delete_file: self.icon_delete_file.clone(),
        }
    }
}

impl IconSys {
    pub open spec fn view(&self) -> IconSysModel {
        IconSysModel {
            flags: self.flags,
            linebreak_pos: self.linebreak_pos,
            background_transparency: self.background_transparency,
            background_colors: self.background_colors@,
            light_directions: self.light_directions@,
            light_colors: self.light_colors@,
            ambient_color: self.ambient_color,
            title: self.title@,
            icon_file: self.icon_file@,
            icon_copy_file: self.icon_copy_file@,
            icon_delete_file: self.icon_delete_file@,
        }
    }
}

/// The fields an icon.sys file of at least `ICON_SYS_READ_SIZE` bytes
/// holds.  The magic number is not checked; the word at offset 12 is
/// ignored.
pub open spec fn spec_parse_icon_sys(d: Seq<u8>) -> IconSysModel {
    IconSysModel {
        flags: u16_at(d, 4),
        linebreak_pos: u16_at(d, 6),
        background_transparency: u32_at(d, 8),
        background_colors: Seq::new(4, |i: int| color_u32_at(d, 16 + 16 * i)),
        light_directions: Seq::new(3, |i: int| vector_at(d, 80 + 16 * i)),
        light_colors: Seq::new(3, |i: int| colorf_at(d, 128 + 16 * i)),
        ambient_color: colorf_at(d, 176),
        title: spec_sjis_title(d.subrange(192, 260)),
        icon_file: spec_cstring(d.subrange(260, 324)),
        icon_copy_file: spec_cstring(d.subrange(324, 388)),
        icon_delete_file: spec_cstring(d.subrange(388, 452)),
    }
}

fn read_color_u32(d: &[u8], p: usize) -> (c: Color)
    requires
        p + 16 <= d.len(),
    ensures
        c == color_u32_at(d@, p as int),
{
    Color {
        r: read_u32_le(d, p) as u8,
        g: read_u32_le(d, p + 4) as u8,
        b: read_u32_le(d, p + 8) as u8,
        a: read_u32_le(d, p + 12) as u8,
    }
}

fn read_colorf(d: &[u8], p: usize) -> (c: ColorF)
    requires
        p + 16 <= d.len(),
    ensures
        c == colorf_at(d@, p as int),
{
    ColorF {
        r: read_u32_le(d, p),
        g: read_u32_le(d, p + 4),
        b: read_u32_le(d, p + 8),
        a: read_u32_le(d, p + 12),
    }
}

fn read_vector(d: &[u8], p: usize) -> (v: Vector)
    requires
        p + 16 <= d.len(),
    ensures
        v == vector_at(d@, p as int),
{
    Vector {
        x: read_u32_le(d, p),
        y: read_u32_le(d, p + 4),
        z: read_u32_le(d, p + 8),
        w: read_u32_le(d, p + 12),
    }
}

fn cut_at_nul_chars(s: &[char]) -> (r: Vec<char>)
    ensures
        r@ == chars_before_nul(s@),
{
    let mut r: Vec<char> = Vec::new();
    let mut i: usize = 0;
    assert(s@.skip(0) =~= s@);
    assert(r@ + chars_before_nul(s@) =~= chars_before_nul(s@));
    while i < s.len() && s[i] != '\0'
        invariant
            i <= s@.len(),
            chars_before_nul(s@) == r@ + chars_before_nul(s@.skip(i as int)),
        decreases s.len() - i,
    {
        assert(s@.skip(i as int)[0] == s@[i as int]);
        assert(s@.skip(i as int).drop_first() == s@.skip(i + 1));
        r.push(s[i]);
        i = i + 1;
    }
    r
}

/// Decodes a NUL-terminated Shift-JIS title field.
fn parse_sjis_string(c: &[u8]) -> (s: String)
    ensures
        s@ == spec_sjis_title(c@),
{
    let title = crate::sjis::decode_sjis(c);
    let normalized = nfkc_call(title.as_str());
    let chars = chars_of(normalized.as_str());
    string_from_chars(cut_at_nul_chars(chars.as_slice()).as_slice())
}

/// Reads an icon.sys file; fails when it is shorter than
/// `ICON_SYS_READ_SIZE` bytes.
pub fn parse_icon_sys(bytes: &[u8]) -> (r: std::io::Result<IconSys>)
    ensures
        r is Ok <==> bytes@.len() >= 452,
        r matches Ok(s) ==> s.view() == spec_parse_icon_sys(bytes@),
{
    if bytes.len() < ICON_SYS_READ_SIZE {
        return Err(invalid_data("icon.sys data is too short"));
    }
    let d = bytes;
    let flags = read_u16_le(d, 4);
    let linebreak_pos = read_u16_le(d, 6);
    let background_transparency = read_u32_le(d, 8);
    let background_colors = [
        read_color_u32(d, 16),
        read_color_u32(d, 32),
        read_color_u32(d, 48),
        read_color_u32(d, 64),
    ];
    let light_directions = [read_vector(d, 80), read_vector(d, 96), read_vector(d, 112)];
    let light_colors = [read_colorf(d, 128), read_colorf(d, 144), read_colorf(d, 160)];
    let ambient_color = read_colorf(d, 176);
    let title_buf = slice_bytes(d, 192, 68);
    let icon_buf = slice_bytes(d, 260, 64);
    let copy_buf = slice_bytes(d, 324, 64);
    let delete_buf = slice_bytes(d, 388, 64);
    let s = IconSys {
        flags,
        linebreak_pos,
        background_transparency,
        background_colors,
        light_directions,
        light_colors,
        ambient_color,
        title: parse_sjis_string(title_buf.as_slice()),
        icon_file: crate::text::parse_cstring(icon_buf.as_slice()),
        icon_copy_file: crate::text::parse_cstring(copy_buf.as_slice()),
        icon_delete_file: crate::text::parse_cstring(delete_buf.as_slice()),
    };
    assert(s.view().background_colors =~= spec_parse_icon_sys(bytes@).background_colors);
    assert(s.view().light_directions =~= spec_parse_icon_sys(bytes@).light_directions);
    assert(s.view().light_colors =~= spec_parse_icon_sys(bytes@).light_colors);
    Ok(s)
}

impl IconSys {
    /// Reads an icon.sys file.
    pub fn new(bytes: Vec<u8>) -> (s: Self)
        requires
            bytes@.len() >= 452,
        ensures
            s.view() == spec_parse_icon_sys(bytes@),
    {
        let r = parse_icon_sys(bytes.as_slice());
        match r {
            Ok(s) => s,
            Err(_) => vstd::pervasive::unreached(),
        }
    }
}


pub open spec fn color_u32_bytes(c: Color) -> Seq<u8> {
    le32(c.r as u32) + le32(c.g as u32) + le32(c.b as u32) + le32(c.a as u32)
}

pub open spec fn colorf_bytes(c: ColorF) -> Seq<u8> {
    le32(c.r) + le32(c.g) + le32(c.b) + le32(c.a)
}

pub open spec fn vector_bytes(v: Vector) -> Seq<u8> {
    le32(v.x) + le32(v.y) + le32(v.z) + le32(v.w)
}

pub open spec fn colors_block(m: IconSysModel) -> Seq<u8> {
    color_u32_bytes(m.background_colors[0]) + color_u32_bytes(m.background_colors[1])
        + color_u32_bytes(m.background_colors[2]) + color_u32_bytes(m.background_colors[3])
}

pub open spec fn lights_block(m: IconSysModel) -> Seq<u8> {
    vector_bytes(m.light_directions[0]) + vector_bytes(m.light_directions[1]) + vector_bytes(
        m.light_directions[2],
    ) + colorf_bytes(m.light_colors[0]) + colorf_bytes(m.light_colors[1]) + colorf_bytes(
        m.light_colors[2],
    ) + colorf_bytes(m.ambient_color)
}

/// The first 192 bytes: magic `PS2D`, flags, line break, background
/// transparency, a zero word, the four background colours (one word per
/// channel), three light directions, three light colours and the ambient
/// colour.
pub open spec fn icon_sys_head(m: IconSysModel) -> Seq<u8> {
    seq![0x50u8, 0x53u8, 0x32u8, 0x44u8] + le16(m.flags) + le16(m.linebreak_pos) + le32(
        m.background_transparency,
    ) + le32(0) + colors_block(m) + lights_block(m)
}

/// The title field: the Shift-JIS title padded with zeros to 68 bytes;
/// `None` when the title has no Shift-JIS form or is longer.
pub open spec fn spec_title_field(title: Seq<char>) -> Option<Seq<u8>> {
    let (b, err) = shift_jis_encoded(title);
    if err || b.len() > 68 {
        None
    } else {
        Some(b + zeros((68 - b.len()) as nat))
    }
}

/// A file-name field: the UTF-8 name padded with zeros to 64 bytes; `None`
/// when longer.
pub open spec fn spec_name_field(name: Seq<char>) -> Option<Seq<u8>> {
    let b = encode_utf8(name);
    if b.len() > 64 {
        None
    } else {
        Some(b + zeros((64 - b.len()) as nat))
    }
}

/// The bytes of an icon.sys file: the head, the title, the three icon file
/// names and 512 zero bytes; `None` when a text field does not fit.
pub open spec fn spec_icon_sys_bytes(m: IconSysModel) -> Option<Seq<u8>> {
    match (
        spec_title_field(m.title),
        spec_name_field(m.icon_file),
        spec_name_field(m.icon_copy_file),
        spec_name_field(m.icon_delete_file),
    ) {
        (Some(t), Some(f1), Some(f2), Some(f3)) => Some(
            icon_sys_head(m) + t + f1 + f2 + f3 + zeros(512),
        ),
        _ => None,
    }
}

fn push_color_u32(out: &mut Vec<u8>, c: Color)
    ensures
        final(out)@ == old(out)@ + color_u32_bytes(c),
{
    push_u32_le(out, c.r as u32);
    push_u32_le(out, c.g as u32);
    push_u32_le(out, c.b as u32);
    push_u32_le(out, c.a as u32);
}

fn push_colorf(out: &mut Vec<u8>, c: ColorF)
    ensures
        final(out)@ == old(out)@ + colorf_bytes(c),
{
    push_u32_le(out, c.r);
    push_u32_le(out, c.g);
    push_u32_le(out, c.b);
    push_u32_le(out, c.a);
}

fn push_vector(out: &mut Vec<u8>, v: Vector)
    ensures
        final(out)@ == old(out)@ + vector_bytes(v),
{
    push_u32_le(out, v.x);
    push_u32_le(out, v.y);
    push_u32_le(out, v.z);
    push_u32_le(out, v.w);
}

fn name_field(name: &String) -> (r: Option<Vec<u8>>)
    ensures
        match (r, spec_name_field(name@)) {
            (Some(a), Some(b)) => a@ == b,
            (None, None) => true,
            _ => false,
        },
{
    let bytes = name.as_str().as_bytes();
    if bytes.len() > 64 {
        return None;
    }
    let mut out: Vec<u8> = Vec::new();
    push_all(&mut out, bytes);
    push_zeros(&mut out, 64 - bytes.len());
    Some(out)
}

impl IconSys {
    fn colors_bytes(&self) -> (out: Vec<u8>)
        ensures
            out@ == colors_block(self.view()),
    {
        let mut out: Vec<u8> = Vec::new();
        push_color_u32(&mut out, self.background_colors[0]);
        push_color_u32(&mut out, self.background_colors[1]);
        push_color_u32(&mut out, self.background_colors[2]);
        push_color_u32(&mut out, self.background_colors[3]);
        out
    }

    fn lights_bytes(&self) -> (out: Vec<u8>)
        ensures
            out@ == lights_block(self.view()),
    {
        let mut out: Vec<u8> = Vec::new();
        push_vector(&mut out, self.light_directions[0]);
        push_vector(&mut out, self.light_directions[1]);
        push_vector(&mut out, self.light_directions[2]);
        push_colorf(&mut out, self.light_colors[0]);
        push_colorf(&mut out, self.light_colors[1]);
        push_colorf(&mut out, self.light_colors[2]);
        push_colorf(&mut out, self.ambient_color);
        out
    }

    fn head_bytes(&self) -> (out: Vec<u8>)
        ensures
            out@ == icon_sys_head(self.view()),
    {
        let mut out: Vec<u8> = Vec::new();
        out.push(0x50u8);
        out.push(0x53u8);
        out.push(0x32u8);
        out.push(0x44u8);
        push_u16_le(&mut out, self.flags);
        push_u16_le(&mut out, self.linebreak_pos);
        push_u32_le(&mut out, self.background_transparency);
        push_u32_le(&mut out, 0);
        let colors = self.colors_bytes();
        push_all(&mut out, colors.as_slice());
        let lights = self.lights_bytes();
        push_all(&mut out, lights.as_slice());
        out
    }

    /// The file's bytes; fails when the title has no Shift-JIS form or
    /// exceeds 68 bytes, or a file name exceeds 64 bytes.
    pub fn to_bytes(&self) -> (r: std::io::Result<Vec<u8>>)
        ensures
            r is Ok <==> spec_icon_sys_bytes(self.view()) is Some,
            r matches Ok(b) ==> b@ == spec_icon_sys_bytes(self.view()).unwrap(),
    {
        let title = match encode_sjis(self.title.as_str()) {
            Ok(t) => t,
            Err(_) => {
                return Err(invalid_data("icon.sys title cannot be encoded as Shift-JIS"));
            },
        };
        if title.len() > 68 {
            return Err(invalid_data("icon.sys title is too long"));
        }
        let f1 = match name_field(&self.icon_file) {
            Some(f) => f,
            None => {
                return Err(invalid_data("icon.sys file name is too long"));
            },
        };
        let f2 = match name_field(&self.icon_copy_file) {
            Some(f) => f,
            None => {
                return Err(invalid_data("icon.sys file name is too long"));
            },
        };
        let f3 = match name_field(&self.icon_delete_file) {
            Some(f) => f,
            None => {
                return Err(invalid_data("icon.sys file name is too long"));
            },
        };
        let mut out = self.head_bytes();
        push_all(&mut out, title.as_slice());
        push_zeros(&mut out, 68 - title.len());
        push_all(&mut out, f1.as_slice());
        push_all(&mut out, f2.as_slice());
        push_all(&mut out, f3.as_slice());
        push_zeros(&mut out, 512);
        Ok(out)
    }
}


/// Whether a text is ASCII without NUL characters.
pub open spec fn plain_ascii(s: Seq<char>) -> bool {
    all_ascii(s) && !s.contains('\0')
}

proof fn lemma_quad_of(s: Seq<u8>, p: int, a: u32, b: u32, c: u32, d: u32)
    requires
        0 <= p,
        p + 16 <= s.len(),
        s.subrange(p, p + 16) == le32(a) + le32(b) + le32(c) + le32(d),
    ensures
        u32_at(s, p) == a,
        u32_at(s, p + 4) == b,
        u32_at(s, p + 8) == c,
        u32_at(s, p + 12) == d,
{
    let w = le32(a) + le32(b) + le32(c) + le32(d);
    assert(s.subrange(p, p + 4) =~= w.subrange(0, 4));
    assert(w.subrange(0, 4) =~= le32(a));
    assert(s.subrange(p + 4, p + 8) =~= w.subrange(4, 8));
    assert(w.subrange(4, 8) =~= le32(b));
    assert(s.subrange(p + 8, p + 12) =~= w.subrange(8, 12));
    assert(w.subrange(8, 12) =~= le32(c));
    assert(s.subrange(p + 12, p + 16) =~= w.subrange(12, 16));
    assert(w.subrange(12, 16) =~= le32(d));
    lemma_u32_of(s, p, a);
    lemma_u32_of(s, p + 4, b);
    lemma_u32_of(s, p + 8, c);
    lemma_u32_of(s, p + 12, d);
}

proof fn lemma_byte_widen(x: u8)
    ensures
        ((x as u32) as u8) == x,
{
    assert(((x as u32) as u8) == x) by (bit_vector);
}

proof fn lemma_colors_block_parts(m: IconSysModel, i: int)
    requires
        m.background_colors.len() == 4,
        0 <= i < 4,
    ensures
        colors_block(m).subrange(16 * i, 16 * i + 16) == color_u32_bytes(m.background_colors[i]),
{
    let c0 = color_u32_bytes(m.background_colors[0]);
    let c1 = color_u32_bytes(m.background_colors[1]);
    let c2 = color_u32_bytes(m.background_colors[2]);
    let c3 = color_u32_bytes(m.background_colors[3]);
    let cb = colors_block(m);
    if i == 0 {
        assert(cb.subrange(0, 16) =~= c0);
    } else if i == 1 {
        assert(cb.subrange(16, 32) =~= c1);
    } else if i == 2 {
        assert(cb.subrange(32, 48) =~= c2);
    } else {
        assert(cb.subrange(48, 64) =~= c3);
    }
}

proof fn lemma_lights_block_parts(m: IconSysModel)
    requires
        m.light_directions.len() == 3,
        m.light_colors.len() == 3,
    ensures
        lights_block(m).subrange(0, 16) == vector_bytes(m.light_directions[0]),
        lights_block(m).subrange(16, 32) == vector_bytes(m.light_directions[1]),
        lights_block(m).subrange(32, 48) == vector_bytes(m.light_directions[2]),
        lights_block(m).subrange(48, 64) == colorf_bytes(m.light_colors[0]),
        lights_block(m).subrange(64, 80) == colorf_bytes(m.light_colors[1]),
        lights_block(m).subrange(80, 96) == colorf_bytes(m.light_colors[2]),
        lights_block(m).subrange(96, 112) == colorf_bytes(m.ambient_color),
{
    let lb = lights_block(m);
    let v0 = vector_bytes(m.light_directions[0]);
    let v1 = vector_bytes(m.light_directions[1]);
    let v2 = vector_bytes(m.light_directions[2]);
    let l0 = colorf_bytes(m.light_colors[0]);
    let l1 = colorf_bytes(m.light_colors[1]);
    let l2 = colorf_bytes(m.light_colors[2]);
    let am = colorf_bytes(m.ambient_color);
    assert(lb.subrange(0, 16) =~= v0);
    assert(lb.subrange(16, 32) =~= v1);
    assert(lb.subrange(32, 48) =~= v2);
    assert(lb.subrange(48, 64) =~= l0);
    assert(lb.subrange(64, 80) =~= l1);
    assert(lb.subrange(80, 96) =~= l2);
    assert(lb.subrange(96, 112) =~= am);
}

proof fn lemma_head_layout(m: IconSysModel)
    ensures
        icon_sys_head(m).len() == 192 || !(m.background_colors.len() == 4
            && m.light_directions.len() == 3 && m.light_colors.len() == 3),
        icon_sys_head(m).subrange(4, 6) == le16(m.flags),
        icon_sys_head(m).subrange(6, 8) == le16(m.linebreak_pos),
        icon_sys_head(m).subrange(8, 12) == le32(m.background_transparency),
        icon_sys_head(m).skip(16).take(64) == colors_block(m),
        m.background_colors.len() == 4 ==> icon_sys_head(m).skip(80) == lights_block(m),
{
    let h = icon_sys_head(m);
    let magic = seq![0x50u8, 0x53u8, 0x32u8, 0x44u8];
    let front = magic + le16(m.flags) + le16(m.linebreak_pos) + le32(m.background_transparency)
        + le32(0);
    assert(h == front + colors_block(m) + lights_block(m));
    assert(h.subrange(4, 6) =~= le16(m.flags));
    assert(h.subrange(6, 8) =~= le16(m.linebreak_pos));
    assert(h.subrange(8, 12) =~= le32(m.background_transparency));
    if m.background_colors.len() == 4 {
        assert(colors_block(m).len() == 64);
        assert(h.skip(16).take(64) =~= colors_block(m));
        assert(h.skip(80) =~= lights_block(m));
    } else {
        assert(h.skip(16).take(64) =~= colors_block(m)) by {
            assert(colors_block(m).len() == 64);
        }
    }
}

#[verifier::rlimit(30)]
proof fn lemma_head_reads(m: IconSysModel, d: Seq<u8>)
    requires
        m.background_colors.len() == 4,
        m.light_directions.len() == 3,
        m.light_colors.len() == 3,
        d.len() >= 192,
        d.take(192) == icon_sys_head(m),
    ensures
        u16_at(d, 4) == m.flags,
        u16_at(d, 6) == m.linebreak_pos,
        u32_at(d, 8) == m.background_transparency,
        forall|i: int| 0 <= i < 4 ==> color_u32_at(d, 16 + 16 * i) == #[trigger] m.background_colors[i],
        forall|i: int| 0 <= i < 3 ==> vector_at(d, 80 + 16 * i) == #[trigger] m.light_directions[i],
        forall|i: int| 0 <= i < 3 ==> colorf_at(d, 128 + 16 * i) == #[trigger] m.light_colors[i],
        colorf_at(d, 176) == m.ambient_color,
{
    let h = icon_sys_head(m);
    lemma_head_layout(m);
    assert(d.subrange(4, 6) =~= h.subrange(4, 6));
    assert(d.subrange(6, 8) =~= h.subrange(6, 8));
    assert(d.subrange(8, 12) =~= h.subrange(8, 12));
    lemma_u16_of(d, 4, m.flags);
    lemma_u16_of(d, 6, m.linebreak_pos);
    lemma_u32_of(d, 8, m.background_transparency);
    let cb = colors_block(m);
    assert forall|i: int| 0 <= i < 4 implies color_u32_at(d, 16 + 16 * i)
        == #[trigger] m.background_colors[i] by {
        let c = m.background_colors[i];
        lemma_colors_block_parts(m, i);
        assert(d.subrange(16 + 16 * i, 32 + 16 * i) =~= cb.subrange(16 * i, 16 * i + 16));
        lemma_quad_of(d, 16 + 16 * i, c.r as u32, c.g as u32, c.b as u32, c.a as u32);
        lemma_byte_widen(c.r);
        lemma_byte_widen(c.g);
        lemma_byte_widen(c.b);
        lemma_byte_widen(c.a);
    }
    let lb = lights_block(m);
    lemma_lights_block_parts(m);
    assert forall|i: int| 0 <= i < 3 implies vector_at(d, 80 + 16 * i)
        == #[trigger] m.light_directions[i] by {
        let v = m.light_directions[i];
        assert(d.subrange(80 + 16 * i, 96 + 16 * i) =~= lb.subrange(16 * i, 16 * i + 16));
        lemma_quad_of(d, 80 + 16 * i, v.x, v.y, v.z, v.w);
    }
    assert forall|i: int| 0 <= i < 3 implies colorf_at(d, 128 + 16 * i)
        == #[trigger] m.light_colors[i] by {
        let c = m.light_colors[i];
        assert(d.subrange(128 + 16 * i, 144 + 16 * i) =~= lb.subrange(48 + 16 * i, 64 + 16 * i));
        lemma_quad_of(d, 128 + 16 * i, c.r, c.g, c.b, c.a);
    }
    let a = m.ambient_color;
    assert(d.subrange(176, 192) =~= lb.subrange(96, 112));
    lemma_quad_of(d, 176, a.r, a.g, a.b, a.a);
}

proof fn lemma_ascii_byte(c: char)
    requires
        c < '\u{80}',
    ensures
        (c as u8) < 0x80,
        ((c as u8) as char) == c,
        c != '\0' ==> (c as u8) != 0,
{
    let v = c as u32;
    assert((v as u8) as u32 == v) by (bit_vector)
        requires
            v < 0x80,
    ;
    assert(c as u8 == v as u8);
}

proof fn lemma_chars_before_nul_padded(s: Seq<char>, z: Seq<char>)
    requires
        !s.contains('\0'),
        forall|i: int| 0 <= i < z.len() ==> z[i] == '\0',
    ensures
        chars_before_nul(s + z) == s,
    decreases s.len(),
{
    if s.len() == 0 {
        assert(s + z =~= z);
    } else {
        assert(s[0] != '\0');
        assert((s + z)[0] == s[0]);
        assert((s + z).drop_first() =~= s.drop_first() + z);
        assert(!s.drop_first().contains('\0')) by {
            if s.drop_first().contains('\0') {
                let j = choose|j: int| 0 <= j < s.drop_first().len() && s.drop_first()[j] == '\0';
                assert(s[j + 1] == '\0');
            }
        }
        lemma_chars_before_nul_padded(s.drop_first(), z);
        assert(seq![s[0]] + s.drop_first() =~= s);
    }
}

proof fn lemma_bytes_before_nul_padded(b: Seq<u8>, z: Seq<u8>)
    requires
        forall|i: int| 0 <= i < b.len() ==> b[i] != 0,
        forall|i: int| 0 <= i < z.len() ==> z[i] == 0,
    ensures
        bytes_before_nul(b + z) == b,
    decreases b.len(),
{
    if b.len() == 0 {
        assert(b + z =~= z);
    } else {
        assert((b + z)[0] == b[0]);
        assert((b + z).drop_first() =~= b.drop_first() + z);
        lemma_bytes_before_nul_padded(b.drop_first(), z);
        assert(seq![b[0]] + b.drop_first() =~= b);
    }
}

/// Whether a title comes back unchanged from its field: it has a Shift-JIS
/// form of at most 68 bytes without a zero byte, that form decodes back to
/// it without error, NFKC leaves it as it is, and it holds no NUL.
pub open spec fn title_survives(title: Seq<char>) -> bool {
    let (b, err) = shift_jis_encoded(title);
    &&& !err
    &&& b.len() <= 68
    &&& forall|i: int| 0 <= i < b.len() ==> b[i] != 0
    &&& shift_jis_decoded(b) == (title, false)
    &&& nfkc_text(title) == title
    &&& !title.contains('\0')
}

proof fn lemma_title_reads(title: Seq<char>)
    requires
        title_survives(title),
    ensures
        spec_title_field(title) is Some,
        spec_sjis_title(spec_title_field(title).unwrap()) == title,
{
    let b = shift_jis_encoded(title).0;
    let z = zeros((68 - b.len()) as nat);
    assert(spec_title_field(title) == Some(b + z));
    lemma_bytes_before_nul_padded(b, z);
    lemma_chars_before_nul_padded(title, Seq::<char>::empty());
    assert(title + Seq::<char>::empty() =~= title);
}

/// An ASCII title without NUL characters that fits the field survives it.
pub proof fn lemma_ascii_title_survives(title: Seq<char>)
    requires
        plain_ascii(title),
        title.len() <= 68,
    ensures
        title_survives(title),
{
    let tb = title.map_values(|c: char| c as u8);
    assert forall|i: int| 0 <= i < tb.len() implies (#[trigger] tb[i]) < 0x80 && tb[i] != 0 by {
        lemma_ascii_byte(title[i]);
        assert(title[i] != '\0');
    }
    let decoded = tb.map_values(|x: u8| x as char);
    assert forall|i: int| 0 <= i < tb.len() implies (#[trigger] decoded[i]) == title[i] by {
        lemma_ascii_byte(title[i]);
    }
    assert(decoded =~= title);
}

proof fn lemma_name_reads(name: Seq<char>)
    requires
        plain_ascii(name),
        name.len() <= 64,
    ensures
        spec_name_field(name) is Some,
        spec_cstring(spec_name_field(name).unwrap()) == name,
{
    assert(vstd::utf8::is_ascii_chars(name)) by {
        assert forall|i: int| 0 <= i < name.len() implies '\0' <= #[trigger] name[i] <= '\u{7f}' by {
            let c = name[i];
            assert(c < '\u{80}');
            lemma_ascii_byte(c);
            assert('\0' <= c);
            assert(c <= '\u{7f}');
        }
    }
    vstd::utf8::is_ascii_chars_encode_utf8(name);
    let enc = encode_utf8(name);
    let z = zeros((64 - enc.len()) as nat);
    assert(spec_name_field(name) == Some(enc + z));
    assert forall|i: int| 0 <= i < enc.len() implies enc[i] != 0 by {
        lemma_ascii_byte(name[i]);
        assert(name[i] != '\0');
    }
    lemma_bytes_before_nul_padded(enc, z);
    vstd::utf8::encode_utf8_valid_utf8(name);
    vstd::utf8::encode_utf8_decode_utf8(name);
}

/// Writing an icon.sys and reading it back gives the same fields, for
/// every shape-correct set of fields whose title survives its Shift-JIS
/// field (see `title_survives`; every ASCII title without NUL that fits
/// does) and whose file names are ASCII without NUL characters and fit
/// their fields.
#[verifier::rlimit(50)]
pub proof fn lemma_icon_sys_roundtrip(m: IconSysModel)
    requires
        m.background_colors.len() == 4,
        m.light_directions.len() == 3,
        m.light_colors.len() == 3,
        title_survives(m.title),
        plain_ascii(m.icon_file),
        m.icon_file.len() <= 64,
        plain_ascii(m.icon_copy_file),
        m.icon_copy_file.len() <= 64,
        plain_ascii(m.icon_delete_file),
        m.icon_delete_file.len() <= 64,
    ensures
        spec_icon_sys_bytes(m) is Some,
        spec_icon_sys_bytes(m).unwrap().len() >= ICON_SYS_READ_SIZE,
        spec_parse_icon_sys(spec_icon_sys_bytes(m).unwrap()) == m,
{
    lemma_title_reads(m.title);
    lemma_name_reads(m.icon_file);
    lemma_name_reads(m.icon_copy_file);
    lemma_name_reads(m.icon_delete_file);
    lemma_head_layout(m);
    let h = icon_sys_head(m);
    let t = spec_title_field(m.title).unwrap();
    let f1 = spec_name_field(m.icon_file).unwrap();
    let f2 = spec_name_field(m.icon_copy_file).unwrap();
    let f3 = spec_name_field(m.icon_delete_file).unwrap();
    let d1 = h + t;
    let d2 = d1 + f1;
    let d3 = d2 + f2;
    let d4 = d3 + f3;
    let d = d4 + zeros(512);
    assert(spec_icon_sys_bytes(m) == Some(d));
    assert(h.len() == 192 && t.len() == 68 && f1.len() == 64 && f2.len() == 64 && f3.len() == 64);
    lemma_concat_right(d3, f3);
    lemma_concat_left(d4, zeros(512), 388, 452);
    lemma_concat_right(d2, f2);
    lemma_concat_left(d3, f3, 324, 388);
    lemma_concat_left(d4, zeros(512), 324, 388);
    lemma_concat_right(d1, f1);
    lemma_concat_left(d2, f2, 260, 324);
    lemma_concat_left(d3, f3, 260, 324);
    lemma_concat_left(d4, zeros(512), 260, 324);
    lemma_concat_right(h, t);
    lemma_concat_left(d1, f1, 192, 260);
    lemma_concat_left(d2, f2, 192, 260);
    lemma_concat_left(d3, f3, 192, 260);
    lemma_concat_left(d4, zeros(512), 192, 260);
    lemma_concat_left(h, t, 0, 192);
    lemma_concat_left(d1, f1, 0, 192);
    lemma_concat_left(d2, f2, 0, 192);
    lemma_concat_left(d3, f3, 0, 192);
    lemma_concat_left(d4, zeros(512), 0, 192);
    assert(h.subrange(0, 192) =~= h);
    assert(d.take(192) =~= d.subrange(0, 192));
    lemma_head_reads(m, d);
    let p = spec_parse_icon_sys(d);
    assert(p.background_colors =~= m.background_colors);
    assert(p.light_directions =~= m.light_directions);
    assert(p.light_colors =~= m.light_colors);
}

} // verus!
