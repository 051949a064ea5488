//! The ICN 3D icon format: a header, per-vertex positions for every
//! animation shape with normals, texture coordinates and colours, animation
//! frames, and a 128x128 texture of 16-bit texels (raw or run-length coded).
//!
//! Floating-point fields (key times and values, the animation speed) are
//! carried as the 32-bit patterns the file stores.
use vstd::prelude::*;
use crate::bytes::{
    u16_at, u32_at, le16, le32, read_u16_le, read_u32_le, push_u16_le, push_u32_le, lemma_u16_of,
    lemma_u32_of, lemma_concat_left, lemma_concat_right,
};
use crate::bin::{BinReader, BinWriter};
use crate::io_error::invalid_data;
use crate::color::Color;
use vstd::math::min;
use image::ImageEncoder;

verus! {

/// Magic number at the start of every ICN file.
pub const ICN_MAGIC: u32 = 0x010000;

/// Texels per texture row.
pub const TEXTURE_WIDTH: usize = 128;

/// Texture rows.
pub const TEXTURE_HEIGHT: usize = 128;

/// Texels in a texture.
pub const TEXTURE_SIZE: usize = 16384;

#[derive(Debug, Clone, Copy, PartialEq, Eq, Structural)]
pub struct Vertex {
    pub x: i16,
    pub y: i16,
    pub z: i16,
    pub w: u16,
}

impl Vertex {
    pub fn new(x: i16, y: i16, z: i16, w: u16) -> (v: Self)
        ensures
            v == (Vertex { x, y, z, w }),
    {
        Vertex { x, y, z, w }
    }
}

#[derive(Debug, Clone, Copy, PartialEq, Eq, Structural)]
pub struct Normal {
    pub x: i16,
    pub y: i16,
    pub z: i16,
    pub w: u16,
}

impl Normal {
    pub fn new(x: i16, y: i16, z: i16, w: u16) -> (n: Self)
        ensures
            n == (Normal { x, y, z, w }),
    {
        Normal { x, y, z, w }
    }
}

#[derive(Debug, Clone, Copy, PartialEq, Eq, Structural)]
pub struct UV {
    pub u: i16,
    pub v: i16,
}

impl UV {
    pub fn new(u: i16, v: i16) -> (uv: Self)
        ensures
            uv == (UV { u, v }),
    {
        UV { u, v }
    }
}

/// The texture: `TEXTURE_SIZE` texels, row by row.
#[derive(Debug)]
pub struct IcnTexture {
    pub pixels: Vec<u16>,
}

/// One animation key; `time` and `value` hold the bit patterns of 32-bit
/// floats.
#[derive(Debug, Clone, Copy, PartialEq, Eq, Structural)]
pub struct Key {
    pub time: u32,
    pub value: u32,
}

#[derive(Debug)]
pub struct Frame {
    pub shape_id: u32,
    pub keys: Vec<Key>,
}

/// The animation header; `anim_speed` holds the bit pattern of a 32-bit
/// float.
#[derive(Debug, Clone, Copy, PartialEq, Eq, Structural)]
pub struct AnimationHeader {
    pub tag: u32,
    pub frame_length: u32,
    pub anim_speed: u32,
    pub play_offset: u32,
    pub frame_count: u32,
}

#[derive(Debug, Clone, Copy, PartialEq, Eq, Structural)]
pub struct ICNHeader {
    pub animation_shape_count: u32,
    pub vertex_count: u32,
    pub texture_type: u32,
}

#[derive(Debug)]
pub struct ICN {
    pub header: ICNHeader,
    /// `animation_shapes[j][i]` is vertex `i` in shape `j`.
    pub animation_shapes: Vec<Vec<Vertex>>,
    pub normals: Vec<Normal>,
    pub uvs: Vec<UV>,
    pub colors: Vec<Color>,
    pub texture: IcnTexture,
    pub animation_header: AnimationHeader,
    pub frames: Vec<Frame>,
}

/// A frame as a mathematical value.
pub struct FrameModel {
    pub shape_id: u32,
    pub keys: Seq<Key>,
}

/// An icon as a mathematical value.
pub struct IcnModel {
    pub header: ICNHeader,
    pub animation_shapes: Seq<Seq<Vertex>>,
    pub normals: Seq<Normal>,
    pub uvs: Seq<UV>,
    pub colors: Seq<Color>,
    pub texture: Seq<u16>,
    pub animation_header: AnimationHeader,
    pub frames: Seq<FrameModel>,
}

impl Frame {
    pub open spec fn view(&self) -> FrameModel {
        FrameModel { shape_id: self.shape_id, keys: self.keys@ }
    }
}

impl ICN {
    pub open spec fn view(&self) -> IcnModel {
        IcnModel {
            header: self.header,
            animation_shapes: self.animation_shapes@.map_values(|s: Vec<Vertex>| s@),
            normals: self.normals@,
            uvs: self.uvs@,
            colors: self.colors@,
            texture: self.texture.pixels@,
            animation_header: self.animation_header,
            frames: self.frames@.map_values(|f: Frame| f.view()),
        }
    }
}

// ---------------------------------------------------------------------------
// Reading
// ---------------------------------------------------------------------------

pub open spec fn i16_at(d: Seq<u8>, i: int) -> i16 {
    u16_at(d, i) as i16
}

pub open spec fn vertex_at(d: Seq<u8>, p: int) -> Vertex {
    Vertex { x: i16_at(d, p), y: i16_at(d, p + 2), z: i16_at(d, p + 4), w: u16_at(d, p + 6) }
}

pub open spec fn normal_at(d: Seq<u8>, p: int) -> Normal {
    Normal { x: i16_at(d, p), y: i16_at(d, p + 2), z: i16_at(d, p + 4), w: u16_at(d, p + 6) }
}

pub open spec fn uv_at(d: Seq<u8>, p: int) -> UV {
    UV { u: i16_at(d, p), v: i16_at(d, p + 2) }
}

/// Vertex colours are stored red, blue, green, alpha.
pub open spec fn color_at(d: Seq<u8>, p: int) -> Color {
    Color { r: d[p], b: d[p + 1], g: d[p + 2], a: d[p + 3] }
}

/// Bytes of the record of one vertex: its position in every shape, then
/// normal, texture coordinate and colour.
pub open spec fn vertex_stride(shape_count: u32) -> int {
    8 * shape_count + 16
}

/// Where the animation section begins.
pub open spec fn animation_start(h: ICNHeader) -> int {
    20 + h.vertex_count * vertex_stride(h.animation_shape_count)
}

pub open spec fn spec_header(d: Seq<u8>) -> ICNHeader {
    ICNHeader {
        animation_shape_count: u32_at(d, 4),
        vertex_count: u32_at(d, 16),
        texture_type: u32_at(d, 8),
    }
}

pub open spec fn spec_shapes(d: Seq<u8>, h: ICNHeader) -> Seq<Seq<Vertex>> {
    Seq::new(
        h.animation_shape_count as nat,
        |j: int|
            Seq::new(
                h.vertex_count as nat,
                |i: int| vertex_at(d, 20 + i * vertex_stride(h.animation_shape_count) + 8 * j),
            ),
    )
}

pub open spec fn vertex_record(h: ICNHeader, i: int) -> int {
    20 + i * vertex_stride(h.animation_shape_count) + 8 * h.animation_shape_count
}

pub open spec fn spec_normals(d: Seq<u8>, h: ICNHeader) -> Seq<Normal> {
    Seq::new(h.vertex_count as nat, |i: int| normal_at(d, vertex_record(h, i)))
}

pub open spec fn spec_uvs(d: Seq<u8>, h: ICNHeader) -> Seq<UV> {
    Seq::new(h.vertex_count as nat, |i: int| uv_at(d, vertex_record(h, i) + 8))
}

pub open spec fn spec_colors(d: Seq<u8>, h: ICNHeader) -> Seq<Color> {
    Seq::new(h.vertex_count as nat, |i: int| color_at(d, vertex_record(h, i) + 12))
}

pub open spec fn spec_anim_header(d: Seq<u8>, p: int) -> AnimationHeader {
    AnimationHeader {
        tag: u32_at(d, p),
        frame_length: u32_at(d, p + 4),
        anim_speed: u32_at(d, p + 8),
        play_offset: u32_at(d, p + 12),
        frame_count: u32_at(d, p + 16),
    }
}

pub open spec fn spec_keys(d: Seq<u8>, p: int, count: nat) -> Seq<Key> {
    Seq::new(count, |k: int| Key { time: u32_at(d, p + 8 * k), value: u32_at(d, p + 8 * k + 4) })
}

/// The frames stored from `p` on, and where they end; `None` when the data
/// runs out first.
pub open spec fn spec_frames(d: Seq<u8>, p: int, count: nat) -> Option<(Seq<FrameModel>, int)>
    decreases count,
{
    if count == 0 {
        Some((Seq::empty(), p))
    } else if p + 8 > d.len() {
        None
    } else {
        let kc = u32_at(d, p + 4);
        let end = p + 8 + 8 * kc;
        if end > d.len() {
            None
        } else {
            match spec_frames(d, end, (count - 1) as nat) {
                Some((rest, q)) => Some((
                    seq![FrameModel { shape_id: u32_at(d, p), keys: spec_keys(d, p + 8, kc as nat) }]
                        + rest,
                    q,
                )),
                None => None,
            }
        }
    }
}

/// Run-length decoding, from word `offset` on, of texels appended to
/// `pixels`.  A code with the top bit set introduces `0x10000 - code`
/// literal texels; any other non-zero code repeats the next word `code`
/// times.  Decoding stops adding texels once there are `TEXTURE_SIZE`.
pub open spec fn rle_decode(c: Seq<u16>, offset: int, pixels: Seq<u16>) -> Seq<u16>
    decreases c.len() - offset,
{
    if offset >= c.len() || offset < 0 {
        pixels
    } else {
        let code = c[offset];
        let o1 = offset + 1;
        let room = if pixels.len() >= 16384 { 0int } else { 16384 - pixels.len() };
        if code >= 0x8000 {
            let k = min(min(0x10000 - code, c.len() - o1), room);
            rle_decode(c, o1 + k, pixels + c.subrange(o1, o1 + k))
        } else if code > 0 && o1 < c.len() {
            let k = min(code as int, room);
            rle_decode(c, o1 + 1, pixels + Seq::new(k as nat, |i: int| c[o1]))
        } else {
            rle_decode(c, o1, pixels)
        }
    }
}

/// `s` cut or zero-extended to `TEXTURE_SIZE` texels.
pub open spec fn fill_texture(s: Seq<u16>) -> Seq<u16> {
    Seq::new(16384, |i: int| if i < s.len() { s[i] } else { 0u16 })
}

pub open spec fn spec_words(d: Seq<u8>, p: int, n: nat) -> Seq<u16> {
    Seq::new(n, |k: int| u16_at(d, p + 2 * k))
}

/// The texture stored at `p` for the given texture type; `None` when the
/// data runs out.
pub open spec fn spec_texture(d: Seq<u8>, p: int, texture_type: u32) -> Option<Seq<u16>> {
    if texture_type & 4 != 0 {
        if texture_type & 8 != 0 {
            if p + 4 > d.len() {
                None
            } else {
                let n = (u32_at(d, p) / 2) as nat;
                if p + 4 + 2 * n > d.len() {
                    None
                } else {
                    Some(fill_texture(rle_decode(spec_words(d, p + 4, n), 0, Seq::empty())))
                }
            }
        } else if p + 32768 > d.len() {
            None
        } else {
            Some(spec_words(d, p, 16384))
        }
    } else {
        Some(Seq::new(16384, |i: int| 0xFFFFu16))
    }
}

/// The icon `d` holds, or `None` where reading it fails: the data runs out,
/// the magic number is wrong, or the animation tag is not 1.
pub open spec fn spec_parse_icn(d: Seq<u8>) -> Option<IcnModel> {
    if d.len() < 20 || u32_at(d, 0) != ICN_MAGIC {
        None
    } else {
        let h = spec_header(d);
        let a = animation_start(h);
        if a + 20 > d.len() || u32_at(d, a) != 1 {
            None
        } else {
            let ah = spec_anim_header(d, a);
            match spec_frames(d, a + 20, ah.frame_count as nat) {
                None => None,
                Some((frames, t)) => match spec_texture(d, t, h.texture_type) {
                    None => None,
                    Some(texture) => Some(
                        IcnModel {
                            header: h,
                            animation_shapes: spec_shapes(d, h),
                            normals: spec_normals(d, h),
                            uvs: spec_uvs(d, h),
                            colors: spec_colors(d, h),
                            texture,
                            animation_header: ah,
                            frames,
                        },
                    ),
                },
            }
        }
    }
}


// ---------------------------------------------------------------------------
// Reading, executable
// ---------------------------------------------------------------------------

fn read_i16_le(d: &[u8], p: usize) -> (v: i16)
    requires
        p + 2 <= d.len(),
    ensures
        v == i16_at(d@, p as int),
{
    read_u16_le(d, p) as i16
}

fn read_vertex(d: &[u8], p: usize) -> (v: Vertex)
    requires
        p + 8 <= d.len(),
    ensures
        v == vertex_at(d@, p as int),
{
    Vertex {
        x: read_i16_le(d, p),
        y: read_i16_le(d, p + 2),
        z: read_i16_le(d, p + 4),
        w: read_u16_le(d, p + 6),
    }
}

fn read_normal(d: &[u8], p: usize) -> (n: Normal)
    requires
        p + 8 <= d.len(),
    ensures
        n == normal_at(d@, p as int),
{
    Normal {
        x: read_i16_le(d, p),
        y: read_i16_le(d, p + 2),
        z: read_i16_le(d, p + 4),
        w: read_u16_le(d, p + 6),
    }
}

fn read_uv(d: &[u8], p: usize) -> (uv: UV)
    requires
        p + 4 <= d.len(),
    ensures
        uv == uv_at(d@, p as int),
{
    UV { u: read_i16_le(d, p), v: read_i16_le(d, p + 2) }
}

fn read_color(d: &[u8], p: usize) -> (c: Color)
    requires
        p + 4 <= d.len(),
    ensures
        c == color_at(d@, p as int),
{
    let r = d[p];
    let b = d[p + 1];
    let g = d[p + 2];
    let a = d[p + 3];
    Color { r, g, b, a }
}

proof fn lemma_record_bounds(i: int, j: int, sc: int, vc: int)
    requires
        0 <= i < vc,
        0 <= j <= sc,
        0 <= sc,
    ensures
        j < sc ==> 20 + i * (8 * sc + 16) + 8 * j + 8 <= 20 + vc * (8 * sc + 16),
        20 + i * (8 * sc + 16) + 8 * sc + 16 <= 20 + vc * (8 * sc + 16),
        0 <= i * (8 * sc + 16),
{
    assert(i * (8 * sc + 16) + (8 * sc + 16) <= vc * (8 * sc + 16)) by (nonlinear_arith)
        requires
            0 <= i < vc,
            0 <= sc,
    ;
    assert(0 <= i * (8 * sc + 16)) by (nonlinear_arith)
        requires
            0 <= i,
            0 <= sc,
    ;
}

fn read_shapes(d: &[u8], h: ICNHeader) -> (shapes: Vec<Vec<Vertex>>)
    requires
        animation_start(h) <= d@.len(),
    ensures
        shapes@.map_values(|s: Vec<Vertex>| s@) == spec_shapes(d@, h),
{
    let sc = h.animation_shape_count as usize;
    let vc = h.vertex_count as usize;
    let stride: u64 = 8 * (sc as u64) + 16;
    let mut shapes: Vec<Vec<Vertex>> = Vec::new();
    let mut j: usize = 0;
    while j < sc
        invariant
            sc == h.animation_shape_count,
            vc == h.vertex_count,
            stride == vertex_stride(h.animation_shape_count),
            animation_start(h) <= d@.len(),
            j <= sc,
            shapes@.len() == j,
            forall|jj: int|
                0 <= jj < j ==> (#[trigger] shapes@[jj])@ == spec_shapes(d@, h)[jj],
        decreases sc - j,
    {
        let mut shape: Vec<Vertex> = Vec::new();
        let mut i: usize = 0;
        while i < vc
            invariant
                sc == h.animation_shape_count,
                vc == h.vertex_count,
                stride == vertex_stride(h.animation_shape_count),
                animation_start(h) <= d@.len(),
                j < sc,
                i <= vc,
                shape@.len() == i,
                forall|ii: int|
                    0 <= ii < i ==> shape@[ii] == vertex_at(
                        d@,
                        20 + ii * vertex_stride(h.animation_shape_count) + 8 * j,
                    ),
            decreases vc - i,
        {
            proof {
                lemma_record_bounds(i as int, j as int, sc as int, vc as int);
            }
            let _n = d.len();
            let p = (20 + (i as u64) * stride + 8 * (j as u64)) as usize;
            shape.push(read_vertex(d, p));
            i = i + 1;
        }
        assert(shape@ == spec_shapes(d@, h)[j as int]);
        shapes.push(shape);
        j = j + 1;
    }
    assert(shapes@.map_values(|s: Vec<Vertex>| s@) == spec_shapes(d@, h));
    shapes
}

fn read_vertex_attributes(d: &[u8], h: ICNHeader) -> (r: (Vec<Normal>, Vec<UV>, Vec<Color>))
    requires
        animation_start(h) <= d@.len(),
    ensures
        r.0@ == spec_normals(d@, h),
        r.1@ == spec_uvs(d@, h),
        r.2@ == spec_colors(d@, h),
{
    let sc = h.animation_shape_count as usize;
    let vc = h.vertex_count as usize;
    let stride: u64 = 8 * (sc as u64) + 16;
    let mut normals: Vec<Normal> = Vec::new();
    let mut uvs: Vec<UV> = Vec::new();
    let mut colors: Vec<Color> = Vec::new();
    let mut i: usize = 0;
    while i < vc
        invariant
            sc == h.animation_shape_count,
            vc == h.vertex_count,
            stride == vertex_stride(h.animation_shape_count),
            animation_start(h) <= d@.len(),
            i <= vc,
            normals@ == spec_normals(d@, h).take(i as int),
            uvs@ == spec_uvs(d@, h).take(i as int),
            colors@ == spec_colors(d@, h).take(i as int),
        decreases vc - i,
    {
        proof {
            lemma_record_bounds(i as int, sc as int, sc as int, vc as int);
        }
        let _n = d.len();
        let p = (20 + (i as u64) * stride + 8 * (sc as u64)) as usize;
        normals.push(read_normal(d, p));
        uvs.push(read_uv(d, p + 8));
        colors.push(read_color(d, p + 12));
        proof {
            assert(normals@ == spec_normals(d@, h).take(i + 1));
            assert(uvs@ == spec_uvs(d@, h).take(i + 1));
            assert(colors@ == spec_colors(d@, h).take(i + 1));
        }
        i = i + 1;
    }
    assert(spec_normals(d@, h).take(vc as int) == spec_normals(d@, h));
    assert(spec_uvs(d@, h).take(vc as int) == spec_uvs(d@, h));
    assert(spec_colors(d@, h).take(vc as int) == spec_colors(d@, h));
    (normals, uvs, colors)
}


/// `pre` in front of the frames of a successful read.
pub open spec fn prepend_frames(
    pre: Seq<FrameModel>,
    r: Option<(Seq<FrameModel>, int)>,
) -> Option<(Seq<FrameModel>, int)> {
    match r {
        Some((rest, q)) => Some((pre + rest, q)),
        None => None,
    }
}

fn read_keys(d: &[u8], p: usize, count: usize) -> (keys: Vec<Key>)
    requires
        p + 8 * count <= d.len(),
    ensures
        keys@ == spec_keys(d@, p as int, count as nat),
{
    let mut keys: Vec<Key> = Vec::new();
    let mut k: usize = 0;
    while k < count
        invariant
            p + 8 * count <= d.len(),
            k <= count,
            keys@ == spec_keys(d@, p as int, count as nat).take(k as int),
        decreases count - k,
    {
        let q = p + 8 * k;
        let time = read_u32_le(d, q);
        let value = read_u32_le(d, q + 4);
        keys.push(Key { time, value });
        proof {
            assert(keys@ == spec_keys(d@, p as int, count as nat).take(k + 1));
        }
        k = k + 1;
    }
    assert(spec_keys(d@, p as int, count as nat).take(count as int) == spec_keys(
        d@,
        p as int,
        count as nat,
    ));
    keys
}

fn read_frames(d: &[u8], start: usize, count: u32) -> (r: Option<(Vec<Frame>, usize)>)
    ensures
        match (r, spec_frames(d@, start as int, count as nat)) {
            (Some((frames, end)), Some((model, q))) => frames@.map_values(|f: Frame| f.view())
                == model && end == q,
            (None, None) => true,
            _ => false,
        },
{
    let mut frames: Vec<Frame> = Vec::new();
    let mut pos = start;
    let mut left = count;
    while left > 0
        invariant
            left <= count,
            spec_frames(d@, start as int, count as nat) == prepend_frames(
                frames@.map_values(|f: Frame| f.view()),
                spec_frames(d@, pos as int, left as nat),
            ),
        decreases left,
    {
        let n = d.len();
        if pos > n || n - pos < 8 {
            return None;
        }
        let shape_id = read_u32_le(d, pos);
        let key_count = read_u32_le(d, pos + 4);
        let avail = ((n - pos - 8) / 8) as u64;
        if (key_count as u64) > avail {
            proof {
                assert((n - pos - 8) < 8 * (key_count as int)) by (nonlinear_arith)
                    requires
                        avail == (n - pos - 8) / 8,
                        key_count > avail,
                ;
            }
            return None;
        }
        let keys = read_keys(d, pos + 8, key_count as usize);
        let ghost old_frames = frames@.map_values(|f: Frame| f.view());
        frames.push(Frame { shape_id, keys });
        proof {
            let f = FrameModel { shape_id, keys: keys@ };
            assert(frames@.map_values(|f: Frame| f.view()) == old_frames.push(f));
            let rest = spec_frames(d@, pos + 8 + 8 * key_count, (left - 1) as nat);
            match rest {
                Some((r, q)) => {
                    assert(old_frames + (seq![f] + r) == old_frames.push(f) + r);
                },
                None => {},
            }
        }
        pos = pos + 8 + 8 * (key_count as usize);
        left = left - 1;
    }
    assert(frames@.map_values(|f: Frame| f.view()) + Seq::<FrameModel>::empty() == frames@.map_values(
        |f: Frame| f.view(),
    ));
    Some((frames, pos))
}

/// Decodes run-length coded texels into a full texture.
pub fn decode_rle_texture(c: &Vec<u16>) -> (pixels: Vec<u16>)
    ensures
        pixels@ == fill_texture(rle_decode(c@, 0, Seq::empty())),
{
    let n = c.len();
    let ghost target = rle_decode(c@, 0, Seq::empty());
    let mut pixels: Vec<u16> = Vec::new();
    let mut offset: usize = 0;
    while offset < n
        invariant
            n == c@.len(),
            offset <= n,
            pixels@.len() <= 16384,
            rle_decode(c@, offset as int, pixels@) == target,
        decreases n - offset,
    {
        let code = c[offset];
        let ghost o1 = offset + 1;
        let ghost p0 = pixels@;
        offset = offset + 1;
        assert((code & 0x8000 != 0) == (code >= 0x8000)) by (bit_vector);
        if code & 0x8000 != 0 {
            assert(code >= 0x8000 ==> 0x8000 - (code ^ 0x8000) == 0x10000 - code) by (bit_vector);
            let next_count = (0x8000 - (code ^ 0x8000)) as usize;
            let mut t: usize = 0;
            while t < next_count && offset < n && pixels.len() < 16384
                invariant
                    n == c@.len(),
                    offset == o1 + t,
                    1 <= o1 <= n,
                    offset <= n,
                    t <= next_count,
                    pixels@.len() <= 16384,
                    pixels@ == p0 + c@.subrange(o1, o1 + t),
                decreases next_count - t,
            {
                assert(c@.subrange(o1, o1 + t + 1) == c@.subrange(o1, o1 + t).push(c@[offset as int]));
                pixels.push(c[offset]);
                offset = offset + 1;
                t = t + 1;
            }
        } else {
            let times = code as usize;
            if times > 0 && offset < n {
                let pixel = c[offset];
                offset = offset + 1;
                let mut t: usize = 0;
                while t < times && pixels.len() < 16384
                    invariant
                        t <= times,
                        pixels@.len() <= 16384,
                        pixels@ == p0 + Seq::new(t as nat, |i: int| pixel),
                    decreases times - t,
                {
                    pixels.push(pixel);
                    proof {
                        assert(p0 + Seq::new((t + 1) as nat, |i: int| pixel) == (p0 + Seq::new(
                            t as nat,
                            |i: int| pixel,
                        )).push(pixel));
                    }
                    t = t + 1;
                }
            }
        }
    }
    let decoded_len = pixels.len();
    let mut i = decoded_len;
    while i < 16384
        invariant
            decoded_len <= i <= 16384,
            pixels@.len() == i,
            forall|k: int| 0 <= k < decoded_len ==> pixels@[k] == target[k],
            forall|k: int| decoded_len <= k < i ==> pixels@[k] == 0,
            target.len() == decoded_len,
        decreases 16384 - i,
    {
        pixels.push(0u16);
        i = i + 1;
    }
    assert(pixels@ == fill_texture(target));
    pixels
}

fn read_words(d: &[u8], p: usize, count: usize) -> (w: Vec<u16>)
    requires
        p + 2 * count <= d.len(),
    ensures
        w@ == spec_words(d@, p as int, count as nat),
{
    let mut w: Vec<u16> = Vec::new();
    let mut k: usize = 0;
    while k < count
        invariant
            p + 2 * count <= d.len(),
            k <= count,
            w@ == spec_words(d@, p as int, count as nat).take(k as int),
        decreases count - k,
    {
        w.push(read_u16_le(d, p + 2 * k));
        proof {
            assert(w@ == spec_words(d@, p as int, count as nat).take(k + 1));
        }
        k = k + 1;
    }
    assert(spec_words(d@, p as int, count as nat).take(count as int) == spec_words(
        d@,
        p as int,
        count as nat,
    ));
    w
}

fn read_texture(d: &[u8], p: usize, texture_type: u32) -> (r: Option<Vec<u16>>)
    ensures
        match (r, spec_texture(d@, p as int, texture_type)) {
            (Some(t), Some(m)) => t@ == m,
            (None, None) => true,
            _ => false,
        },
{
    let n = d.len();
    if texture_type & 4 != 0 {
        if texture_type & 8 != 0 {
            if p > n || n - p < 4 {
                return None;
            }
            let words = (read_u32_le(d, p) / 2) as usize;
            if (n - p - 4) / 2 < words {
                return None;
            }
            let compressed = read_words(d, p + 4, words);
            Some(decode_rle_texture(&compressed))
        } else {
            if p > n || n - p < 32768 {
                return None;
            }
            Some(read_words(d, p, 16384))
        }
    } else {
        let mut pixels: Vec<u16> = Vec::new();
        let mut k: usize = 0;
        while k < 16384
            invariant
                k <= 16384,
                pixels@ == Seq::new(k as nat, |i: int| 0xFFFFu16),
            decreases 16384 - k,
        {
            pixels.push(0xFFFFu16);
            k = k + 1;
        }
        Some(pixels)
    }
}

/// Reads an icon; `None` exactly where [`spec_parse_icn`] finds the data
/// malformed.
pub fn parse_icn(d: &[u8]) -> (r: Option<ICN>)
    ensures
        match (r, spec_parse_icn(d@)) {
            (Some(icn), Some(m)) => icn.view() == m,
            (None, None) => true,
            _ => false,
        },
{
    let n = d.len();
    if n < 20 {
        return None;
    }
    if read_u32_le(d, 0) != ICN_MAGIC {
        return None;
    }
    let header = ICNHeader {
        animation_shape_count: read_u32_le(d, 4),
        texture_type: read_u32_le(d, 8),
        vertex_count: read_u32_le(d, 16),
    };
    assert(header == spec_header(d@));
    let stride: u64 = 8 * (header.animation_shape_count as u64) + 16;
    let limit = (n - 20) as u64;
    if header.vertex_count as u64 > 0 && stride > limit / (header.vertex_count as u64) {
        proof {
            let vc = header.vertex_count as int;
            assert(vc * stride > limit) by (nonlinear_arith)
                requires
                    vc > 0,
                    stride > (limit as int) / vc,
            ;
        }
        return None;
    }
    proof {
        let vc = header.vertex_count as int;
        assert(vc * stride <= limit) by (nonlinear_arith)
            requires
                vc == 0 || stride <= (limit as int) / vc,
                vc >= 0,
                limit >= 0,
        ;
    }
    let body = (header.vertex_count as u64) * stride;
    let a = 20 + body as usize;
    assert(a == animation_start(header));
    if n - a < 20 {
        return None;
    }
    if read_u32_le(d, a) != 1 {
        return None;
    }
    let animation_header = AnimationHeader {
        tag: read_u32_le(d, a),
        frame_length: read_u32_le(d, a + 4),
        anim_speed: read_u32_le(d, a + 8),
        play_offset: read_u32_le(d, a + 12),
        frame_count: read_u32_le(d, a + 16),
    };
    let animation_shapes = read_shapes(d, header);
    let (normals, uvs, colors) = read_vertex_attributes(d, header);
    let (frames, t) = match read_frames(d, a + 20, animation_header.frame_count) {
        Some(x) => x,
        None => {
            return None;
        },
    };
    let pixels = match read_texture(d, t, header.texture_type) {
        Some(p) => p,
        None => {
            return None;
        },
    };
    Some(
        ICN {
            header,
            animation_shapes,
            normals,
            uvs,
            colors,
            texture: IcnTexture { pixels },
            animation_header,
            frames,
        },
    )
}


impl ICN {
    /// Reads an icon from its bytes.
    pub fn new(bytes: Vec<u8>) -> (icn: Self)
        requires
            spec_parse_icn(bytes@) is Some,
        ensures
            icn.view() == spec_parse_icn(bytes@).unwrap(),
    {
        let r = parse_icn(bytes.as_slice());
        r.unwrap()
    }
}

/// Reads icons.
pub struct ICNParser {}

impl BinReader<ICN> for ICNParser {
    /// Reads an icon; fails where [`spec_parse_icn`] finds the data malformed.
    fn read(data: &[u8]) -> (r: std::io::Result<ICN>)
        ensures
            r is Ok <==> spec_parse_icn(data@) is Some,
            r matches Ok(icn) ==> icn.view() == spec_parse_icn(data@).unwrap(),
    {
        match parse_icn(data) {
            Some(icn) => Ok(icn),
            None => Err(invalid_data("malformed ICN data")),
        }
    }
}

// ---------------------------------------------------------------------------
// Writing
// ---------------------------------------------------------------------------

pub open spec fn vertex_bytes(v: Vertex) -> Seq<u8> {
    le16(v.x as u16) + le16(v.y as u16) + le16(v.z as u16) + le16(v.w)
}

pub open spec fn normal_bytes(n: Normal) -> Seq<u8> {
    le16(n.x as u16) + le16(n.y as u16) + le16(n.z as u16) + le16(n.w)
}

pub open spec fn uv_bytes(uv: UV) -> Seq<u8> {
    le16(uv.u as u16) + le16(uv.v as u16)
}

/// The writer stores colours red, green, blue, alpha.
pub open spec fn color_bytes(c: Color) -> Seq<u8> {
    seq![c.r, c.g, c.b, c.a]
}

pub open spec fn header_bytes(h: ICNHeader) -> Seq<u8> {
    le32(ICN_MAGIC) + le32(h.animation_shape_count) + le32(h.texture_type) + le32(0) + le32(
        h.vertex_count,
    )
}

/// What the writer emits for vertex `i` in shape `j`: the position, then
/// the vertex's normal, texture coordinate and colour.
pub open spec fn shape_record(m: IcnModel, i: int, j: int) -> Seq<u8> {
    vertex_bytes(m.animation_shapes[j][i]) + normal_bytes(m.normals[i]) + uv_bytes(m.uvs[i])
        + color_bytes(m.colors[i])
}

pub open spec fn vertex_group(m: IcnModel, i: int, shapes: nat) -> Seq<u8>
    decreases shapes,
{
    if shapes == 0 {
        Seq::empty()
    } else {
        vertex_group(m, i, (shapes - 1) as nat) + shape_record(m, i, shapes - 1)
    }
}

pub open spec fn shapes_bytes(m: IcnModel, vertices: nat) -> Seq<u8>
    decreases vertices,
{
    if vertices == 0 {
        Seq::empty()
    } else {
        shapes_bytes(m, (vertices - 1) as nat) + vertex_group(
            m,
            vertices - 1,
            m.header.animation_shape_count as nat,
        )
    }
}

pub open spec fn keys_bytes(keys: Seq<Key>) -> Seq<u8>
    decreases keys.len(),
{
    if keys.len() == 0 {
        Seq::empty()
    } else {
        keys_bytes(keys.drop_last()) + le32(keys.last().time) + le32(keys.last().value)
    }
}

/// A frame as the writer emits it: the key count is written one higher than
/// the number of keys, followed by two zero words.
pub open spec fn frame_bytes(f: FrameModel) -> Seq<u8> {
    le32(f.shape_id) + le32(((f.keys.len() + 1) % 0x1_0000_0000) as u32) + le32(0) + le32(0) + keys_bytes(f.keys)
}

pub open spec fn frames_bytes(frames: Seq<FrameModel>) -> Seq<u8>
    decreases frames.len(),
{
    if frames.len() == 0 {
        Seq::empty()
    } else {
        frames_bytes(frames.drop_last()) + frame_bytes(frames.last())
    }
}

pub open spec fn animation_bytes(m: IcnModel) -> Seq<u8> {
    le32(1) + le32(m.animation_header.frame_length) + le32(m.animation_header.anim_speed) + le32(
        m.animation_header.play_offset,
    ) + le32(m.animation_header.frame_count) + frames_bytes(m.frames)
}

pub open spec fn texels_bytes(p: Seq<u16>) -> Seq<u8>
    decreases p.len(),
{
    if p.len() == 0 {
        Seq::empty()
    } else {
        texels_bytes(p.drop_last()) + le16(p.last())
    }
}

/// Whether the writer can index everything the header promises.
pub open spec fn writable(m: IcnModel) -> bool {
    &&& m.header.vertex_count > 0
    &&& m.header.animation_shape_count > 0
    &&& m.animation_shapes.len() >= m.header.animation_shape_count
    &&& forall|j: int|
        0 <= j < m.header.animation_shape_count ==> (#[trigger] m.animation_shapes[j]).len()
            >= m.header.vertex_count
    &&& m.normals.len() >= m.header.vertex_count
    &&& m.uvs.len() >= m.header.vertex_count
    &&& m.colors.len() >= m.header.vertex_count
}

/// The bytes of an icon, or `None` for a texture type above 7, which the
/// writer cannot compress.
pub open spec fn spec_icn_bytes(m: IcnModel) -> Option<Seq<u8>> {
    if m.header.texture_type <= 7 {
        Some(
            header_bytes(m.header) + shapes_bytes(m, m.header.vertex_count as nat) + animation_bytes(
                m,
            ) + texels_bytes(m.texture),
        )
    } else {
        None
    }
}

/// Writes icons.
pub struct ICNWriter {
    icn: ICN,
}

impl ICNWriter {
    pub fn new(icn: ICN) -> (w: Self)
        ensures
            w.icon() == icn.view(),
    {
        ICNWriter { icn }
    }

    /// The icon this writer serialises.
    pub closed spec fn icon(&self) -> IcnModel {
        self.icn.view()
    }

    fn write_header(&self) -> (data: Vec<u8>)
        ensures
            data@ == header_bytes(self.icon().header),
    {
        let mut data: Vec<u8> = Vec::new();
        push_u32_le(&mut data, ICN_MAGIC);
        push_u32_le(&mut data, self.icn.header.animation_shape_count);
        push_u32_le(&mut data, self.icn.header.texture_type);
        push_u32_le(&mut data, 0);
        push_u32_le(&mut data, self.icn.header.vertex_count);
        data
    }

    fn write_animation_shapes(&self) -> (data: Vec<u8>)
        requires
            writable(self.icon()),
        ensures
            data@ == shapes_bytes(self.icon(), self.icon().header.vertex_count as nat),
    {
        let ghost m = self.icon();
        let vc = self.icn.header.vertex_count;
        let sc = self.icn.header.animation_shape_count;
        let mut data: Vec<u8> = Vec::new();
        let mut i: u32 = 0;
        while i < vc
            invariant
                m == self.icon(),
                writable(m),
                vc == m.header.vertex_count,
                sc == m.header.animation_shape_count,
                i <= vc,
                data@ == shapes_bytes(m, i as nat),
            decreases vc - i,
        {
            let mut j: u32 = 0;
            let ghost start = data@;
            while j < sc
                invariant
                    m == self.icon(),
                    writable(m),
                    vc == m.header.vertex_count,
                    sc == m.header.animation_shape_count,
                    i < vc,
                    j <= sc,
                    data@ == start + vertex_group(m, i as int, j as nat),
                decreases sc - j,
            {
                assert(self.icn.animation_shapes@[j as int]@ == m.animation_shapes[j as int]);
                let v = self.icn.animation_shapes[j as usize][i as usize];
                push_u16_le(&mut data, v.x as u16);
                push_u16_le(&mut data, v.y as u16);
                push_u16_le(&mut data, v.z as u16);
                push_u16_le(&mut data, v.w);
                let n = self.icn.normals[i as usize];
                push_u16_le(&mut data, n.x as u16);
                push_u16_le(&mut data, n.y as u16);
                push_u16_le(&mut data, n.z as u16);
                push_u16_le(&mut data, n.w);
                let uv = self.icn.uvs[i as usize];
                push_u16_le(&mut data, uv.u as u16);
                push_u16_le(&mut data, uv.v as u16);
                let c = self.icn.colors[i as usize];
                data.push(c.r);
                data.push(c.g);
                data.push(c.b);
                data.push(c.a);
                j = j + 1;
            }
            i = i + 1;
        }
        data
    }

    fn write_frame(frame: &Frame) -> (data: Vec<u8>)
        ensures
            data@ == frame_bytes(frame.view()),
    {
        let mut data: Vec<u8> = Vec::new();
        push_u32_le(&mut data, frame.shape_id);
        let kc = (frame.keys.len() as u64) % 0x1_0000_0000;
        let count: u32 = if kc == 0xFFFF_FFFF { 0 } else { (kc + 1) as u32 };
        proof {
            let len = frame.keys@.len() as int;
            vstd::arithmetic::div_mod::lemma_add_mod_noop(len, 1, 0x1_0000_0000);
            vstd::arithmetic::div_mod::lemma_small_mod(1, 0x1_0000_0000);
        }
        push_u32_le(&mut data, count);
        push_u32_le(&mut data, 0);
        push_u32_le(&mut data, 0);
        let ghost start = data@;
        let mut k: usize = 0;
        while k < frame.keys.len()
            invariant
                k <= frame.keys@.len(),
                data@ == start + keys_bytes(frame.keys@.take(k as int)),
            decreases frame.keys.len() - k,
        {
            push_u32_le(&mut data, frame.keys[k].time);
            push_u32_le(&mut data, frame.keys[k].value);
            assert(frame.keys@.take(k + 1).drop_last() == frame.keys@.take(k as int));
            k = k + 1;
        }
        assert(frame.keys@.take(frame.keys@.len() as int) == frame.keys@);
        data
    }

    fn write_animation_data(&self) -> (data: Vec<u8>)
        requires
            writable(self.icon()),
        ensures
            data@ == animation_bytes(self.icon()),
    {
        let ghost m = self.icon();
        let mut data: Vec<u8> = Vec::new();
        push_u32_le(&mut data, 0x01);
        push_u32_le(&mut data, self.icn.animation_header.frame_length);
        push_u32_le(&mut data, self.icn.animation_header.anim_speed);
        push_u32_le(&mut data, self.icn.animation_header.play_offset);
        push_u32_le(&mut data, self.icn.animation_header.frame_count);
        let ghost start = data@;
        let mut f: usize = 0;
        while f < self.icn.frames.len()
            invariant
                m == self.icon(),
                f <= m.frames.len(),
                m.frames.len() == self.icn.frames@.len(),
                data@ == start + frames_bytes(m.frames.take(f as int)),
            decreases self.icn.frames.len() - f,
        {
            let bytes = Self::write_frame(&self.icn.frames[f]);
            let mut b: usize = 0;
            let ghost before = data@;
            while b < bytes.len()
                invariant
                    b <= bytes@.len(),
                    data@ == before + bytes@.take(b as int),
                decreases bytes.len() - b,
            {
                data.push(bytes[b]);
                assert(bytes@.take(b + 1) == bytes@.take(b as int).push(bytes@[b as int]));
                b = b + 1;
            }
            assert(bytes@.take(bytes@.len() as int) == bytes@);
            assert(m.frames.take(f + 1).drop_last() == m.frames.take(f as int));
            f = f + 1;
        }
        assert(m.frames.take(m.frames.len() as int) == m.frames);
        data
    }

    fn write_texture(&self) -> (r: std::io::Result<Vec<u8>>)
        ensures
            r is Ok <==> self.icon().header.texture_type <= 7,
            r matches Ok(data) ==> data@ == texels_bytes(self.icon().texture),
    {
        if self.icn.header.texture_type <= 0x07 {
            let pixels = &self.icn.texture.pixels;
            let mut data: Vec<u8> = Vec::new();
            let mut k: usize = 0;
            while k < pixels.len()
                invariant
                    k <= pixels@.len(),
                    data@ == texels_bytes(pixels@.take(k as int)),
                decreases pixels.len() - k,
            {
                push_u16_le(&mut data, pixels[k]);
                assert(pixels@.take(k + 1).drop_last() == pixels@.take(k as int));
                k = k + 1;
            }
            assert(pixels@.take(pixels@.len() as int) == pixels@);
            Ok(data)
        } else {
            Err(invalid_data("Failed to compress texture"))
        }
    }
}

impl BinWriter for ICNWriter {
    open spec fn can_write(&self) -> bool {
        writable(self.icon())
    }

    /// The icon's bytes: header, vertex records, animation, texture.  Fails
    /// for a texture type above 7.
    fn write(&self) -> (r: std::io::Result<Vec<u8>>)
        ensures
            r is Ok <==> spec_icn_bytes(self.icon()) is Some,
            r matches Ok(data) ==> data@ == spec_icn_bytes(self.icon()).unwrap(),
    {
        let mut file = self.write_header();
        let shapes = self.write_animation_shapes();
        file.append(&mut shapes.clone());
        let anim = self.write_animation_data();
        file.append(&mut anim.clone());
        let texture = self.write_texture()?;
        file.append(&mut texture.clone());
        Ok(file)
    }
}


/// One channel of the RGBA form of a texel: `k` counts red, green, blue
/// and alpha from 0.
pub open spec fn rgba_channel(texel: u16, k: int) -> u8 {
    let c = crate::color::spec_color_from_u16(texel);
    if k == 0 {
        c.r
    } else if k == 1 {
        c.g
    } else if k == 2 {
        c.b
    } else {
        c.a
    }
}

/// The RGBA bytes of the first `count` texels: four per texel, in order.
pub open spec fn texture_rgba(pixels: Seq<u16>, count: nat) -> Seq<u8> {
    Seq::new(count * 4, |j: int| rgba_channel(pixels[j / 4], j % 4))
}

/// The PNG file that the `image` crate's PNG encoder writes for an RGBA
/// image of the given size, or none when the encoder reports an error.
pub uninterp spec fn png_rgba8(pixels: Seq<u8>, width: u32, height: u32) -> Option<Seq<u8>>;

/// Calls `PngEncoder::write_image` of the `image` crate on an RGBA buffer
/// of the given size, writing into memory.
#[verifier::external_body]
fn encode_png_rgba8(pixels: &[u8], width: u32, height: u32) -> (r: Option<Vec<u8>>)
    requires
        pixels@.len() == width * height * 4,
    ensures
        match r {
            Some(b) => png_rgba8(pixels@, width, height) == Some(b@),
            None => png_rgba8(pixels@, width, height) is None,
        },
{
    let mut out: Vec<u8> = Vec::new();
    let encoder = image::codecs::png::PngEncoder::new(&mut out);
    match encoder.write_image(pixels, width, height, image::ExtendedColorType::Rgba8) {
        Ok(()) => Some(out),
        Err(_) => None,
    }
}

impl ICN {
    /// The texture as RGBA bytes, four per texel.
    pub fn texture_rgba(&self) -> (r: Vec<u8>)
        requires
            self.texture.pixels@.len() >= TEXTURE_WIDTH * TEXTURE_HEIGHT,
        ensures
            r@ == texture_rgba(self.texture.pixels@, (TEXTURE_WIDTH * TEXTURE_HEIGHT) as nat),
    {
        let n = TEXTURE_WIDTH * TEXTURE_HEIGHT;
        let ghost px = self.texture.pixels@;
        let mut out: Vec<u8> = Vec::new();
        let mut i: usize = 0;
        while i < n
            invariant
                i <= n,
                n == 16384,
                px == self.texture.pixels@,
                px.len() >= n,
                out@ == texture_rgba(px, i as nat),
            decreases n - i,
        {
            let rgba = Color::from_u16(self.texture.pixels[i]).to_rgba();
            out.push(rgba[0]);
            out.push(rgba[1]);
            out.push(rgba[2]);
            out.push(rgba[3]);
            assert(out@ == texture_rgba(px, (i + 1) as nat));
            i = i + 1;
        }
        out
    }

    /// The texture as a PNG file; empty when the encoder reports an error.
    pub fn export_png(&self) -> (r: Vec<u8>)
        requires
            self.texture.pixels@.len() >= TEXTURE_WIDTH * TEXTURE_HEIGHT,
        ensures
            match png_rgba8(texture_rgba(self.texture.pixels@, 16384), 128, 128) {
                Some(b) => r@ == b,
                None => r@.len() == 0,
            },
    {
        let rgba = self.texture_rgba();
        match encode_png_rgba8(rgba.as_slice(), 128, 128) {
            Some(png) => png,
            None => Vec::new(),
        }
    }
}


/// Whether an icon comes back unchanged from being written and read: one
/// animation shape holding every vertex, exactly one normal, texture
/// coordinate and colour per vertex, colours whose green and blue agree
/// (the writer stores them in the other order than the reader expects),
/// an uncompressed texture type (4 to 7) with a full texture, the animation
/// tag 1 and no frames (the writer stores a frame's key count one higher
/// than the reader takes it).
pub open spec fn survives_writing(m: IcnModel) -> bool {
    &&& m.header.animation_shape_count == 1
    &&& m.header.vertex_count > 0
    &&& m.animation_shapes.len() == 1
    &&& m.animation_shapes[0].len() == m.header.vertex_count
    &&& m.normals.len() == m.header.vertex_count
    &&& m.uvs.len() == m.header.vertex_count
    &&& m.colors.len() == m.header.vertex_count
    &&& forall|i: int| 0 <= i < m.colors.len() ==> (#[trigger] m.colors[i]).g == m.colors[i].b
    &&& 4 <= m.header.texture_type <= 7
    &&& m.texture.len() == 16384
    &&& m.animation_header.tag == 1
    &&& m.animation_header.frame_count == 0
    &&& m.frames.len() == 0
}

proof fn lemma_i16_widen(x: i16)
    ensures
        ((x as u16) as i16) == x,
{
    assert(((x as u16) as i16) == x) by (bit_vector);
}

proof fn lemma_shapes_layout(m: IcnModel, n: nat)
    requires
        m.header.animation_shape_count == 1,
    ensures
        shapes_bytes(m, n).len() == 24 * n,
        forall|i: int|
            0 <= i < n ==> shapes_bytes(m, n).subrange(24 * i, 24 * i + 24) == #[trigger] shape_record(
                m,
                i,
                0,
            ),
    decreases n,
{
    if n > 0 {
        let n1 = (n - 1) as nat;
        lemma_shapes_layout(m, n1);
        let prev = shapes_bytes(m, n1);
        let rec = shape_record(m, n1 as int, 0);
        assert(vertex_group(m, n1 as int, 1) =~= rec) by {
            assert(vertex_group(m, n1 as int, 0) == Seq::<u8>::empty());
        }
        assert(shapes_bytes(m, n) == prev + rec);
        assert forall|i: int| 0 <= i < n implies shapes_bytes(m, n).subrange(24 * i, 24 * i + 24)
            == #[trigger] shape_record(m, i, 0) by {
            if i < n1 {
                lemma_concat_left(prev, rec, 24 * i, 24 * i + 24);
            } else {
                lemma_concat_right(prev, rec);
            }
        }
    }
}

proof fn lemma_texels_layout(t: Seq<u16>)
    ensures
        texels_bytes(t).len() == 2 * t.len(),
        forall|k: int|
            0 <= k < t.len() ==> texels_bytes(t).subrange(2 * k, 2 * k + 2) == le16(#[trigger] t[k]),
    decreases t.len(),
{
    if t.len() > 0 {
        let t1 = t.drop_last();
        lemma_texels_layout(t1);
        let prev = texels_bytes(t1);
        assert forall|k: int| 0 <= k < t.len() implies texels_bytes(t).subrange(2 * k, 2 * k + 2)
            == le16(#[trigger] t[k]) by {
            if k < t1.len() {
                lemma_concat_left(prev, le16(t.last()), 2 * k, 2 * k + 2);
                assert(t1[k] == t[k]);
            } else {
                lemma_concat_right(prev, le16(t.last()));
            }
        }
    }
}

proof fn lemma_le16_in(d: Seq<u8>, p: int, r: Seq<u8>, k: int, v: u16)
    requires
        0 <= p,
        p + r.len() <= d.len(),
        d.subrange(p, p + r.len()) == r,
        0 <= k,
        k + 2 <= r.len(),
        r.subrange(k, k + 2) == le16(v),
    ensures
        u16_at(d, p + k) == v,
{
    assert(d.subrange(p + k, p + k + 2) =~= r.subrange(k, k + 2));
    lemma_u16_of(d, p + k, v);
}

proof fn lemma_le32_in(d: Seq<u8>, p: int, r: Seq<u8>, k: int, v: u32)
    requires
        0 <= p,
        p + r.len() <= d.len(),
        d.subrange(p, p + r.len()) == r,
        0 <= k,
        k + 4 <= r.len(),
        r.subrange(k, k + 4) == le32(v),
    ensures
        u32_at(d, p + k) == v,
{
    assert(d.subrange(p + k, p + k + 4) =~= r.subrange(k, k + 4));
    lemma_u32_of(d, p + k, v);
}

proof fn lemma_record_reads(d: Seq<u8>, q: int, m: IcnModel, i: int)
    requires
        0 <= q,
        q + 24 <= d.len(),
        0 <= i < m.header.vertex_count,
        m.animation_shapes.len() == 1,
        m.animation_shapes[0].len() == m.header.vertex_count,
        m.normals.len() == m.header.vertex_count,
        m.uvs.len() == m.header.vertex_count,
        m.colors.len() == m.header.vertex_count,
        m.colors[i].g == m.colors[i].b,
        d.subrange(q, q + 24) == shape_record(m, i, 0),
    ensures
        vertex_at(d, q) == m.animation_shapes[0][i],
        normal_at(d, q + 8) == m.normals[i],
        uv_at(d, q + 16) == m.uvs[i],
        color_at(d, q + 20) == m.colors[i],
{
    let v = m.animation_shapes[0][i];
    let n = m.normals[i];
    let t = m.uvs[i];
    let c = m.colors[i];
    let r = shape_record(m, i, 0);
    let vx = le16(v.x as u16);
    let vy = le16(v.y as u16);
    let vz = le16(v.z as u16);
    let vw = le16(v.w);
    let nx = le16(n.x as u16);
    let ny = le16(n.y as u16);
    let nz = le16(n.z as u16);
    let nw = le16(n.w);
    let tu = le16(t.u as u16);
    let tv = le16(t.v as u16);
    let cc = seq![c.r, c.g, c.b, c.a];
    assert(r =~= vx + vy + vz + vw + nx + ny + nz + nw + tu + tv + cc);
    assert(r.subrange(0, 2) =~= vx);
    assert(r.subrange(2, 4) =~= vy);
    assert(r.subrange(4, 6) =~= vz);
    assert(r.subrange(6, 8) =~= vw);
    assert(r.subrange(8, 10) =~= nx);
    assert(r.subrange(10, 12) =~= ny);
    assert(r.subrange(12, 14) =~= nz);
    assert(r.subrange(14, 16) =~= nw);
    assert(r.subrange(16, 18) =~= tu);
    assert(r.subrange(18, 20) =~= tv);
    lemma_le16_in(d, q, r, 0, v.x as u16);
    lemma_le16_in(d, q, r, 2, v.y as u16);
    lemma_le16_in(d, q, r, 4, v.z as u16);
    lemma_le16_in(d, q, r, 6, v.w);
    lemma_le16_in(d, q, r, 8, n.x as u16);
    lemma_le16_in(d, q, r, 10, n.y as u16);
    lemma_le16_in(d, q, r, 12, n.z as u16);
    lemma_le16_in(d, q, r, 14, n.w);
    lemma_le16_in(d, q, r, 16, t.u as u16);
    lemma_le16_in(d, q, r, 18, t.v as u16);
    lemma_i16_widen(v.x);
    lemma_i16_widen(v.y);
    lemma_i16_widen(v.z);
    lemma_i16_widen(n.x);
    lemma_i16_widen(n.y);
    lemma_i16_widen(n.z);
    lemma_i16_widen(t.u);
    lemma_i16_widen(t.v);
    assert(d[q + 20] == r[20]);
    assert(d[q + 21] == r[21]);
    assert(d[q + 22] == r[22]);
    assert(d[q + 23] == r[23]);
}

proof fn lemma_body_reads(d: Seq<u8>, m: IcnModel)
    requires
        survives_writing(m),
        d.len() >= 20 + 24 * m.header.vertex_count,
        forall|i: int|
            0 <= i < m.header.vertex_count ==> d.subrange(20 + 24 * i, 44 + 24 * i)
                == #[trigger] shape_record(m, i, 0),
    ensures
        spec_shapes(d, m.header) == m.animation_shapes,
        spec_normals(d, m.header) == m.normals,
        spec_uvs(d, m.header) == m.uvs,
        spec_colors(d, m.header) == m.colors,
{
    let h = m.header;
    let vc = h.vertex_count as int;
    assert forall|i: int| 0 <= i < vc implies vertex_at(d, 20 + 24 * i) == m.animation_shapes[0][i]
        && normal_at(d, 28 + 24 * i) == m.normals[i] && uv_at(d, 36 + 24 * i) == m.uvs[i]
        && color_at(d, 40 + 24 * i) == #[trigger] m.colors[i] by {
        assert(d.subrange(20 + 24 * i, 44 + 24 * i) == shape_record(m, i, 0));
        lemma_record_reads(d, 20 + 24 * i, m, i);
    }
    assert(spec_shapes(d, h)[0] =~= m.animation_shapes[0]) by {
        assert forall|i: int| 0 <= i < vc implies spec_shapes(d, h)[0][i]
            == m.animation_shapes[0][i] by {
            assert(color_at(d, 40 + 24 * i) == m.colors[i]);
        }
    }
    assert(spec_shapes(d, h) =~= m.animation_shapes);
    assert(spec_normals(d, h) =~= m.normals) by {
        assert forall|i: int| 0 <= i < vc implies spec_normals(d, h)[i] == m.normals[i] by {
            assert(vertex_record(h, i) == 28 + 24 * i);
            assert(color_at(d, 40 + 24 * i) == m.colors[i]);
        }
    }
    assert(spec_uvs(d, h) =~= m.uvs) by {
        assert forall|i: int| 0 <= i < vc implies spec_uvs(d, h)[i] == m.uvs[i] by {
            assert(vertex_record(h, i) == 28 + 24 * i);
            assert(color_at(d, 40 + 24 * i) == m.colors[i]);
        }
    }
    assert(spec_colors(d, h) =~= m.colors) by {
        assert forall|i: int| 0 <= i < vc implies spec_colors(d, h)[i] == m.colors[i] by {
            assert(vertex_record(h, i) == 28 + 24 * i);
            assert(color_at(d, 40 + 24 * i) == m.colors[i]);
        }
    }
}

proof fn lemma_tail_reads(d: Seq<u8>, m: IcnModel, a: int)
    requires
        survives_writing(m),
        0 <= a,
        a + 20 + 32768 <= d.len(),
        d.subrange(a, a + 20) == animation_bytes(m),
        d.subrange(a + 20, a + 20 + 32768) == texels_bytes(m.texture),
    ensures
        u32_at(d, a) == 1,
        spec_anim_header(d, a) == m.animation_header,
        spec_frames(d, a + 20, 0) == Some((Seq::<FrameModel>::empty(), a + 20)),
        spec_texture(d, a + 20, m.header.texture_type) == Some(m.texture),
{
    let ah = m.animation_header;
    let ab = animation_bytes(m);
    assert(frames_bytes(m.frames) == Seq::<u8>::empty());
    let w0 = le32(1);
    let w1 = le32(ah.frame_length);
    let w2 = le32(ah.anim_speed);
    let w3 = le32(ah.play_offset);
    let w4 = le32(ah.frame_count);
    assert(ab =~= w0 + w1 + w2 + w3 + w4);
    assert(ab.subrange(0, 4) =~= w0);
    assert(ab.subrange(4, 8) =~= w1);
    assert(ab.subrange(8, 12) =~= w2);
    assert(ab.subrange(12, 16) =~= w3);
    assert(ab.subrange(16, 20) =~= w4);
    lemma_le32_in(d, a, ab, 0, 1);
    lemma_le32_in(d, a, ab, 4, ah.frame_length);
    lemma_le32_in(d, a, ab, 8, ah.anim_speed);
    lemma_le32_in(d, a, ab, 12, ah.play_offset);
    lemma_le32_in(d, a, ab, 16, ah.frame_count);
    let p = a + 20;
    let tt = m.header.texture_type;
    assert(tt & 4 != 0 && tt & 8 == 0) by (bit_vector)
        requires
            4 <= tt <= 7,
    ;
    let tb = texels_bytes(m.texture);
    lemma_texels_layout(m.texture);
    assert forall|k: int| 0 <= k < 16384 implies #[trigger] spec_words(d, p, 16384)[k]
        == m.texture[k] by {
        assert(d.subrange(p + 2 * k, p + 2 * k + 2) =~= tb.subrange(2 * k, 2 * k + 2));
        lemma_u16_of(d, p + 2 * k, m.texture[k]);
    }
    assert(spec_words(d, p, 16384) =~= m.texture);
}

/// Writing an icon and reading the bytes back gives the same icon, for
/// every icon that `survives_writing` describes.
#[verifier::rlimit(40)]
pub proof fn lemma_icn_roundtrip(m: IcnModel)
    requires
        survives_writing(m),
    ensures
        spec_icn_bytes(m) is Some,
        spec_parse_icn(spec_icn_bytes(m).unwrap()) == Some(m),
{
    let h = m.header;
    let vc = h.vertex_count as nat;
    let hb = header_bytes(h);
    let sb = shapes_bytes(m, vc);
    let ab = animation_bytes(m);
    let tb = texels_bytes(m.texture);
    lemma_shapes_layout(m, vc);
    lemma_texels_layout(m.texture);
    assert(frames_bytes(m.frames) == Seq::<u8>::empty());
    let d1 = hb + sb;
    let d2 = d1 + ab;
    let d = d2 + tb;
    assert(spec_icn_bytes(m) == Some(d));
    assert(hb.len() == 20);
    assert(ab.len() == 20);
    let a: int = (20 + 24 * vc) as int;
    assert(animation_start(h) == a);
    lemma_concat_left(d1, ab, 0, 20);
    lemma_concat_left(d2, tb, 0, 20);
    lemma_concat_left(hb, sb, 0, 20);
    assert(hb.subrange(0, 20) =~= hb);
    let w0 = le32(ICN_MAGIC);
    let w1 = le32(h.animation_shape_count);
    let w2 = le32(h.texture_type);
    let w4 = le32(h.vertex_count);
    assert(hb =~= w0 + w1 + w2 + le32(0) + w4);
    assert(d.subrange(0, 4) =~= w0);
    assert(d.subrange(4, 8) =~= w1);
    assert(d.subrange(8, 12) =~= w2);
    assert(d.subrange(16, 20) =~= w4);
    lemma_u32_of(d, 0, ICN_MAGIC);
    lemma_u32_of(d, 4, h.animation_shape_count);
    lemma_u32_of(d, 8, h.texture_type);
    lemma_u32_of(d, 16, h.vertex_count);
    assert(spec_header(d) == h);
    lemma_concat_right(hb, sb);
    assert forall|i: int| 0 <= i < vc implies d.subrange(20 + 24 * i, 44 + 24 * i)
        == #[trigger] shape_record(m, i, 0) by {
        lemma_concat_left(d2, tb, 20 + 24 * i, 44 + 24 * i);
        lemma_concat_left(d1, ab, 20 + 24 * i, 44 + 24 * i);
        assert(d1.subrange(20 + 24 * i, 44 + 24 * i) =~= sb.subrange(24 * i, 24 * i + 24));
    }
    lemma_body_reads(d, m);
    lemma_concat_right(d1, ab);
    lemma_concat_left(d2, tb, a, a + 20);
    lemma_concat_right(d2, tb);
    lemma_tail_reads(d, m, a);
    assert(m.frames =~= Seq::<FrameModel>::empty());
}

} // verus!
