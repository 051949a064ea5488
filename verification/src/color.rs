use vstd::prelude::*;

verus! {

/// An RGBA colour with 8-bit channels.
#[derive(Debug, Clone, Copy, PartialEq, Eq, Structural)]
pub struct Color {
    pub r: u8,
    pub g: u8,
    pub b: u8,
    pub a: u8,
}

/// Expands a 5-bit channel to 8 bits the way the texture decoder does.
pub open spec fn expand5(v: int) -> int {
    v * 255 / 31
}

/// Reduces an 8-bit channel to 5 bits.
pub open spec fn reduce8(v: int) -> int {
    (v * 31 / 255) % 32
}

/// The colour a 16-bit texel stands for: 5 bits per channel (red lowest),
/// and the top bit as an all-or-nothing alpha.
pub open spec fn spec_color_from_u16(value: u16) -> Color {
    Color {
        r: expand5(value as int % 32) as u8,
        g: expand5((value as int / 32) % 32) as u8,
        b: expand5((value as int / 1024) % 32) as u8,
        a: if value as int >= 0x8000 { 255u8 } else { 0u8 },
    }
}

/// The 16-bit texel a colour is packed into.
pub open spec fn spec_color_to_u16(c: Color) -> u16 {
    (reduce8(c.r as int) + reduce8(c.g as int) * 32 + reduce8(c.b as int) * 1024 + if c.a > 0 {
        0x8000int
    } else {
        0int
    }) as u16
}

impl Color {
    /// Opaque white.
    pub fn white() -> (c: Self)
        ensures
            c == (Color { r: 255, g: 255, b: 255, a: 255 }),
    {
        Color { r: 255, g: 255, b: 255, a: 255 }
    }

    pub fn new(r: u8, g: u8, b: u8, a: u8) -> (c: Self)
        ensures
            c == (Color { r, g, b, a }),
    {
        Color { r, g, b, a }
    }

    /// Decodes a 16-bit texel.
    pub fn from_u16(value: u16) -> (c: Self)
        ensures
            c == spec_color_from_u16(value),
    {
        let r = value & 0x1f;
        let g = (value >> 5) & 0x1f;
        let b = (value >> 10) & 0x1f;
        assert(value & 0x1f == value % 32 && (value >> 5) & 0x1f == (value / 32) % 32 && (value
            >> 10) & 0x1f == (value / 1024) % 32) by (bit_vector);
        assert((value & 0x8000 != 0) == (value as int >= 0x8000)) by (bit_vector);
        let a: u8 = if value & 0x8000 != 0 { 255 } else { 0 };
        Color {
            r: (r * 255 / 31) as u8,
            g: (g * 255 / 31) as u8,
            b: (b * 255 / 31) as u8,
            a,
        }
    }

    /// Packs the colour into a 16-bit texel.
    pub fn to_u16(self) -> (v: u16)
        ensures
            v == spec_color_to_u16(self),
    {
        let rr = self.r as u16 * 31 / 255;
        let gg = self.g as u16 * 31 / 255;
        let bb = self.b as u16 * 31 / 255;
        let r = rr & 0x1f;
        let g = gg & 0x1f;
        let b = bb & 0x1f;
        let a: u16 = if self.a > 0 { 0x8000 } else { 0 };
        assert(rr & 0x1f == rr % 32) by (bit_vector);
        assert(gg & 0x1f == gg % 32) by (bit_vector);
        assert(bb & 0x1f == bb % 32) by (bit_vector);
        assert(r & 0x1f == r && g & 0x1f == g && b & 0x1f == b) by (bit_vector)
            requires r == rr & 0x1f, g == gg & 0x1f, b == bb & 0x1f;
        assert(r < 32 && g < 32 && b < 32 && (a == 0 || a == 0x8000) ==> r | (g << 5) | (b << 10)
            | a == r + g * 32 + b * 1024 + a) by (bit_vector);
        r | (g << 5) | (b << 10) | a
    }

    /// The channels in RGBA order.
    pub fn to_rgba(self) -> (out: [u8; 4])
        ensures
            out@ == seq![self.r, self.g, self.b, self.a],
    {
        [self.r, self.g, self.b, self.a]
    }
}

/// An 8-bit channel packed into 5 bits and expanded again loses at most 9:
/// the result is never above the channel and at most 9 below it.
proof fn lemma_channel_roundtrip(v: u8)
    ensures
        0 <= reduce8(v as int) < 32,
        v as int - 9 <= expand5(reduce8(v as int)) <= v as int,
{
    let x = v as int;
    let q = x * 31 / 255;
    assert(0 <= q < 32);
    assert(q % 32 == q);
    let e = q * 255 / 31;
    assert(255 * q <= 31 * x < 255 * q + 255);
    assert(31 * e <= 255 * q < 31 * e + 31);
}

/// Which bits of a texel give which channel: red is bits 0 to 4, green
/// bits 5 to 9, blue bits 10 to 14, each a 5-bit level spread over 0 to 255
/// (0 gives 0, 31 gives 255), and alpha is 255 exactly when bit 15 is set.
pub proof fn lemma_texel_channels(v: u16)
    ensures
        spec_color_from_u16(v).r as int == (v as int % 32) * 255 / 31,
        spec_color_from_u16(v).g as int == (v as int / 32 % 32) * 255 / 31,
        spec_color_from_u16(v).b as int == (v as int / 1024 % 32) * 255 / 31,
        spec_color_from_u16(v).a == (if v as int >= 0x8000 { 255u8 } else { 0u8 }),
        spec_color_from_u16(v).g == spec_color_from_u16((v as int / 32 % 32) as u16).r,
        spec_color_from_u16(v).b == spec_color_from_u16((v as int / 1024 % 32) as u16).r,
{
    let r = v as int % 32;
    let g = v as int / 32 % 32;
    let b = v as int / 1024 % 32;
    assert(0 <= r * 255 / 31 <= 255) by (nonlinear_arith)
        requires
            0 <= r < 32,
    ;
    assert(0 <= g * 255 / 31 <= 255) by (nonlinear_arith)
        requires
            0 <= g < 32,
    ;
    assert(0 <= b * 255 / 31 <= 255) by (nonlinear_arith)
        requires
            0 <= b < 32,
    ;
}

/// Packing a colour into a texel and decoding it again keeps every channel
/// up to the 5-bit rounding: each colour channel comes back at most 9
/// lower, never higher, and alpha comes back as 255 when it was set and 0
/// when it was not.
pub proof fn lemma_pack_then_decode(c: Color)
    ensures
        c.r as int - 9 <= spec_color_from_u16(spec_color_to_u16(c)).r <= c.r,
        c.g as int - 9 <= spec_color_from_u16(spec_color_to_u16(c)).g <= c.g,
        c.b as int - 9 <= spec_color_from_u16(spec_color_to_u16(c)).b <= c.b,
        spec_color_from_u16(spec_color_to_u16(c)).a == (if c.a > 0 { 255u8 } else { 0u8 }),
{
    lemma_channel_roundtrip(c.r);
    lemma_channel_roundtrip(c.g);
    lemma_channel_roundtrip(c.b);
    let qr = reduce8(c.r as int);
    let qg = reduce8(c.g as int);
    let qb = reduce8(c.b as int);
    let a: int = if c.a > 0 { 0x8000 } else { 0 };
    lemma_unpack(qr, qg, qb, a);
    let u = spec_color_to_u16(c);
    assert(u as int == qr + qg * 32 + qb * 1024 + a);
    let d = spec_color_from_u16(u);
    assert(d.r as int == expand5(qr));
    assert(d.g as int == expand5(qg));
    assert(d.b as int == expand5(qb));
}

proof fn lemma_unpack(qr: int, qg: int, qb: int, a: int)
    requires
        0 <= qr < 32,
        0 <= qg < 32,
        0 <= qb < 32,
        a == 0 || a == 0x8000,
    ensures
        0 <= qr + qg * 32 + qb * 1024 + a < 65536,
        (qr + qg * 32 + qb * 1024 + a) % 32 == qr,
        (qr + qg * 32 + qb * 1024 + a) / 32 % 32 == qg,
        (qr + qg * 32 + qb * 1024 + a) / 1024 % 32 == qb,
        ((qr + qg * 32 + qb * 1024 + a) >= 0x8000) == (a == 0x8000),
        0 <= expand5(qr) <= 255,
        0 <= expand5(qg) <= 255,
        0 <= expand5(qb) <= 255,
{
    let v = qr + qg * 32 + qb * 1024 + a;
    let k = a / 1024;
    assert(a == 1024 * k && (k == 0 || k == 32));
    assert(v == qr + 32 * (qg + 32 * (qb + k)));
    assert(v / 32 == qg + 32 * (qb + k));
    assert(v / 1024 == qb + k);
}

} // verus!
