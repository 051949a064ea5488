use vstd::prelude::*;

verus! {

/// Little-endian encoding of a 16-bit value.
pub open spec fn le16(v: u16) -> Seq<u8> {
    seq![(v % 256) as u8, (v / 256) as u8]
}

/// Little-endian encoding of a 32-bit value.
pub open spec fn le32(v: u32) -> Seq<u8> {
    seq![(v % 256) as u8, ((v / 256) % 256) as u8, ((v / 65536) % 256) as u8, (v / 16777216) as u8]
}

/// `n` zero bytes.
pub open spec fn zeros(n: nat) -> Seq<u8> {
    Seq::new(n, |i: int| 0u8)
}

/// The little-endian 16-bit value stored at `i`.
pub open spec fn u16_at(s: Seq<u8>, i: int) -> u16 {
    (s[i] as int + s[i + 1] as int * 256) as u16
}

/// The little-endian 32-bit value stored at `i`.
pub open spec fn u32_at(s: Seq<u8>, i: int) -> u32 {
    (s[i] as int + s[i + 1] as int * 256 + s[i + 2] as int * 65536 + s[i + 3] as int * 16777216) as u32
}

/// Reading back a little-endian 16-bit encoding gives the value.
pub proof fn lemma_le16_roundtrip(v: u16, pre: Seq<u8>, post: Seq<u8>)
    ensures
        u16_at(pre + le16(v) + post, pre.len() as int) == v,
{
    let s = pre + le16(v) + post;
    assert(s[pre.len() as int] == (v % 256) as u8);
    assert(s[pre.len() as int + 1] == (v / 256) as u8);
}

/// Reading back a little-endian 32-bit encoding gives the value.
pub proof fn lemma_le32_roundtrip(v: u32, pre: Seq<u8>, post: Seq<u8>)
    ensures
        u32_at(pre + le32(v) + post, pre.len() as int) == v,
{
    let s = pre + le32(v) + post;
    let i = pre.len() as int;
    assert(s[i] == (v % 256) as u8);
    assert(s[i + 1] == ((v / 256) % 256) as u8);
    assert(s[i + 2] == ((v / 65536) % 256) as u8);
    assert(s[i + 3] == (v / 16777216) as u8);
}

/// Appends `v` in little-endian order.
pub fn push_u16_le(out: &mut Vec<u8>, v: u16)
    ensures
        final(out)@ == old(out)@ + le16(v),
{
    out.push((v % 256) as u8);
    out.push((v / 256) as u8);
}

/// Appends `v` in little-endian order.
pub fn push_u32_le(out: &mut Vec<u8>, v: u32)
    ensures
        final(out)@ == old(out)@ + le32(v),
{
    out.push((v % 256) as u8);
    out.push(((v / 256) % 256) as u8);
    out.push(((v / 65536) % 256) as u8);
    out.push((v / 16777216) as u8);
}

/// Appends `n` zero bytes.
pub fn push_zeros(out: &mut Vec<u8>, n: usize)
    ensures
        final(out)@ == old(out)@ + zeros(n as nat),
{
    let ghost start = out@;
    let mut i: usize = 0;
    while i < n
        invariant
            i <= n,
            out@ == start + zeros(i as nat),
        decreases n - i,
    {
        out.push(0u8);
        i = i + 1;
        assert(out@ == start + zeros(i as nat));
    }
}

/// Appends all of `src`.
pub fn push_all(out: &mut Vec<u8>, src: &[u8])
    ensures
        final(out)@ == old(out)@ + src@,
{
    let ghost start = out@;
    let mut i: usize = 0;
    while i < src.len()
        invariant
            i <= src.len(),
            out@ == start + src@.take(i as int),
        decreases src.len() - i,
    {
        out.push(src[i]);
        assert(src@.take(i + 1) == src@.take(i as int).push(src@[i as int]));
        i = i + 1;
    }
    assert(src@.take(src.len() as int) == src@);
}

/// Reads a little-endian 16-bit value at `pos`.
pub fn read_u16_le(data: &[u8], pos: usize) -> (v: u16)
    requires
        pos + 2 <= data@.len(),
    ensures
        v == u16_at(data@, pos as int),
{
    data[pos] as u16 + (data[pos + 1] as u16) * 256
}

/// Reads a little-endian 32-bit value at `pos`.
pub fn read_u32_le(data: &[u8], pos: usize) -> (v: u32)
    requires
        pos + 4 <= data@.len(),
    ensures
        v == u32_at(data@, pos as int),
{
    data[pos] as u32 + (data[pos + 1] as u32) * 256 + (data[pos + 2] as u32) * 65536 + (data[pos
        + 3] as u32) * 16777216
}

/// The bytes `data[pos..pos + len]`.
pub fn slice_bytes(data: &[u8], pos: usize, len: usize) -> (v: Vec<u8>)
    requires
        pos + len <= data@.len(),
    ensures
        v@ == data@.subrange(pos as int, pos + len),
{
    let mut v: Vec<u8> = Vec::new();
    let mut i: usize = 0;
    while i < len
        invariant
            i <= len,
            pos + len <= data.len(),
            v@ == data@.subrange(pos as int, pos + i),
        decreases len - i,
    {
        v.push(data[pos + i]);
        i = i + 1;
    }
    v
}

/// Reading a little-endian value back from where its encoding stands.
pub proof fn lemma_u32_of(s: Seq<u8>, p: int, v: u32)
    requires
        0 <= p,
        p + 4 <= s.len(),
        s.subrange(p, p + 4) == le32(v),
    ensures
        u32_at(s, p) == v,
{
    lemma_le32_roundtrip(v, s.take(p), s.skip(p + 4));
    assert(s =~= s.take(p) + le32(v) + s.skip(p + 4));
}


/// Reading a little-endian value back from where its encoding stands.
pub proof fn lemma_u16_of(s: Seq<u8>, p: int, v: u16)
    requires
        0 <= p,
        p + 2 <= s.len(),
        s.subrange(p, p + 2) == le16(v),
    ensures
        u16_at(s, p) == v,
{
    lemma_le16_roundtrip(v, s.take(p), s.skip(p + 2));
    assert(s =~= s.take(p) + le16(v) + s.skip(p + 2));
}


/// A slice of the left part of a concatenation.
pub proof fn lemma_concat_left(x: Seq<u8>, y: Seq<u8>, a: int, b: int)
    requires
        0 <= a <= b <= x.len(),
    ensures
        (x + y).subrange(a, b) == x.subrange(a, b),
{
    assert((x + y).subrange(a, b) =~= x.subrange(a, b));
}


/// The right part of a concatenation.
pub proof fn lemma_concat_right(x: Seq<u8>, y: Seq<u8>)
    ensures
        (x + y).subrange(x.len() as int, (x.len() + y.len()) as int) == y,
{
    assert((x + y).subrange(x.len() as int, (x.len() + y.len()) as int) =~= y);
}


} // verus!
