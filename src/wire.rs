//! Fixed-width little-endian integers and the compact-size length prefix.
use vstd::prelude::*;

verus! {

/// Two bytes, most significant first (the byte order of a port on the wire).
pub open spec fn u16_be(v: u16) -> Seq<u8> {
    seq![(v >> 8u16) as u8, v as u8]
}

pub open spec fn u16_le(v: u16) -> Seq<u8> {
    seq![v as u8, (v >> 8u16) as u8]
}

pub open spec fn u32_le(v: u32) -> Seq<u8> {
    seq![v as u8, (v >> 8u32) as u8, (v >> 16u32) as u8, (v >> 24u32) as u8]
}

pub open spec fn u64_le(v: u64) -> Seq<u8> {
    seq![
        v as u8, (v >> 8u64) as u8, (v >> 16u64) as u8, (v >> 24u64) as u8,
        (v >> 32u64) as u8, (v >> 40u64) as u8, (v >> 48u64) as u8, (v >> 56u64) as u8,
    ]
}

pub open spec fn read_u16_be(s: Seq<u8>) -> u16 {
    ((s[0] as u16) << 8u16) | (s[1] as u16)
}

pub open spec fn read_u16_le(s: Seq<u8>) -> u16 {
    (s[0] as u16) | ((s[1] as u16) << 8u16)
}

pub open spec fn read_u32_le(s: Seq<u8>) -> u32 {
    (s[0] as u32) | ((s[1] as u32) << 8u32) | ((s[2] as u32) << 16u32) | ((s[3] as u32) << 24u32)
}

pub open spec fn read_u64_le(s: Seq<u8>) -> u64 {
    (s[0] as u64) | ((s[1] as u64) << 8u64) | ((s[2] as u64) << 16u64) | ((s[3] as u64) << 24u64)
        | ((s[4] as u64) << 32u64) | ((s[5] as u64) << 40u64) | ((s[6] as u64) << 48u64)
        | ((s[7] as u64) << 56u64)
}

pub proof fn lemma_u16_be(v: u16)
    ensures
        read_u16_be(u16_be(v)) == v,
{
    let b0 = (v >> 8u16) as u8;
    let b1 = v as u8;
    assert(((b0 as u16) << 8u16) | (b1 as u16) == v) by (bit_vector)
        requires b0 == (v >> 8u16) as u8, b1 == v as u8;
}

pub proof fn lemma_u32_le(v: u32)
    ensures
        read_u32_le(u32_le(v)) == v,
{
    let s = u32_le(v);
    let (b0, b1, b2, b3) = (s[0], s[1], s[2], s[3]);
    assert((b0 as u32) | ((b1 as u32) << 8u32) | ((b2 as u32) << 16u32) | ((b3 as u32) << 24u32) == v)
        by (bit_vector)
        requires
            b0 == v as u8, b1 == (v >> 8u32) as u8, b2 == (v >> 16u32) as u8, b3 == (v >> 24u32) as u8;
}

pub proof fn lemma_u16_be_back(s: Seq<u8>)
    requires
        s.len() == 2,
    ensures
        u16_be(read_u16_be(s)) == s,
{
    let (b0, b1) = (s[0], s[1]);
    let v = read_u16_be(s);
    assert((v >> 8u16) as u8 == b0 && v as u8 == b1) by (bit_vector)
        requires v == ((b0 as u16) << 8u16) | (b1 as u16);
    assert(u16_be(v) =~= s);
}

pub proof fn lemma_u16_le(v: u16)
    ensures
        read_u16_le(u16_le(v)) == v,
{
    let b0 = v as u8;
    let b1 = (v >> 8u16) as u8;
    assert((b0 as u16) | ((b1 as u16) << 8u16) == v) by (bit_vector)
        requires b0 == v as u8, b1 == (v >> 8u16) as u8;
}

pub proof fn lemma_u16_le_back(s: Seq<u8>)
    requires
        s.len() == 2,
    ensures
        u16_le(read_u16_le(s)) == s,
{
    let (b0, b1) = (s[0], s[1]);
    let v = read_u16_le(s);
    assert(v as u8 == b0 && (v >> 8u16) as u8 == b1) by (bit_vector)
        requires v == (b0 as u16) | ((b1 as u16) << 8u16);
    assert(u16_le(v) =~= s);
}

pub proof fn lemma_u32_le_back(s: Seq<u8>)
    requires
        s.len() == 4,
    ensures
        u32_le(read_u32_le(s)) == s,
{
    let (b0, b1, b2, b3) = (s[0], s[1], s[2], s[3]);
    let v = read_u32_le(s);
    assert(v as u8 == b0 && (v >> 8u32) as u8 == b1 && (v >> 16u32) as u8 == b2
        && (v >> 24u32) as u8 == b3) by (bit_vector)
        requires
            v == (b0 as u32) | ((b1 as u32) << 8u32) | ((b2 as u32) << 16u32) | ((b3 as u32) << 24u32);
    assert(u32_le(v) =~= s);
}

pub proof fn lemma_u64_le(v: u64)
    ensures
        read_u64_le(u64_le(v)) == v,
{
    let s = u64_le(v);
    let (b0, b1, b2, b3, b4, b5, b6, b7) = (s[0], s[1], s[2], s[3], s[4], s[5], s[6], s[7]);
    assert((b0 as u64) | ((b1 as u64) << 8u64) | ((b2 as u64) << 16u64) | ((b3 as u64) << 24u64)
        | ((b4 as u64) << 32u64) | ((b5 as u64) << 40u64) | ((b6 as u64) << 48u64)
        | ((b7 as u64) << 56u64) == v) by (bit_vector)
        requires
            b0 == v as u8, b1 == (v >> 8u64) as u8, b2 == (v >> 16u64) as u8,
            b3 == (v >> 24u64) as u8, b4 == (v >> 32u64) as u8, b5 == (v >> 40u64) as u8,
            b6 == (v >> 48u64) as u8, b7 == (v >> 56u64) as u8;
}

pub proof fn lemma_u64_le_back(s: Seq<u8>)
    requires
        s.len() == 8,
    ensures
        u64_le(read_u64_le(s)) == s,
{
    let (b0, b1, b2, b3, b4, b5, b6, b7) = (s[0], s[1], s[2], s[3], s[4], s[5], s[6], s[7]);
    let v = read_u64_le(s);
    assert(v as u8 == b0 && (v >> 8u64) as u8 == b1 && (v >> 16u64) as u8 == b2
        && (v >> 24u64) as u8 == b3 && (v >> 32u64) as u8 == b4 && (v >> 40u64) as u8 == b5
        && (v >> 48u64) as u8 == b6 && (v >> 56u64) as u8 == b7) by (bit_vector)
        requires
            v == (b0 as u64) | ((b1 as u64) << 8u64) | ((b2 as u64) << 16u64) | ((b3 as u64) << 24u64)
                | ((b4 as u64) << 32u64) | ((b5 as u64) << 40u64) | ((b6 as u64) << 48u64)
                | ((b7 as u64) << 56u64);
    assert(u64_le(v) =~= s);
}

/// The compact-size prefix: one byte below 0xfd, else a marker byte and the
/// shortest of a 2-, 4- or 8-byte little-endian integer that holds the value.
pub open spec fn compact_bytes(n: u64) -> Seq<u8> {
    if n < 0xfd {
        seq![n as u8]
    } else if n <= 0xffff {
        seq![0xfdu8] + u16_le(n as u16)
    } else if n <= 0xffff_ffff {
        seq![0xfeu8] + u32_le(n as u32)
    } else {
        seq![0xffu8] + u64_le(n)
    }
}

/// Reads a compact-size prefix at the start of `s`: the value and the number of
/// bytes it took, or `None` when `s` is too short or the encoding is not the
/// shortest one.
pub open spec fn parse_compact(s: Seq<u8>) -> Option<(u64, nat)> {
    if s.len() < 1 {
        None
    } else if s[0] < 0xfd {
        Some((s[0] as u64, 1))
    } else if s[0] == 0xfd {
        if s.len() < 3 || read_u16_le(s.subrange(1, 3)) < 0xfd {
            None
        } else {
            Some((read_u16_le(s.subrange(1, 3)) as u64, 3))
        }
    } else if s[0] == 0xfe {
        if s.len() < 5 || read_u32_le(s.subrange(1, 5)) <= 0xffff {
            None
        } else {
            Some((read_u32_le(s.subrange(1, 5)) as u64, 5))
        }
    } else {
        if s.len() < 9 || read_u64_le(s.subrange(1, 9)) <= 0xffff_ffff {
            None
        } else {
            Some((read_u64_le(s.subrange(1, 9)), 9))
        }
    }
}

pub proof fn lemma_compact(n: u64, rest: Seq<u8>)
    ensures
        parse_compact(compact_bytes(n) + rest) == Some((n, compact_bytes(n).len())),
{
    let s = compact_bytes(n) + rest;
    if n < 0xfd {
    } else if n <= 0xffff {
        assert(s.subrange(1, 3) =~= u16_le(n as u16));
        lemma_u16_le(n as u16);
    } else if n <= 0xffff_ffff {
        assert(s.subrange(1, 5) =~= u32_le(n as u32));
        lemma_u32_le(n as u32);
    } else {
        assert(s.subrange(1, 9) =~= u64_le(n));
        lemma_u64_le(n);
    }
}

pub proof fn lemma_compact_back(s: Seq<u8>)
    requires
        parse_compact(s) is Some,
    ensures
        ({
            let (n, w) = parse_compact(s)->0;
            w <= s.len() && compact_bytes(n) == s.subrange(0, w as int)
        }),
{
    if s[0] < 0xfd {
        assert(compact_bytes(s[0] as u64) =~= s.subrange(0, 1));
    } else if s[0] == 0xfd {
        lemma_u16_le_back(s.subrange(1, 3));
        assert(compact_bytes(read_u16_le(s.subrange(1, 3)) as u64) =~= s.subrange(0, 3));
    } else if s[0] == 0xfe {
        lemma_u32_le_back(s.subrange(1, 5));
        assert(compact_bytes(read_u32_le(s.subrange(1, 5)) as u64) =~= s.subrange(0, 5));
    } else {
        lemma_u64_le_back(s.subrange(1, 9));
        assert(compact_bytes(read_u64_le(s.subrange(1, 9))) =~= s.subrange(0, 9));
    }
}

pub fn push_u16_be(out: &mut Vec<u8>, v: u16)
    ensures
        final(out)@ == old(out)@ + u16_be(v),
{
    out.push((v >> 8u16) as u8);
    out.push(v as u8);
    assert(final(out)@ =~= old(out)@ + u16_be(v));
}

pub fn push_u16_le(out: &mut Vec<u8>, v: u16)
    ensures
        final(out)@ == old(out)@ + u16_le(v),
{
    out.push(v as u8);
    out.push((v >> 8u16) as u8);
    assert(final(out)@ =~= old(out)@ + u16_le(v));
}

pub fn push_u32_le(out: &mut Vec<u8>, v: u32)
    ensures
        final(out)@ == old(out)@ + u32_le(v),
{
    out.push(v as u8);
    out.push((v >> 8u32) as u8);
    out.push((v >> 16u32) as u8);
    out.push((v >> 24u32) as u8);
    assert(final(out)@ =~= old(out)@ + u32_le(v));
}

pub fn push_u64_le(out: &mut Vec<u8>, v: u64)
    ensures
        final(out)@ == old(out)@ + u64_le(v),
{
    out.push(v as u8);
    out.push((v >> 8u64) as u8);
    out.push((v >> 16u64) as u8);
    out.push((v >> 24u64) as u8);
    out.push((v >> 32u64) as u8);
    out.push((v >> 40u64) as u8);
    out.push((v >> 48u64) as u8);
    out.push((v >> 56u64) as u8);
    assert(final(out)@ =~= old(out)@ + u64_le(v));
}

pub fn push_compact(out: &mut Vec<u8>, n: u64)
    ensures
        final(out)@ == old(out)@ + compact_bytes(n),
{
    if n < 0xfd {
        out.push(n as u8);
        assert(final(out)@ =~= old(out)@ + compact_bytes(n));
    } else if n <= 0xffff {
        out.push(0xfd);
        push_u16_le(out, n as u16);
        assert(final(out)@ =~= old(out)@ + compact_bytes(n));
    } else if n <= 0xffff_ffff {
        out.push(0xfe);
        push_u32_le(out, n as u32);
        assert(final(out)@ =~= old(out)@ + compact_bytes(n));
    } else {
        out.push(0xff);
        push_u64_le(out, n);
        assert(final(out)@ =~= old(out)@ + compact_bytes(n));
    }
}

pub fn get_u16_be(b: &[u8], pos: usize) -> (r: u16)
    requires
        pos + 2 <= b@.len(),
    ensures
        r == read_u16_be(b@.subrange(pos as int, pos + 2)),
{
    ((b[pos] as u16) << 8u16) | (b[pos + 1] as u16)
}

pub fn get_u16_le(b: &[u8], pos: usize) -> (r: u16)
    requires
        pos + 2 <= b@.len(),
    ensures
        r == read_u16_le(b@.subrange(pos as int, pos + 2)),
{
    (b[pos] as u16) | ((b[pos + 1] as u16) << 8u16)
}

pub fn get_u32_le(b: &[u8], pos: usize) -> (r: u32)
    requires
        pos + 4 <= b@.len(),
    ensures
        r == read_u32_le(b@.subrange(pos as int, pos + 4)),
{
    (b[pos] as u32) | ((b[pos + 1] as u32) << 8u32) | ((b[pos + 2] as u32) << 16u32)
        | ((b[pos + 3] as u32) << 24u32)
}

pub fn get_u64_le(b: &[u8], pos: usize) -> (r: u64)
    requires
        pos + 8 <= b@.len(),
    ensures
        r == read_u64_le(b@.subrange(pos as int, pos + 8)),
{
    (b[pos] as u64) | ((b[pos + 1] as u64) << 8u64) | ((b[pos + 2] as u64) << 16u64)
        | ((b[pos + 3] as u64) << 24u64) | ((b[pos + 4] as u64) << 32u64)
        | ((b[pos + 5] as u64) << 40u64) | ((b[pos + 6] as u64) << 48u64)
        | ((b[pos + 7] as u64) << 56u64)
}

/// Reads a compact-size prefix at `pos`: its value and width.
pub fn get_compact(b: &[u8], pos: usize) -> (r: Option<(u64, usize)>)
    requires
        pos <= b@.len(),
    ensures
        match parse_compact(b@.subrange(pos as int, b@.len() as int)) {
            Some((n, w)) => r == Some((n, w as usize)),
            None => r is None,
        },
{
    let ghost s = b@.subrange(pos as int, b@.len() as int);
    if pos >= b.len() {
        return None;
    }
    let first = b[pos];
    if first < 0xfd {
        Some((first as u64, 1))
    } else if first == 0xfd {
        if b.len() - pos < 3 {
            return None;
        }
        let v = get_u16_le(b, pos + 1);
        assert(s.subrange(1, 3) =~= b@.subrange(pos + 1, pos + 3));
        if v < 0xfd { None } else { Some((v as u64, 3)) }
    } else if first == 0xfe {
        if b.len() - pos < 5 {
            return None;
        }
        let v = get_u32_le(b, pos + 1);
        assert(s.subrange(1, 5) =~= b@.subrange(pos + 1, pos + 5));
        if v <= 0xffff { None } else { Some((v as u64, 5)) }
    } else {
        if b.len() - pos < 9 {
            return None;
        }
        let v = get_u64_le(b, pos + 1);
        assert(s.subrange(1, 9) =~= b@.subrange(pos + 1, pos + 9));
        if v <= 0xffff_ffff { None } else { Some((v, 9)) }
    }
}

} // verus!

verus! {

/// Why bytes could not be turned into a message, or a message into bytes.
#[derive(Clone, Copy, Debug, PartialEq, Eq, Structural)]
pub enum CodecError {
    /// The command name is longer than its fixed-width field.
    EncodingError,
    /// The input ended before a whole envelope was read.
    FramingError,
    /// The checksum in the header disagrees with the payload.
    ChecksumMismatch,
    /// The declared payload length exceeds the accepted maximum.
    OversizedPayload,
    /// A field of the payload is truncated or not in its canonical form.
    MalformedField,
}

} // verus!
