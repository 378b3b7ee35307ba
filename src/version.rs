//! The version announcement: its fields and their byte layout.
use vstd::prelude::*;
use crate::wire::{
    get_compact, get_u16_be, get_u32_le, get_u64_le, lemma_compact, lemma_compact_back,
    lemma_u16_be, lemma_u16_be_back, lemma_u32_le, lemma_u32_le_back, lemma_u64_le,
    lemma_u64_le_back, push_compact, push_u16_be, push_u32_le, push_u64_le, CodecError,
    compact_bytes, parse_compact, read_u16_be, read_u32_le, read_u64_le, u16_be, u32_le, u64_le,
};

verus! {

/// Whether bytes are well-formed UTF-8.
pub uninterp spec fn is_utf8(s: Seq<u8>) -> bool;

/// Relies on `core::str::from_utf8`, which succeeds exactly on well-formed
/// UTF-8; ASCII is a subset of UTF-8, so bytes below 0x80 always pass.
#[verifier::external_body]
fn check_utf8(b: &[u8]) -> (r: bool)
    ensures
        r == is_utf8(b@),
        (forall|i: int| 0 <= i < b@.len() ==> b@[i] < 0x80) ==> r,
{
    core::str::from_utf8(b).is_ok()
}

/// Whether bytes are well-formed UTF-8, as a user agent must be.
pub fn is_utf8_text(b: &[u8]) -> (r: bool)
    ensures
        r == is_utf8(b@),
        (forall|i: int| 0 <= i < b@.len() ==> b@[i] < 0x80) ==> r,
{
    check_utf8(b)
}

/// A network address as it appears inside a version payload: advertised
/// services, a 16-byte (IPv6 or IPv4-mapped) address and a port.
#[derive(Clone, Copy, Debug)]
pub struct NetAddress {
    pub services: u64,
    pub ip: [u8; 16],
    pub port: u16,
}

pub struct NetAddressView {
    pub services: u64,
    pub ip: Seq<u8>,
    pub port: u16,
}

impl View for NetAddress {
    type V = NetAddressView;

    open spec fn view(&self) -> NetAddressView {
        NetAddressView { services: self.services, ip: self.ip@, port: self.port }
    }
}

#[derive(Clone, Debug)]
pub struct VersionMessage {
    pub version: i32,
    pub services: u64,
    pub timestamp: i64,
    pub receiver: NetAddress,
    pub sender: NetAddress,
    pub nonce: u64,
    pub user_agent: Vec<u8>,
    pub start_height: i32,
    pub relay: bool,
}

pub struct VersionView {
    pub version: i32,
    pub services: u64,
    pub timestamp: i64,
    pub receiver: NetAddressView,
    pub sender: NetAddressView,
    pub nonce: u64,
    pub user_agent: Seq<u8>,
    pub start_height: i32,
    pub relay: bool,
}

impl View for VersionMessage {
    type V = VersionView;

    open spec fn view(&self) -> VersionView {
        VersionView {
            version: self.version,
            services: self.services,
            timestamp: self.timestamp,
            receiver: self.receiver@,
            sender: self.sender@,
            nonce: self.nonce,
            user_agent: self.user_agent@,
            start_height: self.start_height,
            relay: self.relay,
        }
    }
}

/// A version message that has a byte form: both addresses hold 16 bytes and
/// the user agent is UTF-8 whose length fits the length prefix.
pub open spec fn version_wf(m: VersionView) -> bool {
    &&& m.receiver.ip.len() == 16
    &&& m.sender.ip.len() == 16
    &&& m.user_agent.len() <= u64::MAX
    &&& is_utf8(m.user_agent)
}

/// 26 bytes: services (little-endian), the address, the port (big-endian).
pub open spec fn addr_bytes(a: NetAddressView) -> Seq<u8> {
    u64_le(a.services) + a.ip + u16_be(a.port)
}

pub open spec fn parse_addr(s: Seq<u8>) -> NetAddressView {
    NetAddressView {
        services: read_u64_le(s.subrange(0, 8)),
        ip: s.subrange(8, 24),
        port: read_u16_be(s.subrange(24, 26)),
    }
}

/// Bytes of the fields before the user agent: version, services, timestamp,
/// receiver, sender and nonce, 80 bytes in all.
pub open spec fn version_head(m: VersionView) -> Seq<u8> {
    u32_le(m.version as u32) + u64_le(m.services) + u64_le(m.timestamp as u64) + addr_bytes(
        m.receiver,
    ) + addr_bytes(m.sender) + u64_le(m.nonce)
}

/// The whole version payload.
pub open spec fn version_bytes(m: VersionView) -> Seq<u8> {
    version_head(m) + compact_bytes(m.user_agent.len() as u64) + m.user_agent + u32_le(
        m.start_height as u32,
    ) + seq![if m.relay { 1u8 } else { 0u8 }]
}

/// The message that `b` is the byte form of, if any.
pub open spec fn parse_version(b: Seq<u8>) -> Option<VersionView> {
    if b.len() < 80 {
        None
    } else {
        match parse_compact(b.subrange(80, b.len() as int)) {
            None => None,
            Some((n, w)) => {
                let ua_end: int = 80 + w + n;
                if b.len() != ua_end + 5 || b[ua_end + 4] > 1 || !is_utf8(
                    b.subrange(80 + w as int, ua_end),
                ) {
                    None
                } else {
                    Some(
                        VersionView {
                            version: read_u32_le(b.subrange(0, 4)) as i32,
                            services: read_u64_le(b.subrange(4, 12)),
                            timestamp: read_u64_le(b.subrange(12, 20)) as i64,
                            receiver: parse_addr(b.subrange(20, 46)),
                            sender: parse_addr(b.subrange(46, 72)),
                            nonce: read_u64_le(b.subrange(72, 80)),
                            user_agent: b.subrange(80 + w as int, ua_end),
                            start_height: read_u32_le(b.subrange(ua_end, ua_end + 4)) as i32,
                            relay: b[ua_end + 4] == 1,
                        },
                    )
                }
            },
        }
    }
}

proof fn lemma_i32_cast(x: i32)
    ensures
        (x as u32) as i32 == x,
{
    assert((x as u32) as i32 == x) by (bit_vector);
}

proof fn lemma_i64_cast(x: i64)
    ensures
        (x as u64) as i64 == x,
{
    assert((x as u64) as i64 == x) by (bit_vector);
}

proof fn lemma_u32_cast(y: u32)
    ensures
        (y as i32) as u32 == y,
{
    assert((y as i32) as u32 == y) by (bit_vector);
}

proof fn lemma_u64_cast(y: u64)
    ensures
        (y as i64) as u64 == y,
{
    assert((y as i64) as u64 == y) by (bit_vector);
}

proof fn lemma_addr(a: NetAddressView)
    requires
        a.ip.len() == 16,
    ensures
        addr_bytes(a).len() == 26,
        parse_addr(addr_bytes(a)) == a,
{
    let s = addr_bytes(a);
    assert(s.subrange(0, 8) =~= u64_le(a.services));
    assert(s.subrange(8, 24) =~= a.ip);
    assert(s.subrange(24, 26) =~= u16_be(a.port));
    lemma_u64_le(a.services);
    lemma_u16_be(a.port);
}

proof fn lemma_addr_back(s: Seq<u8>)
    requires
        s.len() == 26,
    ensures
        addr_bytes(parse_addr(s)) == s,
{
    lemma_u64_le_back(s.subrange(0, 8));
    lemma_u16_be_back(s.subrange(24, 26));
    assert(addr_bytes(parse_addr(s)) =~= s);
}

/// Decoding the byte form of a message gives back that message, field for
/// field.
pub proof fn lemma_version_round_trip(m: VersionView)
    requires
        version_wf(m),
    ensures
        parse_version(version_bytes(m)) == Some(m),
{
    let b = version_bytes(m);
    let h = version_head(m);
    let n = m.user_agent.len() as u64;
    let c = compact_bytes(n);
    let tail = m.user_agent + u32_le(m.start_height as u32) + seq![
        if m.relay { 1u8 } else { 0u8 },
    ];
    lemma_addr(m.receiver);
    lemma_addr(m.sender);
    assert(h.len() == 80);
    assert(b =~= h + (c + tail));
    assert(b.subrange(80, b.len() as int) =~= c + tail);
    lemma_compact(n, tail);
    let w = c.len();
    let ua_end: int = 80 + w + n;
    assert(b.subrange(0, 4) =~= u32_le(m.version as u32));
    assert(b.subrange(4, 12) =~= u64_le(m.services));
    assert(b.subrange(12, 20) =~= u64_le(m.timestamp as u64));
    assert(b.subrange(20, 46) =~= addr_bytes(m.receiver));
    assert(b.subrange(46, 72) =~= addr_bytes(m.sender));
    assert(b.subrange(72, 80) =~= u64_le(m.nonce));
    assert(b.subrange(80 + w as int, ua_end) =~= m.user_agent);
    assert(b.subrange(ua_end, ua_end + 4) =~= u32_le(m.start_height as u32));
    lemma_u32_le(m.version as u32);
    lemma_u64_le(m.services);
    lemma_u64_le(m.timestamp as u64);
    lemma_u64_le(m.nonce);
    lemma_u32_le(m.start_height as u32);
    lemma_i32_cast(m.version);
    lemma_i64_cast(m.timestamp);
    lemma_i32_cast(m.start_height);
    let p = parse_version(b)->0;
    assert(p.user_agent =~= m.user_agent);
    assert(p.receiver.ip =~= m.receiver.ip);
    assert(p.sender.ip =~= m.sender.ip);
}

/// Bytes that decode are exactly the byte form of what they decode to: the
/// byte form of a message is unique.
pub proof fn lemma_version_canonical(b: Seq<u8>)
    requires
        parse_version(b) is Some,
    ensures
        version_wf(parse_version(b)->0),
        version_bytes(parse_version(b)->0) == b,
{
    let m = parse_version(b)->0;
    let s = b.subrange(80, b.len() as int);
    let (n, w) = parse_compact(s)->0;
    lemma_compact_back(s);
    let ua_end: int = 80 + w + n;
    lemma_u32_le_back(b.subrange(0, 4));
    lemma_u64_le_back(b.subrange(4, 12));
    lemma_u64_le_back(b.subrange(12, 20));
    lemma_addr_back(b.subrange(20, 46));
    lemma_addr_back(b.subrange(46, 72));
    lemma_u64_le_back(b.subrange(72, 80));
    lemma_u32_le_back(b.subrange(ua_end, ua_end + 4));
    lemma_u32_cast(read_u32_le(b.subrange(0, 4)));
    lemma_u64_cast(read_u64_le(b.subrange(12, 20)));
    lemma_u32_cast(read_u32_le(b.subrange(ua_end, ua_end + 4)));
    assert(s.subrange(0, w as int) =~= b.subrange(80, 80 + w as int));
    assert(m.user_agent.len() == n);
    assert(version_bytes(m) =~= b);
}

/// Appends the 26-byte form of an address.
fn push_addr(out: &mut Vec<u8>, a: &NetAddress)
    ensures
        final(out)@ == old(out)@ + addr_bytes(a@),
{
    push_u64_le(out, a.services);
    out.extend_from_slice(a.ip.as_slice());
    push_u16_be(out, a.port);
    assert(final(out)@ =~= old(out)@ + addr_bytes(a@));
}

/// The byte form of a version message, fields in wire order.
pub fn encode_version(m: &VersionMessage) -> (r: Vec<u8>)
    ensures
        r@ == version_bytes(m@),
{
    let mut out: Vec<u8> = Vec::new();
    push_u32_le(&mut out, m.version as u32);
    push_u64_le(&mut out, m.services);
    push_u64_le(&mut out, m.timestamp as u64);
    push_addr(&mut out, &m.receiver);
    push_addr(&mut out, &m.sender);
    push_u64_le(&mut out, m.nonce);
    push_compact(&mut out, m.user_agent.len() as u64);
    out.extend_from_slice(m.user_agent.as_slice());
    push_u32_le(&mut out, m.start_height as u32);
    out.push(if m.relay { 1u8 } else { 0u8 });
    assert(out@ =~= version_bytes(m@));
    out
}

fn get_addr(b: &[u8], pos: usize) -> (r: NetAddress)
    requires
        pos + 26 <= b@.len(),
    ensures
        r@ == parse_addr(b@.subrange(pos as int, pos + 26)),
{
    let ghost s = b@.subrange(pos as int, pos + 26);
    let services = get_u64_le(b, pos);
    // The slice's length is a usize, which bounds pos + 26.
    let _ = b.len();
    let p = pos + 8;
    let ip: [u8; 16] = [
        b[p], b[p + 1], b[p + 2], b[p + 3], b[p + 4], b[p + 5], b[p + 6], b[p + 7],
        b[p + 8], b[p + 9], b[p + 10], b[p + 11], b[p + 12], b[p + 13], b[p + 14], b[p + 15],
    ];
    let port = get_u16_be(b, pos + 24);
    assert(s.subrange(0, 8) =~= b@.subrange(pos as int, pos + 8));
    assert(s.subrange(8, 24) =~= ip@);
    assert(s.subrange(24, 26) =~= b@.subrange(pos + 24, pos + 26));
    NetAddress { services, ip, port }
}

/// Decodes a version payload. Fails with `MalformedField` exactly when the
/// bytes are not the byte form of any message: too short, a length prefix
/// that is not the shortest one, a user agent that runs past the end, a relay
/// byte other than 0 or 1, a user agent that is not UTF-8, or bytes left
/// over after the relay flag.
pub fn decode_version(b: &[u8]) -> (r: Result<VersionMessage, CodecError>)
    ensures
        match r {
            Ok(m) => parse_version(b@) == Some(m@) && version_bytes(m@) == b@,
            Err(e) => parse_version(b@) is None && e == CodecError::MalformedField,
        },
{
    if b.len() < 80 {
        return Err(CodecError::MalformedField);
    }
    let (n, w) = match get_compact(b, 80) {
        Some(c) => c,
        None => return Err(CodecError::MalformedField),
    };
    let avail = b.len() - 80 - w;
    if n as u128 + 5 != avail as u128 {
        return Err(CodecError::MalformedField);
    }
    let ua_start = 80 + w;
    let ua_end = ua_start + n as usize;
    let flag = b[ua_end + 4];
    if flag > 1 {
        return Err(CodecError::MalformedField);
    }
    if !check_utf8(&b[ua_start..ua_end]) {
        return Err(CodecError::MalformedField);
    }
    let mut user_agent: Vec<u8> = Vec::new();
    let mut i = ua_start;
    while i < ua_end
        invariant
            ua_start <= i <= ua_end,
            ua_end + 5 == b@.len(),
            user_agent@ == b@.subrange(ua_start as int, i as int),
        decreases ua_end - i,
    {
        user_agent.push(b[i]);
        i = i + 1;
        assert(user_agent@ =~= b@.subrange(ua_start as int, i as int));
    }
    let m = VersionMessage {
        version: get_u32_le(b, 0) as i32,
        services: get_u64_le(b, 4),
        timestamp: get_u64_le(b, 12) as i64,
        receiver: get_addr(b, 20),
        sender: get_addr(b, 46),
        nonce: get_u64_le(b, 72),
        user_agent,
        start_height: get_u32_le(b, ua_end) as i32,
        relay: flag == 1,
    };
    proof {
        lemma_version_canonical(b@);
        let p = parse_version(b@)->0;
        assert(p.receiver.ip =~= m.receiver.ip@);
        assert(p.sender.ip =~= m.sender.ip@);
    }
    Ok(m)
}

} // verus!
