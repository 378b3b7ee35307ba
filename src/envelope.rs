//! The message envelope: magic, command name, payload length, checksum and
//! payload.
use vstd::prelude::*;
use bitcoin::hashes::Hash as _;
use crate::wire::{get_u32_le, lemma_u32_le, push_u32_le, read_u32_le, u32_le, CodecError};

verus! {

/// Length of the fixed header that precedes every payload.
pub const HEADER_LEN: usize = 24;

/// Width of the NUL-padded command field.
pub const COMMAND_LEN: usize = 12;

/// The main network's magic, as a little-endian integer (bytes f9 be b4 d9).
pub const MAINNET_MAGIC: u32 = 0xd9b4_bef9;

/// The largest payload that a decoder accepts unless told otherwise.
pub const MAX_PAYLOAD_LEN: u32 = 4_000_000;

/// The first four bytes of the double SHA-256 of a payload, read as a
/// little-endian integer.
pub uninterp spec fn checksum_of(payload: Seq<u8>) -> u32;

/// Relies on bitcoin_hashes' `sha256d::Hash::hash`: the double SHA-256 of the
/// payload, of which the first four bytes are kept. It depends on the bytes
/// alone.
#[verifier::external_body]
fn checksum(payload: &[u8]) -> (r: u32)
    ensures
        r == checksum_of(payload@),
{
    let h = bitcoin::hashes::sha256d::Hash::hash(payload).to_byte_array();
    u32::from_le_bytes([h[0], h[1], h[2], h[3]])
}

#[derive(Clone, Debug)]
pub struct Envelope {
    pub magic: u32,
    pub command: Vec<u8>,
    pub payload: Vec<u8>,
}

pub struct EnvelopeView {
    pub magic: u32,
    pub command: Seq<u8>,
    pub payload: Seq<u8>,
}

impl View for Envelope {
    type V = EnvelopeView;

    open spec fn view(&self) -> EnvelopeView {
        EnvelopeView { magic: self.magic, command: self.command@, payload: self.payload@ }
    }
}

/// A command name that survives the round trip: at most twelve bytes, none NUL.
pub open spec fn valid_command(c: Seq<u8>) -> bool {
    c.len() <= 12 && forall|i: int| 0 <= i < c.len() ==> c[i] != 0
}

/// The command padded with NUL bytes to twelve.
pub open spec fn command_field(c: Seq<u8>) -> Seq<u8> {
    c + Seq::new((12 - c.len()) as nat, |i: int| 0u8)
}

/// The command that a twelve-byte field holds, if it is one padded with NULs.
#[verifier::opaque]
pub open spec fn parse_command(f: Seq<u8>) -> Option<Seq<u8>> {
    if exists|c: Seq<u8>| valid_command(c) && command_field(c) == f {
        Some(choose|c: Seq<u8>| valid_command(c) && command_field(c) == f)
    } else {
        None
    }
}

/// The payload length that a header declares.
pub open spec fn declared_len(b: Seq<u8>) -> u32 {
    read_u32_le(b.subrange(16, 20))
}

pub open spec fn envelope_bytes(e: EnvelopeView) -> Seq<u8> {
    u32_le(e.magic) + command_field(e.command) + u32_le(e.payload.len() as u32) + u32_le(
        checksum_of(e.payload),
    ) + e.payload
}

/// Checks a header: the number of bytes of the whole envelope it announces.
pub open spec fn parse_header(b: Seq<u8>, max_payload: u32) -> Result<nat, CodecError> {
    if b.len() < 24 {
        Err(CodecError::FramingError)
    } else if declared_len(b) > max_payload {
        Err(CodecError::OversizedPayload)
    } else {
        Ok((24 + declared_len(b)) as nat)
    }
}

/// The envelope at the start of `b`; bytes after it are not read.
pub open spec fn parse_envelope(b: Seq<u8>, max_payload: u32) -> Result<EnvelopeView, CodecError> {
    match parse_header(b, max_payload) {
        Err(e) => Err(e),
        Ok(total) => {
            if b.len() < total {
                Err(CodecError::FramingError)
            } else if parse_command(b.subrange(4, 16)) is None {
                Err(CodecError::MalformedField)
            } else if read_u32_le(b.subrange(20, 24)) != checksum_of(b.subrange(24, total as int)) {
                Err(CodecError::ChecksumMismatch)
            } else {
                Ok(
                    EnvelopeView {
                        magic: read_u32_le(b.subrange(0, 4)),
                        command: parse_command(b.subrange(4, 16))->0,
                        payload: b.subrange(24, total as int),
                    },
                )
            }
        },
    }
}

proof fn lemma_command_unique(c1: Seq<u8>, c2: Seq<u8>)
    requires
        valid_command(c1),
        valid_command(c2),
        command_field(c1) == command_field(c2),
    ensures
        c1 == c2,
{
    if c1.len() < c2.len() {
        assert(command_field(c1)[c1.len() as int] == 0);
        assert(command_field(c2)[c1.len() as int] == c2[c1.len() as int]);
    } else if c2.len() < c1.len() {
        assert(command_field(c2)[c2.len() as int] == 0);
        assert(command_field(c1)[c2.len() as int] == c1[c2.len() as int]);
    } else {
        assert forall|i: int| 0 <= i < c1.len() implies c1[i] == c2[i] by {
            assert(command_field(c1)[i] == c1[i]);
            assert(command_field(c2)[i] == c2[i]);
        }
        assert(c1 =~= c2);
    }
}

proof fn lemma_parse_command(c: Seq<u8>)
    requires
        valid_command(c),
    ensures
        parse_command(command_field(c)) == Some(c),
{
    let f = command_field(c);
    reveal(parse_command);
    assert(valid_command(c) && command_field(c) == f);
    let d = choose|d: Seq<u8>| valid_command(d) && command_field(d) == f;
    lemma_command_unique(c, d);
}

/// Decoding an encoded envelope gives back its magic, command and payload.
pub proof fn lemma_envelope_round_trip(e: EnvelopeView, max_payload: u32)
    requires
        valid_command(e.command),
        e.payload.len() <= max_payload,
    ensures
        parse_envelope(envelope_bytes(e), max_payload) == Ok::<EnvelopeView, CodecError>(e),
        parse_header(envelope_bytes(e), max_payload) == Ok::<nat, CodecError>((24 + e.payload.len()) as nat),
{
    let b = envelope_bytes(e);
    let n = e.payload.len() as u32;
    let cs = checksum_of(e.payload);
    assert(b.subrange(0, 4) =~= u32_le(e.magic));
    assert(b.subrange(4, 16) =~= command_field(e.command));
    assert(b.subrange(16, 20) =~= u32_le(n));
    assert(b.subrange(20, 24) =~= u32_le(cs));
    lemma_u32_le(cs);
    assert(b.subrange(24, 24 + e.payload.len() as int) =~= e.payload);
    lemma_u32_le(e.magic);
    lemma_u32_le(n);
    lemma_parse_command(e.command);
}

/// Decoding from a stream that holds an encoded envelope and then other bytes
/// gives back the envelope, and its header announces exactly the envelope's
/// length: the bytes after it are left unread.
pub proof fn lemma_envelope_round_trip_in_stream(e: EnvelopeView, rest: Seq<u8>, max_payload: u32)
    requires
        valid_command(e.command),
        e.payload.len() <= max_payload,
    ensures
        parse_envelope(envelope_bytes(e) + rest, max_payload) == Ok::<EnvelopeView, CodecError>(e),
        parse_header(envelope_bytes(e) + rest, max_payload) == Ok::<nat, CodecError>(
            (24 + e.payload.len()) as nat,
        ),
{
    let b = envelope_bytes(e) + rest;
    let n = e.payload.len() as u32;
    let cs = checksum_of(e.payload);
    assert(b.subrange(0, 4) =~= u32_le(e.magic));
    assert(b.subrange(4, 16) =~= command_field(e.command));
    assert(b.subrange(16, 20) =~= u32_le(n));
    assert(b.subrange(20, 24) =~= u32_le(cs));
    lemma_u32_le(cs);
    assert(b.subrange(24, 24 + e.payload.len() as int) =~= e.payload);
    lemma_u32_le(e.magic);
    lemma_u32_le(n);
    lemma_parse_command(e.command);
}

/// Changing one byte of an encoded envelope's payload makes decoding fail
/// with `ChecksumMismatch`, wherever the changed payload's checksum differs
/// from the unchanged payload's.
pub proof fn lemma_envelope_tamper(e: EnvelopeView, max_payload: u32, i: int, x: u8)
    requires
        valid_command(e.command),
        e.payload.len() <= max_payload,
        0 <= i < e.payload.len(),
        checksum_of(e.payload.update(i, x)) != checksum_of(e.payload),
    ensures
        parse_envelope(envelope_bytes(e).update(24 + i, x), max_payload) == Err::<
            EnvelopeView,
            CodecError,
        >(CodecError::ChecksumMismatch),
{
    let b = envelope_bytes(e);
    let t = b.update(24 + i, x);
    let total: int = 24 + e.payload.len() as int;
    lemma_envelope_round_trip(e, max_payload);
    assert(t.subrange(4, 16) =~= b.subrange(4, 16));
    assert(t.subrange(16, 20) =~= b.subrange(16, 20));
    assert(declared_len(t) == declared_len(b));
    assert(parse_header(t, max_payload) == parse_header(b, max_payload));
    assert(t.subrange(20, 24) =~= b.subrange(20, 24));
    assert(b.subrange(20, 24) =~= u32_le(checksum_of(e.payload)));
    lemma_u32_le(checksum_of(e.payload));
    assert(t.subrange(24, total) =~= e.payload.update(i, x));
}

/// Reads the command from the header's twelve-byte field.
fn get_command(b: &[u8]) -> (r: Option<Vec<u8>>)
    requires
        b@.len() >= 24,
    ensures
        match parse_command(b@.subrange(4, 16)) {
            Some(c) => r is Some && r->0@ == c,
            None => r is None,
        },
{
    let ghost f = b@.subrange(4, 16);
    let mut k: usize = 0;
    while k < 12 && b[4 + k] != 0
        invariant
            k <= 12,
            b@.len() >= 24,
            f == b@.subrange(4, 16),
            forall|i: int| 0 <= i < k ==> f[i] != 0,
        decreases 12 - k,
    {
        k = k + 1;
    }
    let mut j: usize = k;
    while j < 12
        invariant
            k <= j <= 12,
            b@.len() >= 24,
            f == b@.subrange(4, 16),
            forall|i: int| k <= i < j ==> f[i] == 0,
            k < 12 ==> f[k as int] == 0,
        decreases 12 - j,
    {
        if b[4 + j] != 0 {
            proof {
                reveal(parse_command);
                assert(f[k as int] == 0);
                assert(f[j as int] != 0);
                if exists|c: Seq<u8>| valid_command(c) && command_field(c) == f {
                    let c = choose|c: Seq<u8>| valid_command(c) && command_field(c) == f;
                    if k < c.len() {
                        assert(command_field(c)[k as int] == c[k as int]);
                    } else {
                        assert(command_field(c)[j as int] == 0);
                    }
                    assert(false);
                }
            }
            return None;
        }
        j = j + 1;
    }
    let mut c: Vec<u8> = Vec::new();
    let mut i: usize = 0;
    while i < k
        invariant
            i <= k <= 12,
            b@.len() >= 24,
            f == b@.subrange(4, 16),
            c@ == f.subrange(0, i as int),
        decreases k - i,
    {
        c.push(b[4 + i]);
        i = i + 1;
        assert(c@ =~= f.subrange(0, i as int));
    }
    proof {
        assert(command_field(c@) =~= f);
        lemma_parse_command(c@);
    }
    Some(c)
}

/// Checks the length fields of the 24-byte header at the start of `b`
/// (`FramingError` when it is short, `OversizedPayload` when it declares more
/// than `max_payload`) and returns the length of the whole envelope it
/// announces, so that a reader knows how many payload
/// bytes to wait for. Nothing past the header is read.
pub fn frame_length(b: &[u8], max_payload: u32) -> (r: Result<u64, CodecError>)
    ensures
        match parse_header(b@, max_payload) {
            Ok(n) => r == Ok::<u64, CodecError>(n as u64),
            Err(e) => r == Err::<u64, CodecError>(e),
        },
{
    if b.len() < HEADER_LEN {
        return Err(CodecError::FramingError);
    }
    let n = get_u32_le(b, 16);
    if n > max_payload {
        return Err(CodecError::OversizedPayload);
    }
    Ok(HEADER_LEN as u64 + n as u64)
}

/// Decodes the envelope at the start of `b`. The checks come in this order:
/// a short header gives `FramingError`, a declared length above
/// `max_payload` gives `OversizedPayload` before any payload byte is read, a
/// short payload gives `FramingError`, a command field that is not a
/// NUL-padded name gives `MalformedField`, and a checksum that disagrees with
/// the payload gives `ChecksumMismatch`.
pub fn decode_envelope(b: &[u8], max_payload: u32) -> (r: Result<Envelope, CodecError>)
    ensures
        match parse_envelope(b@, max_payload) {
            Ok(v) => r is Ok && r->Ok_0@ == v,
            Err(e) => r == Err::<Envelope, CodecError>(e),
        },
{
    let total = match frame_length(b, max_payload) {
        Ok(t) => t,
        Err(e) => return Err(e),
    };
    if (b.len() as u64) < total {
        return Err(CodecError::FramingError);
    }
    let total = total as usize;
    let command = match get_command(b) {
        Some(c) => c,
        None => return Err(CodecError::MalformedField),
    };
    let sum = checksum(&b[HEADER_LEN..total]);
    if get_u32_le(b, 20) != sum {
        return Err(CodecError::ChecksumMismatch);
    }
    let mut payload: Vec<u8> = Vec::new();
    let mut i: usize = HEADER_LEN;
    while i < total
        invariant
            HEADER_LEN <= i <= total <= b@.len(),
            payload@ == b@.subrange(24, i as int),
        decreases total - i,
    {
        payload.push(b[i]);
        i = i + 1;
        assert(payload@ =~= b@.subrange(24, i as int));
    }
    Ok(Envelope { magic: get_u32_le(b, 0), command, payload })
}

/// The byte form of an envelope: magic, the command padded with NULs to
/// twelve bytes, the payload's length, its checksum, and the payload. Fails
/// with `EncodingError` exactly when the command is longer than twelve bytes.
pub fn encode_envelope(magic: u32, command: &[u8], payload: &[u8]) -> (r: Result<
    Vec<u8>,
    CodecError,
>)
    requires
        payload@.len() <= u32::MAX,
    ensures
        match r {
            Ok(v) => command@.len() <= 12 && v@ == envelope_bytes(
                EnvelopeView { magic, command: command@, payload: payload@ },
            ),
            Err(e) => command@.len() > 12 && e == CodecError::EncodingError,
        },
{
    if command.len() > COMMAND_LEN {
        return Err(CodecError::EncodingError);
    }
    let mut out: Vec<u8> = Vec::new();
    push_u32_le(&mut out, magic);
    out.extend_from_slice(command);
    let mut i: usize = command.len();
    while i < COMMAND_LEN
        invariant
            command@.len() <= i <= 12,
            out@ == u32_le(magic) + command@ + Seq::new(
                (i - command@.len()) as nat,
                |j: int| 0u8,
            ),
        decreases 12 - i,
    {
        out.push(0);
        i = i + 1;
        assert(out@ =~= u32_le(magic) + command@ + Seq::new(
            (i - command@.len()) as nat,
            |j: int| 0u8,
        ));
    }
    push_u32_le(&mut out, payload.len() as u32);
    push_u32_le(&mut out, checksum(payload));
    out.extend_from_slice(payload);
    assert(out@ =~= envelope_bytes(EnvelopeView { magic, command: command@, payload: payload@ }));
    Ok(out)
}

/// Input that ends before the payload that its header declares fails with
/// `FramingError`, whatever the other bytes of the header hold.
pub proof fn lemma_truncated_is_framing(b: Seq<u8>, max_payload: u32)
    requires
        b.len() >= 24,
        declared_len(b) <= max_payload,
        b.len() < 24 + declared_len(b),
    ensures
        parse_envelope(b, max_payload) == Err::<EnvelopeView, CodecError>(CodecError::FramingError),
{
}

/// A header that declares more than `max_payload` bytes fails with
/// `OversizedPayload`, however few bytes follow it and whatever the other
/// bytes of the header hold.
pub proof fn lemma_oversized(b: Seq<u8>, max_payload: u32)
    requires
        b.len() >= 24,
        declared_len(b) > max_payload,
    ensures
        parse_envelope(b, max_payload) == Err::<EnvelopeView, CodecError>(CodecError::OversizedPayload),
{
}

} // verus!
