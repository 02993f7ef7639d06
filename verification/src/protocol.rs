//! The fixed binary envelope of the wire protocol: a 5-byte magic/version
//! tag, an 8-byte little-endian payload length, then the payload bytes.

use vstd::bytes::{
    lemma_auto_spec_u64_to_from_le_bytes, spec_u64_from_le_bytes, spec_u64_to_le_bytes,
    u64_from_le_bytes, u64_to_le_bytes,
};
use vstd::prelude::*;
use vstd::slice::slice_subrange;

verus! {

/// The 5 bytes that open every frame: `b"ZBXD"` followed by the version byte 1.
pub const MAGIC: [u8; 5] = [0x5a, 0x42, 0x58, 0x44, 0x01];

pub open spec fn spec_magic() -> Seq<u8> {
    seq![0x5au8, 0x42u8, 0x58u8, 0x44u8, 0x01u8]
}

/// The complete frame carrying `payload`: magic, little-endian length, payload.
pub open spec fn spec_frame(payload: Seq<u8>) -> Seq<u8>
    recommends
        payload.len() <= u64::MAX,
{
    spec_magic() + spec_u64_to_le_bytes(payload.len() as u64) + payload
}

/// How a received frame or frame header can be malformed.
#[derive(Clone, Copy, Debug, PartialEq, Eq, Structural)]
pub enum FrameError {
    /// Fewer bytes than the 13 a header needs.
    TooShort,
    /// The first 5 bytes are not the magic constant.
    BadHeader,
    /// The header declares a zero-length body.
    EmptyBody,
    /// The bytes after the header do not match the declared length.
    LengthMismatch,
}

/// The endpoint one exchange talks to. Opening the connection and moving
/// bytes is the caller's job; this type only carries the address.
#[derive(Clone, Debug)]
pub struct ZabbixProtocol {
    pub server: String,
    pub port: u16,
}

impl ZabbixProtocol {
    pub fn new(server: &str, port: u16) -> (r: Self)
        ensures
            r.server@ == server@,
            r.port == port,
    {
        ZabbixProtocol { server: server.to_owned(), port }
    }
}

/// True when `h` starts with the magic constant.
pub open spec fn spec_magic_ok(h: Seq<u8>) -> bool {
    h.len() >= 5 && h.subrange(0, 5) == spec_magic()
}

/// What a received 13-byte header means: the declared body length, or the
/// protocol error it is rejected with. The magic is checked before the
/// length field is even looked at; a zero declared length is refused.
pub open spec fn spec_parse_header(h: Seq<u8>) -> Result<u64, FrameError>
    recommends
        h.len() == 13,
{
    if !spec_magic_ok(h) {
        Err(FrameError::BadHeader)
    } else if spec_u64_from_le_bytes(h.subrange(5, 13)) == 0 {
        Err(FrameError::EmptyBody)
    } else {
        Ok(spec_u64_from_le_bytes(h.subrange(5, 13)))
    }
}

/// What a complete inbound byte buffer decodes to: the payload, or the
/// first error in header length, magic, then declared-length order.
/// A zero-length payload is accepted here; rejecting an empty response
/// body is the exchange's business (`spec_parse_header`).
pub open spec fn spec_decode(buf: Seq<u8>) -> Result<Seq<u8>, FrameError> {
    if buf.len() < 13 {
        Err(FrameError::TooShort)
    } else if !spec_magic_ok(buf) {
        Err(FrameError::BadHeader)
    } else if buf.len() - 13 != spec_u64_from_le_bytes(buf.subrange(5, 13)) {
        Err(FrameError::LengthMismatch)
    } else {
        Ok(buf.subrange(13, buf.len() as int))
    }
}

/// Builds the frame that carries `payload`: always succeeds and yields
/// exactly `5 + 8 + payload.len()` bytes.
pub fn encode(payload: &[u8]) -> (r: Vec<u8>)
    ensures
        r@ == spec_frame(payload@),
        r@.len() == 13 + payload@.len(),
{
    let mut out: Vec<u8> = Vec::new();
    out.push(0x5a);
    out.push(0x42);
    out.push(0x58);
    out.push(0x44);
    out.push(0x01);
    let mut len_bytes = u64_to_le_bytes(payload.len() as u64);
    out.append(&mut len_bytes);
    let mut i: usize = 0;
    while i < payload.len()
        invariant
            i <= payload@.len(),
            out@ == spec_magic() + spec_u64_to_le_bytes(payload@.len() as u64) + payload@.subrange(
                0,
                i as int,
            ),
        decreases payload@.len() - i,
    {
        out.push(payload[i]);
        i += 1;
        assert(payload@.subrange(0, i as int) == payload@.subrange(0, i - 1 as int).push(
            payload@[i - 1],
        ));
    }
    assert(payload@.subrange(0, payload@.len() as int) == payload@);
    out
}

/// True iff `header` is long enough and opens with the magic constant,
/// byte for byte.
pub fn validate_header(header: &[u8]) -> (r: bool)
    ensures
        r == spec_magic_ok(header@),
{
    if header.len() < 5 {
        return false;
    }
    let mut i: usize = 0;
    while i < 5
        invariant
            i <= 5,
            header@.len() >= 5,
            forall|j: int| 0 <= j < i ==> header@[j] == spec_magic()[j],
        decreases 5 - i,
    {
        if header[i] != MAGIC[i] {
            assert(header@.subrange(0, 5)[i as int] != spec_magic()[i as int]);
            return false;
        }
        i += 1;
    }
    assert(header@.subrange(0, 5) =~= spec_magic());
    true
}

/// Reads the 13-byte response header: checks the magic, then extracts the
/// declared body length, refusing a declared length of zero.
pub fn parse_header(header: &[u8]) -> (r: Result<u64, FrameError>)
    requires
        header@.len() == 13,
    ensures
        r == spec_parse_header(header@),
{
    if !validate_header(header) {
        return Err(FrameError::BadHeader);
    }
    let len = u64_from_le_bytes(slice_subrange(header, 5, 13));
    if len == 0 {
        Err(FrameError::EmptyBody)
    } else {
        Ok(len)
    }
}

/// Decodes a complete frame held in one buffer back into its payload.
pub fn decode(buf: &[u8]) -> (r: Result<Vec<u8>, FrameError>)
    ensures
        match r {
            Ok(payload) => spec_decode(buf@) == Ok::<Seq<u8>, FrameError>(payload@),
            Err(e) => spec_decode(buf@) == Err::<Seq<u8>, FrameError>(e),
        },
{
    if buf.len() < 13 {
        return Err(FrameError::TooShort);
    }
    if !validate_header(buf) {
        return Err(FrameError::BadHeader);
    }
    let len = u64_from_le_bytes(slice_subrange(buf, 5, 13));
    if (buf.len() - 13) as u64 != len {
        return Err(FrameError::LengthMismatch);
    }
    let payload = slice_to_vec_bytes(slice_subrange(buf, 13, buf.len()));
    Ok(payload)
}

/// Copies a byte slice into an owned vector.
fn slice_to_vec_bytes(s: &[u8]) -> (r: Vec<u8>)
    ensures
        r@ == s@,
{
    let mut out: Vec<u8> = Vec::new();
    let mut i: usize = 0;
    while i < s.len()
        invariant
            i <= s@.len(),
            out@ == s@.subrange(0, i as int),
        decreases s@.len() - i,
    {
        out.push(s[i]);
        i += 1;
        assert(s@.subrange(0, i as int) == s@.subrange(0, i - 1 as int).push(s@[i - 1]));
    }
    assert(s@.subrange(0, s@.len() as int) == s@);
    out
}

/// Framing round-trip: decoding the frame built for any payload, empty
/// ones included, yields that payload back, and the frame always opens
/// with the magic constant.
pub proof fn lemma_frame_round_trip(payload: Seq<u8>)
    requires
        payload.len() <= u64::MAX,
    ensures
        spec_decode(spec_frame(payload)) == Ok::<Seq<u8>, FrameError>(payload),
        spec_magic_ok(spec_frame(payload)),
{
    lemma_auto_spec_u64_to_from_le_bytes();
    let f = spec_frame(payload);
    assert(f.subrange(0, 5) =~= spec_magic());
    assert(f.subrange(5, 13) =~= spec_u64_to_le_bytes(payload.len() as u64));
    assert(f.subrange(13, f.len() as int) =~= payload);
}

/// Header rejection: a 13-byte header whose first 5 bytes differ from the
/// magic constant is refused as a bad header, whatever the trailing
/// length field holds.
pub proof fn lemma_header_rejection(h: Seq<u8>)
    requires
        h.len() == 13,
        h.subrange(0, 5) != spec_magic(),
    ensures
        spec_parse_header(h) == Err::<u64, FrameError>(FrameError::BadHeader),
{
}

} // verus!
