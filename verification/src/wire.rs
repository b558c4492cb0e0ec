//! The fixed-size frame header: one tag byte followed by the payload length
//! in network byte order.

use byteorder::{ByteOrder, NetworkEndian};
use vstd::prelude::*;

verus! {

/// Width in bytes of the request-kind tag.
pub const KIND_SIZE: usize = 1;

/// Width in bytes of the payload-length field.
pub const LENGTH_SIZE: usize = 8;

/// Width in bytes of a whole header, derived from the widths of its fields.
pub const HEADER_SIZE: usize = KIND_SIZE + LENGTH_SIZE;

/// Largest payload length accepted when the caller configures nothing else.
pub const DEFAULT_MAX_PAYLOAD: usize = 16777216;

/// What can go wrong while receiving or decoding a frame.
#[derive(Debug, Clone, Copy, PartialEq, Eq, Structural)]
pub enum FrameError {
    /// Fewer bytes arrived than the frame needs.
    Truncated,
    /// The payload bytes are not an encoding of any payload.
    Malformed,
    /// The header announces more payload than the receiver accepts.
    TooLarge,
}

/// The header of a frame.
#[derive(Debug, Clone, Copy, PartialEq, Eq, Structural)]
pub struct Header {
    pub request_type: u8,
    pub payload_length: u64,
}

/// The unsigned number that eight bytes spell in network (big-endian) order.
pub open spec fn be_u64(b: Seq<u8>) -> u64
    recommends
        b.len() == 8,
{
    (b[0] as u64) << 56 | (b[1] as u64) << 48 | (b[2] as u64) << 40 | (b[3] as u64) << 32 | (
    b[4] as u64) << 24 | (b[5] as u64) << 16 | (b[6] as u64) << 8 | (b[7] as u64)
}

/// The eight bytes that spell `v` in network (big-endian) order.
pub open spec fn u64_be_bytes(v: u64) -> Seq<u8> {
    seq![
        ((v >> 56) & 0xff) as u8,
        ((v >> 48) & 0xff) as u8,
        ((v >> 40) & 0xff) as u8,
        ((v >> 32) & 0xff) as u8,
        ((v >> 24) & 0xff) as u8,
        ((v >> 16) & 0xff) as u8,
        ((v >> 8) & 0xff) as u8,
        (v & 0xff) as u8,
    ]
}

/// The nine bytes of a header on the wire.
pub open spec fn header_bytes(h: Header) -> Seq<u8> {
    seq![h.request_type] + u64_be_bytes(h.payload_length)
}

/// The header that the first nine bytes of `bytes` spell.
pub open spec fn header_of(bytes: Seq<u8>) -> Header
    recommends
        bytes.len() >= HEADER_SIZE,
{
    Header { request_type: bytes[0], payload_length: be_u64(bytes.subrange(1, 9)) }
}

/// Reading back the big-endian bytes of a number gives the number.
pub proof fn lemma_be_u64_of_bytes(v: u64)
    ensures
        u64_be_bytes(v).len() == 8,
        be_u64(u64_be_bytes(v)) == v,
{
    assert((((v >> 56) & 0xff) as u8 as u64) << 56 | (((v >> 48) & 0xff) as u8 as u64) << 48 | (((v
        >> 40) & 0xff) as u8 as u64) << 40 | (((v >> 32) & 0xff) as u8 as u64) << 32 | (((v >> 24)
        & 0xff) as u8 as u64) << 24 | (((v >> 16) & 0xff) as u8 as u64) << 16 | (((v >> 8) & 0xff) as u8 as u64)
        << 8 | ((v & 0xff) as u8 as u64) == v) by (bit_vector);
}

/// Writing out the number that eight bytes spell gives the same eight bytes.
pub proof fn lemma_bytes_of_be_u64(b: Seq<u8>)
    requires
        b.len() == 8,
    ensures
        u64_be_bytes(be_u64(b)) == b,
{
    let (b0, b1, b2, b3, b4, b5, b6, b7) = (b[0], b[1], b[2], b[3], b[4], b[5], b[6], b[7]);
    let v = be_u64(b);
    assert(v == (b0 as u64) << 56 | (b1 as u64) << 48 | (b2 as u64) << 40 | (b3 as u64) << 32 | (
    b4 as u64) << 24 | (b5 as u64) << 16 | (b6 as u64) << 8 | (b7 as u64));
    assert(v == (b0 as u64) << 56 | (b1 as u64) << 48 | (b2 as u64) << 40 | (b3 as u64) << 32 | (
    b4 as u64) << 24 | (b5 as u64) << 16 | (b6 as u64) << 8 | (b7 as u64) ==> ((v >> 56) & 0xff) as u8
        == b0 && ((v >> 48) & 0xff) as u8 == b1 && ((v >> 40) & 0xff) as u8 == b2 && ((v >> 32)
        & 0xff) as u8 == b3 && ((v >> 24) & 0xff) as u8 == b4 && ((v >> 16) & 0xff) as u8 == b5 && ((v
        >> 8) & 0xff) as u8 == b6 && (v & 0xff) as u8 == b7) by (bit_vector);
    assert(u64_be_bytes(v) =~= b);
}

/// `byteorder::NetworkEndian::read_u64`: the first eight bytes of `buf`, read
/// as a big-endian number. The outside function panics on a shorter buffer.
#[verifier::external_body]
fn read_network_u64(buf: &[u8]) -> (value: u64)
    requires
        buf@.len() >= 8,
    ensures
        value == be_u64(buf@.subrange(0, 8)),
{
    NetworkEndian::read_u64(buf)
}

/// `byteorder::NetworkEndian::write_u64`: overwrites the first eight bytes of
/// `buf` with the big-endian bytes of `value` and leaves the rest alone. The
/// outside function panics on a shorter buffer.
#[verifier::external_body]
fn write_network_u64(buf: &mut Vec<u8>, value: u64)
    requires
        old(buf)@.len() >= 8,
    ensures
        final(buf)@ == u64_be_bytes(value) + old(buf)@.subrange(8, old(buf)@.len() as int),
{
    NetworkEndian::write_u64(buf.as_mut_slice(), value)
}

/// Encodes a header: the tag byte, then the length in network byte order.
pub fn encode_header(kind: u8, length: u64) -> (out: Vec<u8>)
    ensures
        out@ == header_bytes(Header { request_type: kind, payload_length: length }),
        out@.len() == HEADER_SIZE,
{
    let mut field: Vec<u8> = Vec::new();
    while field.len() < LENGTH_SIZE
        invariant
            field@.len() <= LENGTH_SIZE,
        decreases LENGTH_SIZE - field@.len(),
    {
        field.push(0u8);
    }
    write_network_u64(&mut field, length);
    let mut out: Vec<u8> = Vec::new();
    out.push(kind);
    out.append(&mut field);
    proof {
        assert(out@ =~= header_bytes(Header { request_type: kind, payload_length: length }));
    }
    out
}

/// Decodes the header at the start of `bytes`. Bytes after the ninth are not
/// looked at; with fewer than nine there is no header yet.
pub fn decode_header(bytes: &[u8]) -> (r: Result<Header, FrameError>)
    ensures
        bytes@.len() < HEADER_SIZE <==> r is Err,
        r is Err ==> r == Err::<Header, FrameError>(FrameError::Truncated),
        r is Ok ==> r->Ok_0 == header_of(bytes@),
{
    if bytes.len() < HEADER_SIZE {
        return Err(FrameError::Truncated);
    }
    let kind = bytes[0];
    let field = &bytes[KIND_SIZE..HEADER_SIZE];
    let length = read_network_u64(field);
    proof {
        assert(field@.subrange(0, 8) =~= bytes@.subrange(1, 9));
    }
    Ok(Header { request_type: kind, payload_length: length })
}

/// A header survives a trip over the wire, whatever follows it.
pub proof fn lemma_header_round_trip(h: Header, rest: Seq<u8>)
    ensures
        header_bytes(h).len() == HEADER_SIZE,
        header_of(header_bytes(h) + rest) == h,
{
    lemma_be_u64_of_bytes(h.payload_length);
    assert((header_bytes(h) + rest).subrange(1, 9) =~= u64_be_bytes(h.payload_length));
}

/// Nine bytes that decode to a header are the encoding of that header.
pub proof fn lemma_header_bytes_unique(bytes: Seq<u8>)
    requires
        bytes.len() == HEADER_SIZE,
    ensures
        header_bytes(header_of(bytes)) == bytes,
{
    lemma_bytes_of_be_u64(bytes.subrange(1, 9));
    assert(header_bytes(header_of(bytes)) =~= bytes);
}

} // verus!
