//! The payload of a frame and whole requests: a source text with an optional
//! configuration text, in bincode's fixed-width little-endian layout.

use crate::exec::texts;
use crate::wire::{
    decode_header, encode_header, header_bytes, header_of, lemma_header_round_trip, FrameError,
    Header, HEADER_SIZE,
};
use bincode::Options;
use vstd::prelude::*;
use vstd::utf8::*;

verus! {

/// What a request carries after its header.
#[derive(Debug, Clone)]
pub struct Payload {
    pub code: String,
    pub config: Option<String>,
}

/// A payload as mathematics: its texts as sequences of characters.
pub struct PayloadView {
    pub code: Seq<char>,
    pub config: Option<Seq<char>>,
}

impl View for Payload {
    type V = PayloadView;

    open spec fn view(&self) -> PayloadView {
        PayloadView {
            code: self.code@,
            config: match self.config {
                Some(text) => Some(text@),
                None => None,
            },
        }
    }
}

/// A header together with the payload it announces.
#[derive(Debug, Clone)]
pub struct Request {
    pub header: Header,
    pub payload: Payload,
}

/// A request as mathematics.
pub struct RequestView {
    pub header: Header,
    pub payload: PayloadView,
}

impl View for Request {
    type V = RequestView;

    open spec fn view(&self) -> RequestView {
        RequestView { header: self.header, payload: self.payload@ }
    }
}

/// The eight bytes that spell `v` in little-endian order.
pub open spec fn u64_le_bytes(v: u64) -> Seq<u8> {
    seq![
        (v & 0xff) as u8,
        ((v >> 8) & 0xff) as u8,
        ((v >> 16) & 0xff) as u8,
        ((v >> 24) & 0xff) as u8,
        ((v >> 32) & 0xff) as u8,
        ((v >> 40) & 0xff) as u8,
        ((v >> 48) & 0xff) as u8,
        ((v >> 56) & 0xff) as u8,
    ]
}

/// The unsigned number that eight bytes spell in little-endian order.
pub open spec fn le_u64(b: Seq<u8>) -> u64
    recommends
        b.len() == 8,
{
    (b[7] as u64) << 56 | (b[6] as u64) << 48 | (b[5] as u64) << 40 | (b[4] as u64) << 32 | (
    b[3] as u64) << 24 | (b[2] as u64) << 16 | (b[1] as u64) << 8 | (b[0] as u64)
}

/// One text on the wire: the length of its UTF-8 form as a little-endian
/// 64-bit number, then the UTF-8 bytes.
pub open spec fn text_bytes(text: Seq<char>) -> Seq<u8> {
    u64_le_bytes(encode_utf8(text).len() as u64) + encode_utf8(text)
}

/// An optional text on the wire: a zero byte for none, a one byte and the
/// text otherwise.
pub open spec fn optional_text_bytes(text: Option<Seq<char>>) -> Seq<u8> {
    match text {
        None => seq![0u8],
        Some(t) => seq![1u8] + text_bytes(t),
    }
}

/// A payload on the wire: the code, then the optional configuration.
pub open spec fn payload_bytes(p: PayloadView) -> Seq<u8> {
    text_bytes(p.code) + optional_text_bytes(p.config)
}

/// A whole request on the wire: header, then payload.
pub open spec fn frame_bytes(r: RequestView) -> Seq<u8> {
    header_bytes(r.header) + payload_bytes(r.payload)
}

/// True when the UTF-8 length of each text of `p` fits the 64-bit length
/// field. Every payload held in memory is encodable.
pub open spec fn encodable(p: PayloadView) -> bool {
    &&& encode_utf8(p.code).len() <= u64::MAX
    &&& p.config is Some ==> encode_utf8(p.config->0).len() <= u64::MAX
}

/// True when the header of `r` announces exactly the encoded size of its
/// payload.
pub open spec fn well_formed(r: RequestView) -> bool {
    &&& encodable(r.payload)
    &&& r.header.payload_length == payload_bytes(r.payload).len()
}

/// The payload that `bytes` encodes, if they are the encoding of one.
pub open spec fn parse_payload(bytes: Seq<u8>) -> Option<PayloadView> {
    if exists|p: PayloadView| encodable(p) && #[trigger] payload_bytes(p) == bytes {
        Some(choose|p: PayloadView| encodable(p) && #[trigger] payload_bytes(p) == bytes)
    } else {
        None
    }
}

/// The header and the payload bytes of the frame at the start of a buffer,
/// for a receiver that accepts payloads of up to `max` bytes. The length is
/// judged before any payload byte is looked at.
pub open spec fn parse_raw_frame(bytes: Seq<u8>, max: usize) -> Result<
    (Header, Seq<u8>),
    FrameError,
> {
    if bytes.len() < HEADER_SIZE {
        Err(FrameError::Truncated)
    } else {
        let header = header_of(bytes);
        if header.payload_length > max {
            Err(FrameError::TooLarge)
        } else if bytes.len() < HEADER_SIZE + header.payload_length {
            Err(FrameError::Truncated)
        } else {
            Ok(
                (
                    header,
                    bytes.subrange(HEADER_SIZE as int, HEADER_SIZE + header.payload_length),
                ),
            )
        }
    }
}

/// What a receiver makes of a buffer that should start with one request.
pub open spec fn parse_frame(bytes: Seq<u8>, max: usize) -> Result<RequestView, FrameError> {
    match parse_raw_frame(bytes, max) {
        Err(e) => Err(e),
        Ok((header, body)) => match parse_payload(body) {
            Some(payload) => Ok(RequestView { header, payload }),
            None => Err(FrameError::Malformed),
        },
    }
}

/// The view of a split frame.
pub open spec fn raw_result_view(r: Result<(Header, &[u8]), FrameError>) -> Result<
    (Header, Seq<u8>),
    FrameError,
> {
    match r {
        Ok((header, body)) => Ok((header, body@)),
        Err(e) => Err(e),
    }
}

/// The view of a decoding result.
pub open spec fn request_result_view(r: Result<Request, FrameError>) -> Result<
    RequestView,
    FrameError,
> {
    match r {
        Ok(request) => Ok(request@),
        Err(e) => Err(e),
    }
}

proof fn lemma_le_u64_of_bytes(v: u64)
    ensures
        le_u64(u64_le_bytes(v)) == v,
{
    assert((((v >> 56) & 0xff) as u8 as u64) << 56 | (((v >> 48) & 0xff) as u8 as u64) << 48 | (((v
        >> 40) & 0xff) as u8 as u64) << 40 | (((v >> 32) & 0xff) as u8 as u64) << 32 | (((v >> 24)
        & 0xff) as u8 as u64) << 24 | (((v >> 16) & 0xff) as u8 as u64) << 16 | (((v >> 8)
        & 0xff) as u8 as u64) << 8 | ((v & 0xff) as u8 as u64) == v) by (bit_vector);
}

/// A text field can be told apart from whatever follows it: two buffers that
/// are equal and each start with a text start with the same text and go on
/// in the same way.
proof fn lemma_text_bytes_split(a: Seq<char>, x: Seq<u8>, b: Seq<char>, y: Seq<u8>)
    requires
        encode_utf8(a).len() <= u64::MAX,
        encode_utf8(b).len() <= u64::MAX,
        text_bytes(a) + x == text_bytes(b) + y,
    ensures
        a == b,
        x == y,
{
    let left = text_bytes(a) + x;
    let right = text_bytes(b) + y;
    let na = encode_utf8(a).len() as u64;
    let nb = encode_utf8(b).len() as u64;
    assert(left.subrange(0, 8) =~= u64_le_bytes(na));
    assert(right.subrange(0, 8) =~= u64_le_bytes(nb));
    lemma_le_u64_of_bytes(na);
    lemma_le_u64_of_bytes(nb);
    assert(na == nb);
    assert(left.subrange(8, 8 + na) =~= encode_utf8(a));
    assert(right.subrange(8, 8 + nb) =~= encode_utf8(b));
    encode_utf8_decode_utf8(a);
    encode_utf8_decode_utf8(b);
    assert(left.subrange(8 + na, left.len() as int) =~= x);
    assert(right.subrange(8 + nb, right.len() as int) =~= y);
}

/// Two encodable payloads with the same bytes are the same payload.
pub proof fn lemma_payload_bytes_injective(p: PayloadView, q: PayloadView)
    requires
        encodable(p),
        encodable(q),
        payload_bytes(p) == payload_bytes(q),
    ensures
        p == q,
{
    let tp = optional_text_bytes(p.config);
    let tq = optional_text_bytes(q.config);
    lemma_text_bytes_split(p.code, tp, q.code, tq);
    assert(tp[0] == tq[0]);
    match (p.config, q.config) {
        (Some(c), Some(d)) => {
            assert(tp.subrange(1, tp.len() as int) =~= text_bytes(c) + Seq::<u8>::empty());
            assert(tq.subrange(1, tq.len() as int) =~= text_bytes(d) + Seq::<u8>::empty());
            lemma_text_bytes_split(c, Seq::<u8>::empty(), d, Seq::<u8>::empty());
        },
        _ => {},
    }
}

/// Decoding what was encoded gives back the payload.
pub proof fn lemma_payload_round_trip(p: PayloadView)
    requires
        encodable(p),
    ensures
        parse_payload(payload_bytes(p)) == Some(p),
{
    let bytes = payload_bytes(p);
    let q = choose|q: PayloadView| encodable(q) && #[trigger] payload_bytes(q) == bytes;
    lemma_payload_bytes_injective(p, q);
}

/// Decoding an encoded request gives back the request, whatever bytes follow
/// it in the buffer, as long as the receiver accepts its length.
pub proof fn lemma_frame_round_trip(r: RequestView, rest: Seq<u8>, max: usize)
    requires
        well_formed(r),
        r.header.payload_length <= max,
    ensures
        parse_frame(frame_bytes(r) + rest, max) == Ok::<RequestView, FrameError>(r),
{
    let bytes = frame_bytes(r) + rest;
    lemma_header_round_trip(r.header, payload_bytes(r.payload) + rest);
    assert(bytes =~= header_bytes(r.header) + (payload_bytes(r.payload) + rest));
    assert(bytes.subrange(HEADER_SIZE as int, HEADER_SIZE + r.header.payload_length)
        =~= payload_bytes(r.payload));
    lemma_payload_round_trip(r.payload);
}

/// A request whose length exceeds what the receiver accepts is refused as too
/// large, however much of it has arrived.
pub proof fn lemma_oversized_frame_refused(bytes: Seq<u8>, max: usize)
    requires
        bytes.len() >= HEADER_SIZE,
        header_of(bytes).payload_length > max,
    ensures
        parse_raw_frame(bytes, max) == Err::<(Header, Seq<u8>), FrameError>(FrameError::TooLarge),
        parse_frame(bytes, max) == Err::<RequestView, FrameError>(FrameError::TooLarge),
{
}

/// The error that bincode reports; nothing is read from it.
#[verifier::external_type_specification]
#[verifier::external_body]
pub struct ExBincodeErrorKind(bincode::ErrorKind);

/// `bincode::serialize` on the pair of a payload's fields. With the crate's
/// default options for this function (fixed-width integers, little-endian,
/// no size limit) a string is its byte length as a `u64` followed by its
/// bytes, an option is a tag byte 0 or 1 followed by the value if there is
/// one, and a pair is its members one after the other. Writing into a vector
/// with no limit set has no failing step for these types, so the call
/// succeeds.
#[verifier::external_body]
fn bincode_serialize(code: &String, config: &Option<String>) -> (r: Result<
    Vec<u8>,
    Box<bincode::ErrorKind>,
>)
    ensures
        r is Ok,
        r->Ok_0@ == payload_bytes(
            (Payload { code: *code, config: *config })@,
        ),
{
    bincode::serialize(&(code, config))
}

/// `bincode::Options::deserialize` with fixed-width integers, asked for a
/// pair of a string and an optional string. It succeeds exactly on the bytes
/// that `bincode_serialize` produces: a wrong tag byte, a length that runs
/// past the end, text that is not UTF-8 and bytes left over are all errors.
#[verifier::external_body]
fn bincode_deserialize(bytes: &[u8]) -> (r: Result<(String, Option<String>), Box<bincode::ErrorKind>>)
    ensures
        r is Ok ==> bytes@ == payload_bytes((Payload { code: r->Ok_0.0, config: r->Ok_0.1 })@),
        r is Err ==> forall|p: PayloadView| bytes@ != #[trigger] payload_bytes(p),
{
    bincode::DefaultOptions::new().with_fixint_encoding().deserialize(bytes)
}

/// Encodes a payload. Never fails: the result is always `Ok`.
pub fn encode_payload(payload: &Payload) -> (r: Result<Vec<u8>, FrameError>)
    ensures
        r is Ok,
        r->Ok_0@ == payload_bytes(payload@),
        encodable(payload@),
{
    match bincode_serialize(&payload.code, &payload.config) {
        Ok(bytes) => {
            let _n: usize = bytes.len();
            Ok(bytes)
        },
        Err(_) => Err(FrameError::Malformed),
    }
}

/// Decodes a payload from exactly the bytes that encode it.
pub fn decode_payload(bytes: &[u8]) -> (r: Result<Payload, FrameError>)
    ensures
        match r {
            Ok(payload) => parse_payload(bytes@) == Some(payload@) && payload_bytes(payload@)
                == bytes@,
            Err(e) => e == FrameError::Malformed && parse_payload(bytes@) is None,
        },
{
    match bincode_deserialize(bytes) {
        Ok((code, config)) => {
            let payload = Payload { code, config };
            let _n: usize = bytes.len();
            proof {
                lemma_payload_round_trip(payload@);
            }
            Ok(payload)
        },
        Err(_) => Err(FrameError::Malformed),
    }
}

impl Request {
    /// Builds a request whose header announces the encoded size of its
    /// payload. Never fails: the result is always `Ok`.
    pub fn new(request_type: u8, code: String, config: Option<String>) -> (r: Result<
        Request,
        FrameError,
    >)
        ensures
            r is Ok,
            r->Ok_0@.header.request_type == request_type,
            r->Ok_0@.payload == (PayloadView {
                code: code@,
                config: match config {
                    Some(text) => Some(text@),
                    None => None,
                },
            }),
            well_formed(r->Ok_0@),
    {
        let payload = Payload { code, config };
        match encode_payload(&payload) {
            Ok(bytes) => {
                let payload_length: u64 = bytes.len() as u64;
                Ok(Request { header: Header { request_type, payload_length }, payload })
            },
            Err(e) => Err(e),
        }
    }

    /// The request as it goes over the wire: the header as it stands, then
    /// the encoded payload. Never fails: the result is always `Ok`.
    pub fn encode(&self) -> (r: Result<Vec<u8>, FrameError>)
        ensures
            r is Ok,
            r->Ok_0@ == frame_bytes(self@),
            encodable(self@.payload),
    {
        match encode_payload(&self.payload) {
            Ok(mut body) => {
                let mut out = encode_header(self.header.request_type, self.header.payload_length);
                out.append(&mut body);
                Ok(out)
            },
            Err(e) => Err(e),
        }
    }
}

/// Splits the frame at the start of `bytes` into its header and its payload
/// bytes, accepting payloads of up to `max` bytes. Bytes after the frame are
/// not looked at.
pub fn split_frame(bytes: &[u8], max: usize) -> (r: Result<(Header, &[u8]), FrameError>)
    ensures
        raw_result_view(r) == parse_raw_frame(bytes@, max),
{
    let header = match decode_header(bytes) {
        Ok(header) => header,
        Err(e) => {
            return Err(e);
        },
    };
    if header.payload_length > max as u64 {
        return Err(FrameError::TooLarge);
    }
    let available: usize = bytes.len() - HEADER_SIZE;
    if (available as u64) < header.payload_length {
        return Err(FrameError::Truncated);
    }
    let length: usize = header.payload_length as usize;
    Ok((header, &bytes[HEADER_SIZE..HEADER_SIZE + length]))
}

/// Decodes the request at the start of `bytes`, accepting payloads of up to
/// `max` bytes. Bytes after the frame are not looked at.
pub fn decode_frame(bytes: &[u8], max: usize) -> (r: Result<Request, FrameError>)
    ensures
        request_result_view(r) == parse_frame(bytes@, max),
{
    match split_frame(bytes, max) {
        Ok((header, body)) => match decode_payload(body) {
            Ok(payload) => Ok(Request { header, payload }),
            Err(e) => Err(e),
        },
        Err(e) => Err(e),
    }
}

/// Frames a body of any kind: a header that announces its length, then the
/// body as it is. This is how raw output goes back to the peer.
pub fn encode_frame(kind: u8, body: &[u8]) -> (out: Vec<u8>)
    ensures
        out@ == header_bytes(Header { request_type: kind, payload_length: body@.len() as u64 })
            + body@,
{
    let mut out = encode_header(kind, body.len() as u64);
    let ghost head = out@;
    let mut i: usize = 0;
    while i < body.len()
        invariant
            i <= body@.len(),
            out@ == head + body@.subrange(0, i as int),
        decreases body@.len() - i,
    {
        out.push(body[i]);
        proof {
            assert(body@.subrange(0, i + 1) =~= body@.subrange(0, i as int).push(body@[i as int]));
            assert(out@ =~= head + body@.subrange(0, i + 1));
        }
        i = i + 1;
    }
    proof {
        assert(body@.subrange(0, i as int) =~= body@);
    }
    out
}

/// What an execution request carries after its header: the words of the
/// command.
#[derive(Debug, Clone)]
pub struct CommandPayload {
    pub command: Vec<String>,
}

/// Texts on the wire one after the other.
pub open spec fn words_bytes(words: Seq<Seq<char>>) -> Seq<u8>
    decreases words.len(),
{
    if words.len() == 0 {
        Seq::empty()
    } else {
        text_bytes(words.first()) + words_bytes(words.drop_first())
    }
}

/// A command on the wire: the number of its words as a little-endian 64-bit
/// number, then the words.
pub open spec fn command_bytes(words: Seq<Seq<char>>) -> Seq<u8> {
    u64_le_bytes(words.len() as u64) + words_bytes(words)
}

/// True when the number of words and the UTF-8 length of each fit their
/// 64-bit fields. Every command held in memory is encodable.
pub open spec fn encodable_command(words: Seq<Seq<char>>) -> bool {
    &&& words.len() <= u64::MAX
    &&& forall|i: int| 0 <= i < words.len() ==> encode_utf8(#[trigger] words[i]).len() <= u64::MAX
}

/// The command that `bytes` encode, if they are the encoding of one.
pub open spec fn parse_command(bytes: Seq<u8>) -> Option<Seq<Seq<char>>> {
    if exists|w: Seq<Seq<char>>| encodable_command(w) && #[trigger] command_bytes(w) == bytes {
        Some(choose|w: Seq<Seq<char>>| encodable_command(w) && #[trigger] command_bytes(w) == bytes)
    } else {
        None
    }
}

proof fn lemma_words_bytes_split(a: Seq<Seq<char>>, x: Seq<u8>, b: Seq<Seq<char>>, y: Seq<u8>)
    requires
        a.len() == b.len(),
        encodable_command(a),
        encodable_command(b),
        words_bytes(a) + x == words_bytes(b) + y,
    ensures
        a == b,
        x == y,
    decreases a.len(),
{
    if a.len() == 0 {
        assert(words_bytes(a) + x =~= x);
        assert(words_bytes(b) + y =~= y);
        assert(a =~= b);
    } else {
        let ra = a.drop_first();
        let rb = b.drop_first();
        assert(words_bytes(a) + x =~= text_bytes(a.first()) + (words_bytes(ra) + x));
        assert(words_bytes(b) + y =~= text_bytes(b.first()) + (words_bytes(rb) + y));
        lemma_text_bytes_split(a.first(), words_bytes(ra) + x, b.first(), words_bytes(rb) + y);
        assert(encodable_command(ra)) by {
            assert forall|i: int| 0 <= i < ra.len() implies encode_utf8(#[trigger] ra[i]).len()
                <= u64::MAX by {
                assert(ra[i] == a[i + 1]);
            }
        }
        assert(encodable_command(rb)) by {
            assert forall|i: int| 0 <= i < rb.len() implies encode_utf8(#[trigger] rb[i]).len()
                <= u64::MAX by {
                assert(rb[i] == b[i + 1]);
            }
        }
        lemma_words_bytes_split(ra, x, rb, y);
        assert(a =~= seq![a.first()] + ra);
        assert(b =~= seq![b.first()] + rb);
    }
}

/// Each word takes its own room in the encoding.
proof fn lemma_words_bytes_len(words: Seq<Seq<char>>)
    ensures
        words_bytes(words).len() >= 8 * words.len(),
        forall|i: int|
            0 <= i < words.len() ==> encode_utf8(#[trigger] words[i]).len() <= words_bytes(
                words,
            ).len(),
    decreases words.len(),
{
    if words.len() > 0 {
        let rest = words.drop_first();
        lemma_words_bytes_len(rest);
        assert forall|i: int| 0 <= i < words.len() implies encode_utf8(
            #[trigger] words[i],
        ).len() <= words_bytes(words).len() by {
            if i > 0 {
                assert(words[i] == rest[i - 1]);
            }
        }
    }
}

/// Two encodable commands with the same bytes are the same command.
pub proof fn lemma_command_bytes_injective(a: Seq<Seq<char>>, b: Seq<Seq<char>>)
    requires
        encodable_command(a),
        encodable_command(b),
        command_bytes(a) == command_bytes(b),
    ensures
        a == b,
{
    let left = command_bytes(a);
    let right = command_bytes(b);
    assert(left.subrange(0, 8) =~= u64_le_bytes(a.len() as u64));
    assert(right.subrange(0, 8) =~= u64_le_bytes(b.len() as u64));
    lemma_le_u64_of_bytes(a.len() as u64);
    lemma_le_u64_of_bytes(b.len() as u64);
    assert(left.subrange(8, left.len() as int) =~= words_bytes(a) + Seq::<u8>::empty());
    assert(right.subrange(8, right.len() as int) =~= words_bytes(b) + Seq::<u8>::empty());
    lemma_words_bytes_split(a, Seq::<u8>::empty(), b, Seq::<u8>::empty());
}

/// Decoding what was encoded gives back the command.
pub proof fn lemma_command_round_trip(words: Seq<Seq<char>>)
    requires
        encodable_command(words),
    ensures
        parse_command(command_bytes(words)) == Some(words),
{
    let bytes = command_bytes(words);
    let w = choose|w: Seq<Seq<char>>| encodable_command(w) && #[trigger] command_bytes(w) == bytes;
    lemma_command_bytes_injective(words, w);
}

/// `bincode::serialize` on a vector of strings. With the crate's default
/// options for this function a vector is the number of its items as a `u64`
/// followed by the items, and a string is its byte length as a `u64`
/// followed by its bytes, all fixed-width and little-endian. Writing into a
/// vector with no limit set has no failing step for these types, so the
/// call succeeds.
#[verifier::external_body]
fn bincode_serialize_words(words: &Vec<String>) -> (r: Result<Vec<u8>, Box<bincode::ErrorKind>>)
    ensures
        r is Ok,
        r->Ok_0@ == command_bytes(texts(words@)),
{
    bincode::serialize(words)
}

/// `bincode::Options::deserialize` with fixed-width integers, asked for a
/// vector of strings. It succeeds exactly on the bytes that
/// `bincode_serialize_words` produces: a count or a length that runs past
/// the end, text that is not UTF-8 and bytes left over are all errors.
#[verifier::external_body]
fn bincode_deserialize_words(bytes: &[u8]) -> (r: Result<Vec<String>, Box<bincode::ErrorKind>>)
    ensures
        r is Ok ==> bytes@ == command_bytes(texts(r->Ok_0@)),
        r is Err ==> forall|w: Seq<Seq<char>>| bytes@ != #[trigger] command_bytes(w),
{
    bincode::DefaultOptions::new().with_fixint_encoding().deserialize(bytes)
}

/// Encodes a command. Never fails: the result is always `Ok`.
pub fn encode_command(payload: &CommandPayload) -> (r: Result<Vec<u8>, FrameError>)
    ensures
        r is Ok,
        r->Ok_0@ == command_bytes(texts(payload.command@)),
        encodable_command(texts(payload.command@)),
{
    match bincode_serialize_words(&payload.command) {
        Ok(bytes) => {
            let _n: usize = bytes.len();
            proof {
                lemma_words_bytes_len(texts(payload.command@));
            }
            Ok(bytes)
        },
        Err(_) => Err(FrameError::Malformed),
    }
}

/// Decodes a command from exactly the bytes that encode it.
pub fn decode_command(bytes: &[u8]) -> (r: Result<CommandPayload, FrameError>)
    ensures
        match r {
            Ok(payload) => parse_command(bytes@) == Some(texts(payload.command@)) && command_bytes(
                texts(payload.command@),
            ) == bytes@,
            Err(e) => e == FrameError::Malformed && parse_command(bytes@) is None,
        },
{
    match bincode_deserialize_words(bytes) {
        Ok(command) => {
            let _n: usize = bytes.len();
            proof {
                lemma_words_bytes_len(texts(command@));
                lemma_command_round_trip(texts(command@));
            }
            Ok(CommandPayload { command })
        },
        Err(_) => Err(FrameError::Malformed),
    }
}

} // verus!
