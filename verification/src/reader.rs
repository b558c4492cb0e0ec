//! Receiving one frame from a connection that hands over its bytes in pieces
//! of any size. The reader only decides; the caller does the reading.

use crate::payload::{
    decode_payload, parse_frame, parse_raw_frame, request_result_view, Request,
};
use crate::wire::{decode_header, header_of, FrameError, Header, HEADER_SIZE};
use vstd::prelude::*;

verus! {

/// How many more bytes a receiver that accepts payloads of up to `max` bytes
/// has to read after `stream` before it can judge the frame: the rest of the
/// header first, then the rest of the payload that the header announces.
/// Nothing once the frame is complete or its length is refused.
pub open spec fn missing(stream: Seq<u8>, max: usize) -> nat {
    if stream.len() < HEADER_SIZE {
        (HEADER_SIZE - stream.len()) as nat
    } else if header_of(stream).payload_length > max {
        0
    } else if stream.len() < HEADER_SIZE + header_of(stream).payload_length {
        (HEADER_SIZE + header_of(stream).payload_length - stream.len()) as nat
    } else {
        0
    }
}

/// The state of one frame being received.
pub struct FrameReader {
    max: usize,
    head: Vec<u8>,
    body: Vec<u8>,
}

impl FrameReader {
    /// True of every reader that `new` made and `feed` changed: the payload
    /// buffer holds nothing before the header is complete and accepted, and
    /// never more than the header announces.
    pub closed spec fn wf(self) -> bool {
        &&& self.head@.len() <= HEADER_SIZE
        &&& self.head@.len() < HEADER_SIZE ==> self.body@.len() == 0
        &&& self.head@.len() == HEADER_SIZE ==> if header_of(self.head@).payload_length
            > self.max {
            self.body@.len() == 0
        } else {
            self.body@.len() <= header_of(self.head@).payload_length
        }
    }

    /// Every byte taken from the connection so far, in order.
    pub closed spec fn received(self) -> Seq<u8> {
        self.head@ + self.body@
    }

    /// The largest payload length this reader accepts.
    pub closed spec fn limit(self) -> usize {
        self.max
    }

    /// The number of payload bytes held in memory.
    pub closed spec fn buffered(self) -> nat {
        self.body@.len()
    }

    /// A reader that has received nothing and accepts payloads of up to
    /// `max` bytes.
    pub fn new(max: usize) -> (reader: FrameReader)
        ensures
            reader.wf(),
            reader.received() == Seq::<u8>::empty(),
            reader.limit() == max,
            reader.buffered() == 0,
    {
        FrameReader { max, head: Vec::new(), body: Vec::new() }
    }

    proof fn lemma_shape(self)
        requires
            self.wf(),
        ensures
            self.received().len() == self.head@.len() + self.body@.len(),
            self.head@.len() == HEADER_SIZE ==> header_of(self.received()) == header_of(
                self.head@,
            ),
            self.buffered() <= self.limit(),
            self.received().len() <= HEADER_SIZE + self.limit(),
            self.received().len() >= HEADER_SIZE && header_of(self.received()).payload_length
                > self.limit() ==> self.buffered() == 0,
            self.head@.len() == HEADER_SIZE ==> self.received().subrange(
                HEADER_SIZE as int,
                self.received().len() as int,
            ) == self.body@,
    {
        if self.head@.len() == HEADER_SIZE {
            assert(self.received().subrange(1, 9) =~= self.head@.subrange(1, 9));
            assert(self.received().subrange(HEADER_SIZE as int, self.received().len() as int)
                =~= self.body@);
        }
    }

    /// How many bytes to read next. Zero means: stop reading and call
    /// `finish`.
    pub fn wanted(&self) -> (n: usize)
        requires
            self.wf(),
        ensures
            n == missing(self.received(), self.limit()),
    {
        proof {
            self.lemma_shape();
        }
        if self.head.len() < HEADER_SIZE {
            return HEADER_SIZE - self.head.len();
        }
        match decode_header(self.head.as_slice()) {
            Ok(header) => {
                if header.payload_length > self.max as u64 {
                    0
                } else {
                    header.payload_length as usize - self.body.len()
                }
            },
            Err(_) => 0,
        }
    }

    /// Takes bytes that arrived on the connection, in order, until the chunk
    /// is used up or nothing more is wanted, and says how many it took. The
    /// payload buffer grows only by bytes that arrived and never beyond the
    /// accepted limit.
    pub fn feed(&mut self, chunk: &[u8]) -> (taken: usize)
        requires
            old(self).wf(),
        ensures
            final(self).wf(),
            final(self).limit() == old(self).limit(),
            taken <= chunk@.len(),
            final(self).received() == old(self).received() + chunk@.subrange(0, taken as int),
            forall|k: int|
                0 <= k < taken ==> missing(
                    old(self).received() + #[trigger] chunk@.subrange(0, k),
                    old(self).limit(),
                ) > 0,
            taken < chunk@.len() ==> missing(final(self).received(), final(self).limit()) == 0,
            final(self).buffered() <= final(self).limit(),
            final(self).received().len() >= HEADER_SIZE && header_of(
                final(self).received(),
            ).payload_length > final(self).limit() ==> final(self).buffered() == 0,
    {
        let mut taken: usize = 0;
        while taken < chunk.len() && self.wanted() > 0
            invariant
                self.wf(),
                taken <= chunk@.len(),
                self.limit() == old(self).limit(),
                self.received() == old(self).received() + chunk@.subrange(0, taken as int),
                forall|k: int|
                    0 <= k < taken ==> missing(
                        old(self).received() + #[trigger] chunk@.subrange(0, k),
                        old(self).limit(),
                    ) > 0,
            decreases chunk@.len() - taken,
        {
            let byte = chunk[taken];
            proof {
                self.lemma_shape();
            }
            let ghost before = self.received();
            if self.head.len() < HEADER_SIZE {
                self.head.push(byte);
            } else {
                self.body.push(byte);
            }
            proof {
                assert(self.received() =~= before.push(byte));
                assert(chunk@.subrange(0, taken + 1) =~= chunk@.subrange(0, taken as int).push(
                    byte,
                ));
            }
            taken = taken + 1;
        }
        proof {
            self.lemma_shape();
        }
        taken
    }

    /// The outcome once nothing more is wanted or the connection has closed:
    /// the header and the payload bytes, or why there are none. A stream that
    /// ended early is truncated; a length beyond the limit is too large
    /// whatever followed.
    pub fn finish_raw(self) -> (r: Result<(Header, Vec<u8>), FrameError>)
        requires
            self.wf(),
        ensures
            raw_frame_view(r) == parse_raw_frame(self.received(), self.limit()),
    {
        proof {
            self.lemma_shape();
        }
        let header = match decode_header(self.head.as_slice()) {
            Ok(header) => header,
            Err(e) => {
                return Err(e);
            },
        };
        if header.payload_length > self.max as u64 {
            return Err(FrameError::TooLarge);
        }
        if (self.body.len() as u64) < header.payload_length {
            return Err(FrameError::Truncated);
        }
        proof {
            assert(self.received().subrange(
                HEADER_SIZE as int,
                HEADER_SIZE + header.payload_length,
            ) =~= self.body@);
        }
        Ok((header, self.body))
    }

    /// The outcome as a request with a code payload.
    pub fn finish(self) -> (r: Result<Request, FrameError>)
        requires
            self.wf(),
        ensures
            request_result_view(r) == parse_frame(self.received(), self.limit()),
    {
        match self.finish_raw() {
            Ok((header, body)) => match decode_payload(body.as_slice()) {
                Ok(payload) => Ok(Request { header, payload }),
                Err(e) => Err(e),
            },
            Err(e) => Err(e),
        }
    }
}

/// The view of a received frame.
pub open spec fn raw_frame_view(r: Result<(Header, Vec<u8>), FrameError>) -> Result<
    (Header, Seq<u8>),
    FrameError,
> {
    match r {
        Ok((header, body)) => Ok((header, body@)),
        Err(e) => Err(e),
    }
}

/// The pieces of a stream put together in order.
pub open spec fn concat(chunks: Seq<Vec<u8>>) -> Seq<u8>
    decreases chunks.len(),
{
    if chunks.len() == 0 {
        Seq::empty()
    } else {
        concat(chunks.drop_last()) + chunks.last()@
    }
}

/// Once nothing more is wanted, nothing that follows changes the outcome.
pub proof fn lemma_complete_frame_ignores_rest(stream: Seq<u8>, rest: Seq<u8>, max: usize)
    requires
        missing(stream, max) == 0,
    ensures
        missing(stream + rest, max) == 0,
        parse_raw_frame(stream + rest, max) == parse_raw_frame(stream, max),
        parse_frame(stream + rest, max) == parse_frame(stream, max),
{
    let whole = stream + rest;
    assert(whole.subrange(1, 9) =~= stream.subrange(1, 9));
    let header = header_of(stream);
    if header.payload_length <= max {
        assert(whole.subrange(HEADER_SIZE as int, HEADER_SIZE + header.payload_length)
            =~= stream.subrange(HEADER_SIZE as int, HEADER_SIZE + header.payload_length));
    }
}

/// Receives a request from a stream that arrived in pieces. How the stream
/// was cut makes no difference: the outcome is that of decoding the pieces
/// put together.
pub fn decode_chunks(chunks: &Vec<Vec<u8>>, max: usize) -> (r: Result<Request, FrameError>)
    ensures
        request_result_view(r) == parse_frame(concat(chunks@), max),
{
    let mut reader = FrameReader::new(max);
    let mut i: usize = 0;
    proof {
        assert(concat(chunks@.subrange(0, 0)) =~= Seq::<u8>::empty());
    }
    while i < chunks.len()
        invariant
            i <= chunks@.len(),
            reader.wf(),
            reader.limit() == max,
            reader.received().is_prefix_of(concat(chunks@.subrange(0, i as int))),
            missing(reader.received(), max) > 0 ==> reader.received() == concat(
                chunks@.subrange(0, i as int),
            ),
        decreases chunks@.len() - i,
    {
        let ghost before = reader.received();
        let ghost total = concat(chunks@.subrange(0, i as int));
        let taken = reader.feed(chunks[i].as_slice());
        proof {
            let piece = chunks@[i as int]@;
            assert(chunks@.subrange(0, i + 1).drop_last() =~= chunks@.subrange(0, i as int));
            assert(concat(chunks@.subrange(0, i + 1)) == total + piece);
            if missing(before, max) == 0 {
                if taken > 0 {
                    assert(before + piece.subrange(0, 0) =~= before);
                }
                assert(piece.subrange(0, 0) =~= Seq::<u8>::empty());
                assert(reader.received() =~= before);
            } else {
                if taken == piece.len() {
                    assert(piece.subrange(0, taken as int) =~= piece);
                }
            }
            assert(reader.received().is_prefix_of(total + piece)) by {
                assert(piece.subrange(0, taken as int).is_prefix_of(piece));
            }
        }
        i = i + 1;
    }
    proof {
        let total = concat(chunks@);
        assert(chunks@.subrange(0, i as int) =~= chunks@);
        let got = reader.received();
        if missing(got, max) == 0 {
            let rest = total.subrange(got.len() as int, total.len() as int);
            assert(got + rest =~= total);
            lemma_complete_frame_ignores_rest(got, rest, max);
        }
    }
    reader.finish()
}

} // verus!
