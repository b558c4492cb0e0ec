//! Between frames and executions on the raw channel: which request a frame
//! stands for, and which frame answers it.

use crate::exec::{data_text, texts, trimmed_end, ExecRequest, ExecResult, ExecutionError};
use crate::payload::{
    decode_command, decode_payload, encode_frame, parse_command, parse_payload,
};
use crate::wire::{header_bytes, FrameError, Header};
use vstd::prelude::*;

verus! {

/// Tag of a request that carries code for the interpreter.
pub const KIND_CODE: u8 = 1;

/// Tag of a request that carries a command.
pub const KIND_COMMAND: u8 = 2;

/// Tag of the answer to a request that ran: its captured standard output.
pub const KIND_OUTPUT: u8 = 128;

/// Tag of the answer to a request that did not run: one byte that says why.
pub const KIND_ERROR: u8 = 255;

/// Why a raw request got no output.
#[derive(Debug, Clone, Copy, PartialEq, Eq, Structural)]
pub enum Failure {
    /// The frame could not be received or decoded.
    Frame(FrameError),
    /// The command could not be run.
    Execution(ExecutionError),
}

/// The byte that stands for a failure in an error frame.
pub open spec fn failure_code(failure: Failure) -> u8 {
    match failure {
        Failure::Frame(FrameError::Truncated) => 1,
        Failure::Frame(FrameError::Malformed) => 2,
        Failure::Frame(FrameError::TooLarge) => 3,
        Failure::Execution(ExecutionError::SpawnFailed) => 4,
        Failure::Execution(ExecutionError::IoFailure) => 5,
    }
}

/// The command that a frame with this header and these payload bytes asks
/// for, or nothing where the tag is unknown or the bytes encode no payload
/// of the tag's kind.
pub open spec fn requested_command(header: Header, body: Seq<u8>) -> Option<Seq<Seq<char>>> {
    if header.request_type == KIND_CODE {
        match parse_payload(body) {
            Some(payload) => Some(seq!["node"@, "-e"@, trimmed_end(payload.code)]),
            None => None,
        }
    } else if header.request_type == KIND_COMMAND {
        parse_command(body)
    } else {
        None
    }
}

/// Turns a received frame into the request it stands for. The request
/// brings no variables of its own, and null for its structured data. The
/// configuration text of a code payload is carried on the wire and not
/// interpreted here.
pub fn request_of_frame(header: Header, body: &[u8]) -> (r: Result<ExecRequest, FrameError>)
    ensures
        match r {
            Ok(request) => requested_command(header, body@) == Some(texts(request.cmd@))
                && request.env.vars@.len() == 0 && data_text(request.env.data) == "null"@,
            Err(e) => e == FrameError::Malformed && requested_command(header, body@) is None,
        },
{
    if header.request_type == KIND_CODE {
        match decode_payload(body) {
            Ok(payload) => Ok(ExecRequest::from_code(payload.code.as_str())),
            Err(e) => Err(e),
        }
    } else if header.request_type == KIND_COMMAND {
        match decode_command(body) {
            Ok(payload) => Ok(ExecRequest::from_words(payload.command)),
            Err(e) => Err(e),
        }
    } else {
        Err(FrameError::Malformed)
    }
}

/// The frame that answers a request: the standard output of the command
/// where it ran, the failure's byte where it did not.
pub fn response_frame(outcome: &Result<ExecResult, Failure>) -> (out: Vec<u8>)
    ensures
        out@ == (match *outcome {
            Ok(result) => header_bytes(
                Header { request_type: KIND_OUTPUT, payload_length: result.stdout@.len() as u64 },
            ) + result.stdout@,
            Err(failure) => header_bytes(Header { request_type: KIND_ERROR, payload_length: 1 })
                + seq![failure_code(failure)],
        }),
{
    match outcome {
        Ok(result) => encode_frame(KIND_OUTPUT, result.stdout.as_slice()),
        Err(failure) => {
            let code: u8 = match failure {
                Failure::Frame(FrameError::Truncated) => 1,
                Failure::Frame(FrameError::Malformed) => 2,
                Failure::Frame(FrameError::TooLarge) => 3,
                Failure::Execution(ExecutionError::SpawnFailed) => 4,
                Failure::Execution(ExecutionError::IoFailure) => 5,
            };
            let mut body: Vec<u8> = Vec::new();
            body.push(code);
            encode_frame(KIND_ERROR, body.as_slice())
        },
    }
}

} // verus!
