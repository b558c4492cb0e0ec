//! Echoing blocks back to a peer: what to do after each read and each write.

use vstd::prelude::*;

verus! {

/// Size of the buffer that blocks are read into.
pub const BLOCK_SIZE: usize = 1024;

/// What the echo loop does next.
#[derive(Debug, Clone, Copy, PartialEq, Eq, Structural)]
pub enum EchoStep {
    /// Write the bytes of the block from `from` up to `to`.
    Write { from: usize, to: usize },
    /// Read the next block.
    Read,
    /// Shut the connection down.
    Close,
}

/// After a read of `read` bytes: the peer has closed if nothing came, else
/// the whole block is to be written back.
pub fn after_read(read: usize) -> (step: EchoStep)
    ensures
        step == if read == 0 {
            EchoStep::Close
        } else {
            EchoStep::Write { from: 0, to: read }
        },
{
    if read == 0 {
        EchoStep::Close
    } else {
        EchoStep::Write { from: 0, to: read }
    }
}

/// After a write that took `written` bytes of the block's `from..to`: the
/// rest is to be written unless the write took nothing or nothing is left,
/// in which case the block is done with.
pub fn after_write(from: usize, to: usize, written: usize) -> (step: EchoStep)
    ensures
        step == if written > 0 && from + written < to {
            EchoStep::Write { from: (from + written) as usize, to }
        } else {
            EchoStep::Read
        },
{
    if written > 0 && from < to && written < to - from {
        EchoStep::Write { from: from + written, to }
    } else {
        EchoStep::Read
    }
}

} // verus!
