//! Which of the two transports the agent listens on.

use crate::lifecycle::Event;
use vstd::prelude::*;

verus! {

/// The context id the VM-socket listener binds to: any.
pub const VSOCK_HOST: u32 = 0xFFFF_FFFF;

/// The port the VM-socket listener binds to.
pub const VSOCK_PORT: u32 = 8000;

/// The address the loopback listener binds to.
pub const LOOPBACK_ADDRESS: &'static str = "127.0.0.1:8000";

/// The mode word that selects the loopback listener.
pub const LOOPBACK_MODE: &'static str = "http";

/// A place to listen.
#[derive(Debug, Clone, Copy, PartialEq, Eq, Structural)]
pub enum Transport {
    /// The local network, for running without a hypervisor.
    Loopback,
    /// The channel between guest and host.
    Vsock { cid: u32, port: u32 },
}

/// Chooses the transport from the mode word read at startup: the loopback
/// listener for `http`, the VM socket for anything else, the empty word
/// included.
pub fn select_transport(mode: &str) -> (transport: Transport)
    ensures
        transport == if mode@ == LOOPBACK_MODE@ {
            Transport::Loopback
        } else {
            Transport::Vsock { cid: VSOCK_HOST, port: VSOCK_PORT }
        },
{
    if mode.to_owned() == LOOPBACK_MODE.to_owned() {
        Transport::Loopback
    } else {
        Transport::Vsock { cid: VSOCK_HOST, port: VSOCK_PORT }
    }
}

/// What can go wrong with a listener.
#[derive(Debug, Clone, Copy, PartialEq, Eq, Structural)]
pub enum TransportError {
    /// The listener could not be bound.
    BindFailed,
    /// A connection could not be accepted.
    AcceptFailed,
}

impl TransportError {
    /// The event to report to the lifecycle for this error.
    pub fn event(self) -> (event: Event)
        ensures
            event == (match self {
                TransportError::BindFailed => Event::BindFailed,
                TransportError::AcceptFailed => Event::AcceptFailed,
            }),
    {
        match self {
            TransportError::BindFailed => Event::BindFailed,
            TransportError::AcceptFailed => Event::AcceptFailed,
        }
    }
}

} // verus!
