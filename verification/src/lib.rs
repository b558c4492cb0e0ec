//! Guest-side agent logic for a microVM: the framed wire protocol spoken with
//! the host, the planning and reporting of command executions, and the
//! lifecycle of the serving process. Everything here is pure computation on
//! plain values; sockets, processes and tracing exporters live with the caller.

pub mod adapter;
pub mod echo;
pub mod exec;
pub mod lifecycle;
pub mod payload;
pub mod reader;
pub mod transport;
pub mod wire;
