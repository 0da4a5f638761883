//! Errors of the probing engine.
use vstd::prelude::*;

verus! {

/// What can go wrong when configuring or driving the engine.
#[derive(Debug)]
pub enum PingError {
    /// An operating-system socket call failed; holds its message.
    SocketError(String),
    /// An address failed to parse for the active address family.
    InvalidAddr,
    /// A selection policy code outside the defined range.
    InvalidPolicy,
    /// No candidate transport variant is supported on this platform.
    NotImplemented,
    /// A candidate is supported in principle, but none could be opened.
    PermissionDenied,
}

} // verus!
