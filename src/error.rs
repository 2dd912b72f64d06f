//! Why a turn can fail.

use vstd::prelude::*;

verus! {

/// A failure that ends the current turn; the session itself goes on.
#[derive(Debug)]
pub enum AgentError {
    /// The backend's response lacked a variable that the protocol requires.
    ProtocolViolation(String),
    /// The backend asked for a tool that no registered implementation has.
    UnknownTool(String),
    /// A call that the turn cannot do without failed in transport.
    TransportFailure(String),
}

} // verus!
