use vstd::prelude::*;

verus! {

/// The per-connection protocol state. It fully determines which verbs are in
/// sequence; no handler depends on any history beyond the current state.
#[derive(Clone, Copy, Debug, PartialEq, Eq, Structural)]
pub enum SmtpState {
    /// Initial state, before any greeting from the client.
    Start,
    /// The client has introduced itself with HELO or EHLO.
    Hello,
    /// A sender has been declared.
    Mail,
    /// At least one recipient has been declared.
    Rcpt,
    /// Message body lines are being collected (and discarded).
    Data,
    /// Terminal state: the session is over.
    Quit,
}

} // verus!
