//! General properties of the interpreter, stated over the specification
//! functions and proved once and for all.

use crate::handlers::{spec_noop, spec_quit, spec_rcpt, spec_rset, spec_vrfy};
use crate::session::{classify_verb, first_token, spec_step};
use crate::state::SmtpState;
use vstd::prelude::*;

verus! {

/// For every state, NOOP and VRFY leave the state unchanged and reply 250;
/// interpreted in command mode they change nothing of the session either.
pub proof fn lemma_noop_vrfy_keep_state(st: SmtpState, line: Seq<char>)
    ensures
        spec_noop(st).0 == st,
        spec_noop(st).1.code == 250,
        spec_vrfy(st).0 == st,
        spec_vrfy(st).1.code == 250,
        !(st is Data) && classify_verb(first_token(line)) is Noop ==> spec_step(st, line) == (
            st,
            Some(spec_noop(st).1),
        ),
        !(st is Data) && classify_verb(first_token(line)) is Vrfy ==> spec_step(st, line) == (
            st,
            Some(spec_vrfy(st).1),
        ),
{
}

/// QUIT from any non-terminal command-mode state moves to the terminal
/// state after a 250 reply; the session loop then stops reading, as
/// `session_done` reports the session over exactly there.
pub proof fn lemma_quit_ends_session(st: SmtpState, line: Seq<char>)
    requires
        !(st is Data),
        classify_verb(first_token(line)) is Quit,
    ensures
        spec_step(st, line).0 is Quit,
        spec_step(st, line).1 == Some(spec_quit(st).1),
        spec_quit(st).1.code == 250,
{
}

/// RSET from `Start` leaves the state `Start`; from any other state it
/// yields `Hello`; the reply is 250 either way.
pub proof fn lemma_rset_resets(st: SmtpState)
    ensures
        st is Start ==> spec_rset(st).0 is Start,
        !(st is Start) ==> spec_rset(st).0 is Hello,
        spec_rset(st).1.code == 250,
{
}

/// RCPT is idempotent: once a recipient has been accepted, repeating RCPT
/// keeps the state `Rcpt` and returns exactly the same 250 reply.
pub proof fn lemma_rcpt_idempotent(st: SmtpState)
    requires
        st is Mail || st is Rcpt,
    ensures
        spec_rcpt(st).0 is Rcpt,
        spec_rcpt(st).1.code == 250,
        spec_rcpt(spec_rcpt(st).0) == spec_rcpt(st),
{
}

/// In command mode every line draws exactly one reply; in data mode only
/// the terminating lone dot does.
pub proof fn lemma_reply_discipline(st: SmtpState, line: Seq<char>)
    ensures
        !(st is Data) ==> spec_step(st, line).1 is Some,
        st is Data ==> (spec_step(st, line).1 is Some <==> (line.len() == 1 && line[0] == '.')),
{
}

} // verus!
