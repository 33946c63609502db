//! The verb handlers: pure functions from the current state (and, for HELO
//! and EHLO, the raw command line) to the next state and the reply. Each
//! handler's contract pins both down for every state.

use crate::reply::{reply1, reply2, single_line, two_lines, Reply, ReplyModel};
use crate::state::SmtpState;
use crate::text::{spec_split, split_char, trim_lead_char, trim_leading, trim_leading_seq,
    trim_trail_char, trim_trailing};
use crate::validate::{is_ip_literal, is_ip_text, is_ipv6_literal, is_ipv6_text,
    is_valid_domain_name, parse_domain};
use vstd::prelude::*;
use vstd::string::StrSliceExecFns;

verus! {

/// The `IPv6:` marker that opens an IPv6 address literal.
pub open spec fn ipv6_tag() -> Seq<char> {
    seq!['I', 'P', 'v', '6', ':']
}

/// Whether `s` opens with the `IPv6:` marker.
pub open spec fn starts_ipv6_tag(s: Seq<char>) -> bool {
    s.len() >= 5 && s.subrange(0, 5) == ipv6_tag()
}

fn has_ipv6_tag(s: &str) -> (b: bool)
    ensures
        b == starts_ipv6_tag(s@),
{
    let n: usize = s.unicode_len();
    if n < 5 {
        return false;
    }
    let b = s.get_char(0) == 'I' && s.get_char(1) == 'P' && s.get_char(2) == 'v' && s.get_char(3)
        == '6' && s.get_char(4) == ':';
    proof {
        let t = s@.subrange(0, 5);
        if b {
            assert(t =~= ipv6_tag());
        } else {
            if t == ipv6_tag() {
                assert(t[0] == s@[0] && t[1] == s@[1] && t[2] == s@[2] && t[3] == s@[3] && t[4]
                    == s@[4]);
            }
        }
    }
    b
}

fn trim_ipv6_tag<'a>(s: &'a str) -> (r: &'a str)
    ensures
        r@ == trim_leading_seq(s@, ipv6_tag()),
{
    let mut t: &'a str = s;
    let mut go: bool = has_ipv6_tag(t);
    while go
        invariant
            trim_leading_seq(s@, ipv6_tag()) == trim_leading_seq(t@, ipv6_tag()),
            go == starts_ipv6_tag(t@),
        decreases t@.len(),
    {
        let n: usize = t.unicode_len();
        t = t.substring_char(5, n);
        go = has_ipv6_tag(t);
    }
    t
}

/// MAIL declares a sender: in sequence only after HELO or EHLO.
pub open spec fn spec_mail(st: SmtpState) -> (SmtpState, ReplyModel) {
    match st {
        SmtpState::Hello => (SmtpState::Mail, reply1(250, "ok, let's move on"@)),
        _ => (st, reply1(503, "bad sequence of commands (didn't say hello)"@)),
    }
}

pub fn handle_cmd_mail(oldstate: SmtpState) -> (r: (SmtpState, Reply))
    ensures
        r.0 == spec_mail(oldstate).0,
        r.1@ == spec_mail(oldstate).1,
{
    match oldstate {
        SmtpState::Hello => (SmtpState::Mail, single_line(250, "ok, let's move on")),
        _ => (oldstate, single_line(503, "bad sequence of commands (didn't say hello)")),
    }
}

/// HELP returns static help text and changes nothing.
pub open spec fn spec_help(st: SmtpState) -> (SmtpState, ReplyModel) {
    (st, reply1(250, "Go read RFC5321."@))
}

pub fn handle_cmd_help(oldstate: SmtpState) -> (r: (SmtpState, Reply))
    ensures
        r.0 == spec_help(oldstate).0,
        r.1@ == spec_help(oldstate).1,
{
    (oldstate, single_line(250, "Go read RFC5321."))
}

/// NOOP does nothing: for every state the state is kept and the reply is 250.
pub open spec fn spec_noop(st: SmtpState) -> (SmtpState, ReplyModel) {
    (st, reply1(250, "fine, waste my time."@))
}

pub fn handle_cmd_noop(oldstate: SmtpState) -> (r: (SmtpState, Reply))
    ensures
        r.0 == spec_noop(oldstate).0,
        r.1@ == spec_noop(oldstate).1,
{
    (oldstate, single_line(250, "fine, waste my time."))
}

/// QUIT ends the session: the next state is terminal whatever came before.
/// The farewell is a 250 reply; 221 would also be defensible, but 250 is the
/// one this stub commits to.
pub open spec fn spec_quit(st: SmtpState) -> (SmtpState, ReplyModel) {
    (SmtpState::Quit, reply1(250, "yeah, ok, buh bye."@))
}

pub fn handle_cmd_quit(oldstate: SmtpState) -> (r: (SmtpState, Reply))
    ensures
        r.0 == spec_quit(oldstate).0,
        r.1@ == spec_quit(oldstate).1,
{
    (SmtpState::Quit, single_line(250, "yeah, ok, buh bye."))
}

/// RSET aborts the transaction: `Start` stays `Start`, any other state goes
/// back to `Hello`; the reply is 250 either way.
pub open spec fn spec_rset(st: SmtpState) -> (SmtpState, ReplyModel) {
    match st {
        SmtpState::Start => (SmtpState::Start, reply1(250, "reset, fine."@)),
        _ => (SmtpState::Hello, reply1(250, "reset, fine."@)),
    }
}

pub fn handle_cmd_rset(oldstate: SmtpState) -> (r: (SmtpState, Reply))
    ensures
        r.0 == spec_rset(oldstate).0,
        r.1@ == spec_rset(oldstate).1,
{
    let reply = single_line(250, "reset, fine.");
    match oldstate {
        SmtpState::Start => (oldstate, reply),
        _ => (SmtpState::Hello, reply),
    }
}

/// VRFY claims everything is plausible: state kept, reply 250, always.
pub open spec fn spec_vrfy(st: SmtpState) -> (SmtpState, ReplyModel) {
    (st, reply1(250, "yeah, sure, whatever."@))
}

pub fn handle_cmd_vrfy(oldstate: SmtpState) -> (r: (SmtpState, Reply))
    ensures
        r.0 == spec_vrfy(oldstate).0,
        r.1@ == spec_vrfy(oldstate).1,
{
    (oldstate, single_line(250, "yeah, sure, whatever."))
}

/// RCPT declares a recipient: in sequence after MAIL or a previous RCPT;
/// out of sequence it resets to `Hello` as the corrective state.
pub open spec fn spec_rcpt(st: SmtpState) -> (SmtpState, ReplyModel) {
    match st {
        SmtpState::Mail | SmtpState::Rcpt => (SmtpState::Rcpt, reply1(250, "ok, let's move on"@)),
        _ => (
            SmtpState::Hello,
            reply1(503, "bad sequence of commands (did you say MAIL FROM?)"@),
        ),
    }
}

pub fn handle_cmd_rcpt(oldstate: SmtpState) -> (r: (SmtpState, Reply))
    ensures
        r.0 == spec_rcpt(oldstate).0,
        r.1@ == spec_rcpt(oldstate).1,
{
    match oldstate {
        SmtpState::Mail | SmtpState::Rcpt => (
            SmtpState::Rcpt,
            single_line(250, "ok, let's move on"),
        ),
        _ => (
            SmtpState::Hello,
            single_line(503, "bad sequence of commands (did you say MAIL FROM?)"),
        ),
    }
}

/// DATA begins body collection: in sequence only after RCPT.
pub open spec fn spec_data(st: SmtpState) -> (SmtpState, ReplyModel) {
    match st {
        SmtpState::Rcpt => (SmtpState::Data, reply1(354, "give me the message (. by itself to end)"@)),
        _ => (st, reply1(503, "bad sequence of commands (did you say RCPT TO?)"@)),
    }
}

pub fn handle_cmd_data(oldstate: SmtpState) -> (r: (SmtpState, Reply))
    ensures
        r.0 == spec_data(oldstate).0,
        r.1@ == spec_data(oldstate).1,
{
    match oldstate {
        SmtpState::Rcpt => (
            SmtpState::Data,
            single_line(354, "give me the message (. by itself to end)"),
        ),
        _ => (oldstate, single_line(503, "bad sequence of commands (did you say RCPT TO?)")),
    }
}

/// Any unrecognized or empty verb: 502, state kept.
pub open spec fn spec_unknown(st: SmtpState) -> (SmtpState, ReplyModel) {
    (st, reply1(502, "command not implemented"@))
}

pub fn handle_cmd_unknown(oldstate: SmtpState) -> (r: (SmtpState, Reply))
    ensures
        r.0 == spec_unknown(oldstate).0,
        r.1@ == spec_unknown(oldstate).1,
{
    (oldstate, single_line(502, "command not implemented"))
}

/// The two-line greeting sent whenever EHLO succeeds.
pub open spec fn ehlo_greeting() -> ReplyModel {
    reply2(250, "simplesmtp.thought.net greets you."@, "HELP"@)
}

/// The success reply to EHLO: a two-line 250 greeting, next state `Hello`.
pub fn cmd_ehlo_response() -> (r: (SmtpState, Reply))
    ensures
        r.0 == SmtpState::Hello,
        r.1@ == ehlo_greeting(),
{
    (SmtpState::Hello, two_lines(250, "simplesmtp.thought.net greets you.", "HELP"))
}

/// HELO: exactly one argument, which must be a domain name. On success the
/// state becomes `Hello`; on any failure the state is kept and the reply
/// says what was wrong.
pub open spec fn spec_helo(line: Seq<char>, st: SmtpState) -> (SmtpState, ReplyModel) {
    let ps = spec_split(line, ' ');
    if ps.len() == 1 {
        (st, reply1(501, "missing argument"@))
    } else if ps.len() > 2 {
        (st, reply1(501, "too many arguments"@))
    } else if is_valid_domain_name(ps[1]) {
        (SmtpState::Hello, reply1(250, "howdy!"@))
    } else {
        (st, reply1(501, "invalid argument (not a valid domain name)"@))
    }
}

/// Handles a full HELO command line, the verb itself included.
pub fn handle_cmd_helo(line: &str, oldstate: SmtpState) -> (r: (SmtpState, Reply))
    ensures
        r.0 == spec_helo(line@, oldstate).0,
        r.1@ == spec_helo(line@, oldstate).1,
{
    let chunks = split_char(line, ' ');
    if chunks.len() == 1 {
        return (oldstate, single_line(501, "missing argument"));
    }
    if chunks.len() > 2 {
        return (oldstate, single_line(501, "too many arguments"));
    }
    let arg = chunks[1].as_str();
    proof {
        assert(arg@ == chunks.deep_view()[1]);
    }
    if parse_domain(arg) {
        (SmtpState::Hello, single_line(250, "howdy!"))
    } else {
        (oldstate, single_line(501, "invalid argument (not a valid domain name)"))
    }
}

/// EHLO: exactly one argument, either a domain name or a bracketed address
/// literal. IPv4 and `IPv6:`-marked literals are validated; any other
/// bracketed literal is accepted unconditionally, a deliberately permissive
/// edge the protocol stub preserves.
pub open spec fn spec_ehlo(line: Seq<char>, st: SmtpState) -> (SmtpState, ReplyModel) {
    let ps = spec_split(line, ' ');
    if ps.len() == 1 {
        (st, reply1(501, "missing argument"@))
    } else if ps.len() > 2 {
        (st, reply1(501, "too many arguments"@))
    } else {
        let arg = ps[1];
        if arg.len() == 0 {
            (st, reply1(501, "zero length argument"@))
        } else if arg[0] == '[' && arg[arg.len() - 1] == ']' {
            let inner = trim_leading(trim_trailing(arg, ']'), '[');
            if is_ip_text(inner) {
                (SmtpState::Hello, ehlo_greeting())
            } else if starts_ipv6_tag(inner) {
                if is_ipv6_text(trim_leading_seq(inner, ipv6_tag())) {
                    (SmtpState::Hello, ehlo_greeting())
                } else {
                    (st, reply1(501, "invalid ipv6 address"@))
                }
            } else {
                (SmtpState::Hello, ehlo_greeting())
            }
        } else if is_valid_domain_name(arg) {
            (SmtpState::Hello, ehlo_greeting())
        } else {
            (st, reply1(501, "invalid argument (not a valid domain name)"@))
        }
    }
}

/// Handles a full EHLO command line, the verb itself included.
pub fn handle_cmd_ehlo(line: &str, oldstate: SmtpState) -> (r: (SmtpState, Reply))
    ensures
        r.0 == spec_ehlo(line@, oldstate).0,
        r.1@ == spec_ehlo(line@, oldstate).1,
{
    let chunks = split_char(line, ' ');
    if chunks.len() == 1 {
        return (oldstate, single_line(501, "missing argument"));
    }
    if chunks.len() > 2 {
        return (oldstate, single_line(501, "too many arguments"));
    }
    let arg = chunks[1].as_str();
    proof {
        assert(arg@ == chunks.deep_view()[1]);
    }
    let alen: usize = arg.unicode_len();
    if alen == 0 {
        return (oldstate, single_line(501, "zero length argument"));
    }
    if arg.get_char(0) == '[' && arg.get_char(alen - 1) == ']' {
        let trimmed = trim_trail_char(arg, ']');
        let inner = trim_lead_char(trimmed, '[');
        if is_ip_literal(inner) {
            return cmd_ehlo_response();
        }
        if has_ipv6_tag(inner) {
            let rest = trim_ipv6_tag(inner);
            if is_ipv6_literal(rest) {
                return cmd_ehlo_response();
            }
            return (oldstate, single_line(501, "invalid ipv6 address"));
        }
        cmd_ehlo_response()
    } else if parse_domain(arg) {
        cmd_ehlo_response()
    } else {
        (oldstate, single_line(501, "invalid argument (not a valid domain name)"))
    }
}

} // verus!
