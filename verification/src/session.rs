//! Driving one session line by line: the greeting, classifying each line as
//! body content or a command, extracting and matching the verb
//! case-insensitively, and dispatching to the handlers.

use crate::handlers::{handle_cmd_data, handle_cmd_ehlo, handle_cmd_helo, handle_cmd_help,
    handle_cmd_mail, handle_cmd_noop, handle_cmd_quit, handle_cmd_rcpt, handle_cmd_rset,
    handle_cmd_unknown, handle_cmd_vrfy, spec_data, spec_ehlo, spec_helo, spec_help, spec_mail,
    spec_noop, spec_quit, spec_rcpt, spec_rset, spec_unknown, spec_vrfy};
use crate::reply::{reply1, Reply, ReplyModel};
use crate::state::SmtpState;
use vstd::prelude::*;
use vstd::string::StrSliceExecFns;

verus! {

/// The verbs the interpreter recognizes.
#[derive(Clone, Copy, Debug, PartialEq, Eq, Structural)]
pub enum Verb {
    Data,
    Ehlo,
    Helo,
    Help,
    Mail,
    Noop,
    Quit,
    Rcpt,
    Rset,
    Vrfy,
    /// Anything else, an absent verb included.
    Other,
}

/// ASCII whitespace, as a command line is tokenized by it.
pub open spec fn is_ws(c: char) -> bool {
    c == ' ' || c == '\t' || c == '\n' || c == '\u{0C}' || c == '\r'
}

/// The number of leading whitespace characters of `s`.
pub open spec fn ws_prefix_len(s: Seq<char>) -> nat
    decreases s.len(),
{
    if s.len() > 0 && is_ws(s[0]) {
        1 + ws_prefix_len(s.drop_first())
    } else {
        0
    }
}

/// The length of the leading run of non-whitespace characters of `s`.
pub open spec fn token_len(s: Seq<char>) -> nat
    decreases s.len(),
{
    if s.len() > 0 && !is_ws(s[0]) {
        1 + token_len(s.drop_first())
    } else {
        0
    }
}

/// The first whitespace-delimited token of `s`: empty if `s` is empty or
/// all whitespace.
pub open spec fn first_token(s: Seq<char>) -> Seq<char> {
    let a = ws_prefix_len(s) as int;
    s.subrange(a, a + token_len(s.skip(a)) as int)
}

proof fn lemma_ws_prefix_len(s: Seq<char>)
    ensures
        ws_prefix_len(s) <= s.len(),
        ws_prefix_len(s) < s.len() ==> !is_ws(s[ws_prefix_len(s) as int]),
        forall|k: int| 0 <= k < ws_prefix_len(s) ==> is_ws(s[k]),
    decreases s.len(),
{
    if s.len() > 0 && is_ws(s[0]) {
        lemma_ws_prefix_len(s.drop_first());
        assert forall|k: int| 0 <= k < ws_prefix_len(s) implies is_ws(s[k]) by {
            if k > 0 {
                assert(s.drop_first()[k - 1] == s[k]);
            }
        }
    }
}

proof fn lemma_token_len(s: Seq<char>)
    ensures
        token_len(s) <= s.len(),
        token_len(s) < s.len() ==> is_ws(s[token_len(s) as int]),
        forall|k: int| 0 <= k < token_len(s) ==> !is_ws(s[k]),
    decreases s.len(),
{
    if s.len() > 0 && !is_ws(s[0]) {
        lemma_token_len(s.drop_first());
        assert forall|k: int| 0 <= k < token_len(s) implies !is_ws(s[k]) by {
            if k > 0 {
                assert(s.drop_first()[k - 1] == s[k]);
            }
        }
    }
}

/// Case-insensitive match of one character against an upper-case letter.
pub open spec fn eq_ci(c: char, up: char, lo: char) -> bool {
    c == up || c == lo
}

/// Which verb a four-character token spells, matched case-insensitively.
pub open spec fn classify_verb4(c0: char, c1: char, c2: char, c3: char) -> Verb {
    if eq_ci(c0, 'D', 'd') && eq_ci(c1, 'A', 'a') && eq_ci(c2, 'T', 't') && eq_ci(c3, 'A', 'a') {
        Verb::Data
    } else if eq_ci(c0, 'E', 'e') && eq_ci(c1, 'H', 'h') && eq_ci(c2, 'L', 'l') && eq_ci(
        c3,
        'O',
        'o',
    ) {
        Verb::Ehlo
    } else if eq_ci(c0, 'H', 'h') && eq_ci(c1, 'E', 'e') && eq_ci(c2, 'L', 'l') && eq_ci(
        c3,
        'O',
        'o',
    ) {
        Verb::Helo
    } else if eq_ci(c0, 'H', 'h') && eq_ci(c1, 'E', 'e') && eq_ci(c2, 'L', 'l') && eq_ci(
        c3,
        'P',
        'p',
    ) {
        Verb::Help
    } else if eq_ci(c0, 'M', 'm') && eq_ci(c1, 'A', 'a') && eq_ci(c2, 'I', 'i') && eq_ci(
        c3,
        'L',
        'l',
    ) {
        Verb::Mail
    } else if eq_ci(c0, 'N', 'n') && eq_ci(c1, 'O', 'o') && eq_ci(c2, 'O', 'o') && eq_ci(
        c3,
        'P',
        'p',
    ) {
        Verb::Noop
    } else if eq_ci(c0, 'Q', 'q') && eq_ci(c1, 'U', 'u') && eq_ci(c2, 'I', 'i') && eq_ci(
        c3,
        'T',
        't',
    ) {
        Verb::Quit
    } else if eq_ci(c0, 'R', 'r') && eq_ci(c1, 'C', 'c') && eq_ci(c2, 'P', 'p') && eq_ci(
        c3,
        'T',
        't',
    ) {
        Verb::Rcpt
    } else if eq_ci(c0, 'R', 'r') && eq_ci(c1, 'S', 's') && eq_ci(c2, 'E', 'e') && eq_ci(
        c3,
        'T',
        't',
    ) {
        Verb::Rset
    } else if eq_ci(c0, 'V', 'v') && eq_ci(c1, 'R', 'r') && eq_ci(c2, 'F', 'f') && eq_ci(
        c3,
        'Y',
        'y',
    ) {
        Verb::Vrfy
    } else {
        Verb::Other
    }
}

/// Which verb a token spells. All recognized verbs are four characters long.
pub open spec fn classify_verb(t: Seq<char>) -> Verb {
    if t.len() == 4 {
        classify_verb4(t[0], t[1], t[2], t[3])
    } else {
        Verb::Other
    }
}

fn is_ws_char(c: char) -> (b: bool)
    ensures
        b == is_ws(c),
{
    c == ' ' || c == '\t' || c == '\n' || c == '\u{0C}' || c == '\r'
}

fn verb4(c0: char, c1: char, c2: char, c3: char) -> (v: Verb)
    ensures
        v == classify_verb4(c0, c1, c2, c3),
{
    if (c0 == 'D' || c0 == 'd') && (c1 == 'A' || c1 == 'a') && (c2 == 'T' || c2 == 't') && (c3
        == 'A' || c3 == 'a') {
        Verb::Data
    } else if (c0 == 'E' || c0 == 'e') && (c1 == 'H' || c1 == 'h') && (c2 == 'L' || c2 == 'l') && (
    c3 == 'O' || c3 == 'o') {
        Verb::Ehlo
    } else if (c0 == 'H' || c0 == 'h') && (c1 == 'E' || c1 == 'e') && (c2 == 'L' || c2 == 'l') && (
    c3 == 'O' || c3 == 'o') {
        Verb::Helo
    } else if (c0 == 'H' || c0 == 'h') && (c1 == 'E' || c1 == 'e') && (c2 == 'L' || c2 == 'l') && (
    c3 == 'P' || c3 == 'p') {
        Verb::Help
    } else if (c0 == 'M' || c0 == 'm') && (c1 == 'A' || c1 == 'a') && (c2 == 'I' || c2 == 'i') && (
    c3 == 'L' || c3 == 'l') {
        Verb::Mail
    } else if (c0 == 'N' || c0 == 'n') && (c1 == 'O' || c1 == 'o') && (c2 == 'O' || c2 == 'o') && (
    c3 == 'P' || c3 == 'p') {
        Verb::Noop
    } else if (c0 == 'Q' || c0 == 'q') && (c1 == 'U' || c1 == 'u') && (c2 == 'I' || c2 == 'i') && (
    c3 == 'T' || c3 == 't') {
        Verb::Quit
    } else if (c0 == 'R' || c0 == 'r') && (c1 == 'C' || c1 == 'c') && (c2 == 'P' || c2 == 'p') && (
    c3 == 'T' || c3 == 't') {
        Verb::Rcpt
    } else if (c0 == 'R' || c0 == 'r') && (c1 == 'S' || c1 == 's') && (c2 == 'E' || c2 == 'e') && (
    c3 == 'T' || c3 == 't') {
        Verb::Rset
    } else if (c0 == 'V' || c0 == 'v') && (c1 == 'R' || c1 == 'r') && (c2 == 'F' || c2 == 'f') && (
    c3 == 'Y' || c3 == 'y') {
        Verb::Vrfy
    } else {
        Verb::Other
    }
}

/// The verb spelled by the first whitespace-delimited token of `line`.
pub fn line_verb(line: &str) -> (v: Verb)
    ensures
        v == classify_verb(first_token(line@)),
{
    let n: usize = line.unicode_len();
    let mut i: usize = 0;
    while i < n && is_ws_char(line.get_char(i))
        invariant
            0 <= i <= n,
            n == line@.len(),
            forall|k: int| 0 <= k < i ==> is_ws(line@[k]),
        decreases n - i,
    {
        i = i + 1;
    }
    proof {
        lemma_ws_prefix_len(line@);
        let a = ws_prefix_len(line@) as int;
        if a < i as int {
            assert(is_ws(line@[a]));
        }
        if a > i as int {
            assert(is_ws(line@[i as int]));
        }
        assert(i as int == a);
    }
    let mut j: usize = i;
    while j < n && !is_ws_char(line.get_char(j))
        invariant
            0 <= i <= j <= n,
            n == line@.len(),
            forall|k: int| i <= k < j ==> !is_ws(line@[k]),
        decreases n - j,
    {
        j = j + 1;
    }
    proof {
        let t = line@.skip(i as int);
        lemma_token_len(t);
        assert(forall|k: int| 0 <= k < t.len() ==> t[k] == line@[i + k]);
        let b = token_len(t) as int;
        if b < j - i {
            assert(is_ws(t[b]));
            assert(!is_ws(line@[i + b]));
        }
        if b > j - i {
            assert(!is_ws(t[j - i]));
        }
        assert(j - i == b);
        assert(first_token(line@) =~= line@.subrange(i as int, j as int));
    }
    if j - i == 4 {
        let v = verb4(
            line.get_char(i),
            line.get_char(i + 1),
            line.get_char(i + 2),
            line.get_char(i + 3),
        );
        proof {
            let t = first_token(line@);
            assert(t.len() == 4);
            assert(t[0] == line@[i as int] && t[1] == line@[i as int + 1] && t[2] == line@[
                i as int + 2
            ] && t[3] == line@[i as int + 3]);
        }
        v
    } else {
        Verb::Other
    }
}

/// What one input line does to the session: in `Data` state a lone `.` ends
/// body collection with a 250 and every other line is consumed silently; in
/// any other state the line is a command and gets exactly one reply.
pub open spec fn spec_step(st: SmtpState, line: Seq<char>) -> (SmtpState, Option<ReplyModel>) {
    if st is Data {
        if line.len() == 1 && line[0] == '.' {
            (SmtpState::Hello, Some(reply1(250, "duly noted and ignored, thanks."@)))
        } else {
            (SmtpState::Data, None)
        }
    } else {
        let h = match classify_verb(first_token(line)) {
            Verb::Data => spec_data(st),
            Verb::Ehlo => spec_ehlo(line, st),
            Verb::Helo => spec_helo(line, st),
            Verb::Help => spec_help(st),
            Verb::Mail => spec_mail(st),
            Verb::Noop => spec_noop(st),
            Verb::Quit => spec_quit(st),
            Verb::Rcpt => spec_rcpt(st),
            Verb::Rset => spec_rset(st),
            Verb::Vrfy => spec_vrfy(st),
            Verb::Other => spec_unknown(st),
        };
        (h.0, Some(h.1))
    }
}

/// Interprets one input line: returns the next state and the reply to send,
/// if any.
pub fn session_step(state: SmtpState, line: &str) -> (r: (SmtpState, Option<Reply>))
    ensures
        ({
            let s = spec_step(state, line@);
            &&& r.0 == s.0
            &&& (match (r.1, s.1) {
                (Option::Some(rep), Option::Some(m)) => rep@ == m,
                (Option::None, Option::None) => true,
                _ => false,
            })
        }),
{
    match state {
        SmtpState::Data => {
            if line.unicode_len() == 1 && line.get_char(0) == '.' {
                (
                    SmtpState::Hello,
                    Some(crate::reply::single_line(250, "duly noted and ignored, thanks.")),
                )
            } else {
                (SmtpState::Data, None)
            }
        },
        _ => {
            let h = match line_verb(line) {
                Verb::Data => handle_cmd_data(state),
                Verb::Ehlo => handle_cmd_ehlo(line, state),
                Verb::Helo => handle_cmd_helo(line, state),
                Verb::Help => handle_cmd_help(state),
                Verb::Mail => handle_cmd_mail(state),
                Verb::Noop => handle_cmd_noop(state),
                Verb::Quit => handle_cmd_quit(state),
                Verb::Rcpt => handle_cmd_rcpt(state),
                Verb::Rset => handle_cmd_rset(state),
                Verb::Vrfy => handle_cmd_vrfy(state),
                Verb::Other => handle_cmd_unknown(state),
            };
            (h.0, Some(h.1))
        },
    }
}

/// The reply that greets a client when the session opens.
pub open spec fn greeting_reply() -> ReplyModel {
    reply1(220, "bogus email service ready"@)
}

/// Builds the greeting sent once at session start.
pub fn greeting() -> (r: Reply)
    ensures
        r@ == greeting_reply(),
{
    crate::reply::single_line(220, "bogus email service ready")
}

/// Whether the session is over: true exactly in the terminal state.
pub fn session_done(state: SmtpState) -> (b: bool)
    ensures
        b == (state is Quit),
{
    match state {
        SmtpState::Quit => true,
        _ => false,
    }
}

} // verus!
