//! Replies: a three-digit status code plus one or more lines of text, and
//! their rendering into the wire form `<code><sep><text>\r\n` where the
//! separator is `-` on every line but the last and a space on the last.

use vstd::prelude::*;
use vstd::string::StringExecFns;

verus! {

/// The mathematical content of a reply: its code and the text of each line.
#[verifier::ext_equal]
pub ghost struct ReplyModel {
    pub code: u16,
    pub lines: Seq<Seq<char>>,
}

/// A reply to one command: a status code and the text of each reply line.
pub struct Reply {
    pub code: u16,
    pub lines: Vec<String>,
}

impl View for Reply {
    type V = ReplyModel;

    open spec fn view(&self) -> ReplyModel {
        ReplyModel { code: self.code, lines: self.lines.deep_view() }
    }
}

/// A reply with a single line of text.
pub open spec fn reply1(code: u16, text: Seq<char>) -> ReplyModel {
    ReplyModel { code, lines: seq![text] }
}

/// A reply with two lines of text.
pub open spec fn reply2(code: u16, first: Seq<char>, second: Seq<char>) -> ReplyModel {
    ReplyModel { code, lines: seq![first, second] }
}

/// Builds a single-line reply.
pub fn single_line(code: u16, text: &str) -> (r: Reply)
    ensures
        r@ == reply1(code, text@),
{
    let mut lines: Vec<String> = Vec::new();
    lines.push(text.to_owned());
    proof {
        assert(lines.deep_view() =~= seq![text@]);
    }
    let r = Reply { code, lines };
    proof {
        assert(r@ =~= reply1(code, text@));
    }
    r
}

/// Builds a two-line reply.
pub fn two_lines(code: u16, first: &str, second: &str) -> (r: Reply)
    ensures
        r@ == reply2(code, first@, second@),
{
    let mut lines: Vec<String> = Vec::new();
    lines.push(first.to_owned());
    lines.push(second.to_owned());
    proof {
        assert(lines.deep_view() =~= seq![first@, second@]);
    }
    let r = Reply { code, lines };
    proof {
        assert(r@ =~= reply2(code, first@, second@));
    }
    r
}

/// The decimal digit `d` as a character; `'9'` for anything above nine.
pub open spec fn digit_char(d: int) -> char {
    if d == 0 {
        '0'
    } else if d == 1 {
        '1'
    } else if d == 2 {
        '2'
    } else if d == 3 {
        '3'
    } else if d == 4 {
        '4'
    } else if d == 5 {
        '5'
    } else if d == 6 {
        '6'
    } else if d == 7 {
        '7'
    } else if d == 8 {
        '8'
    } else {
        '9'
    }
}

/// The three low decimal digits of `code`, most significant first.
pub open spec fn code_chars(code: u16) -> Seq<char> {
    seq![
        digit_char(code as int / 100 % 10),
        digit_char(code as int / 10 % 10),
        digit_char(code as int % 10),
    ]
}

/// The wire text of the reply lines from index `i` on.
pub open spec fn rendered_from(code: u16, lines: Seq<Seq<char>>, i: int) -> Seq<char>
    decreases lines.len() - i,
{
    if i < 0 || i >= lines.len() {
        Seq::empty()
    } else {
        code_chars(code) + (if i == lines.len() - 1 {
            seq![' ']
        } else {
            seq!['-']
        }) + lines[i] + seq!['\r', '\n'] + rendered_from(code, lines, i + 1)
    }
}

/// The full wire text of a reply.
pub open spec fn rendered(r: ReplyModel) -> Seq<char> {
    rendered_from(r.code, r.lines, 0)
}

fn digit_str(d: u16) -> (s: &'static str)
    requires
        d < 10,
    ensures
        s@ == seq![digit_char(d as int)],
{
    if d == 0 {
        proof {
            reveal_strlit("0");
            assert("0"@ =~= seq![digit_char(0)]);
        }
        "0"
    } else if d == 1 {
        proof {
            reveal_strlit("1");
            assert("1"@ =~= seq![digit_char(1)]);
        }
        "1"
    } else if d == 2 {
        proof {
            reveal_strlit("2");
            assert("2"@ =~= seq![digit_char(2)]);
        }
        "2"
    } else if d == 3 {
        proof {
            reveal_strlit("3");
            assert("3"@ =~= seq![digit_char(3)]);
        }
        "3"
    } else if d == 4 {
        proof {
            reveal_strlit("4");
            assert("4"@ =~= seq![digit_char(4)]);
        }
        "4"
    } else if d == 5 {
        proof {
            reveal_strlit("5");
            assert("5"@ =~= seq![digit_char(5)]);
        }
        "5"
    } else if d == 6 {
        proof {
            reveal_strlit("6");
            assert("6"@ =~= seq![digit_char(6)]);
        }
        "6"
    } else if d == 7 {
        proof {
            reveal_strlit("7");
            assert("7"@ =~= seq![digit_char(7)]);
        }
        "7"
    } else if d == 8 {
        proof {
            reveal_strlit("8");
            assert("8"@ =~= seq![digit_char(8)]);
        }
        "8"
    } else {
        proof {
            reveal_strlit("9");
            assert("9"@ =~= seq![digit_char(9)]);
        }
        "9"
    }
}

/// Renders a reply into its wire text, CRLF line endings included.
pub fn render_reply(r: &Reply) -> (out: String)
    ensures
        out@ == rendered(r@),
{
    let mut out = String::new();
    let n: usize = r.lines.len();
    let mut i: usize = 0;
    while i < n
        invariant
            0 <= i <= n,
            n == r@.lines.len(),
            out@ + rendered_from(r@.code, r@.lines, i as int) == rendered(r@),
        decreases n - i,
    {
        out.append(digit_str(r.code / 100 % 10));
        out.append(digit_str(r.code / 10 % 10));
        out.append(digit_str(r.code % 10));
        if i == n - 1 {
            out.append(" ");
            proof {
                reveal_strlit(" ");
                assert(" "@ =~= seq![' ']);
            }
        } else {
            out.append("-");
            proof {
                reveal_strlit("-");
                assert("-"@ =~= seq!['-']);
            }
        }
        out.append(r.lines[i].as_str());
        out.append("\r\n");
        proof {
            reveal_strlit("\r\n");
            assert("\r\n"@ =~= seq!['\r', '\n']);
            assert(r@.lines[i as int] == r.lines.deep_view()[i as int]);
            assert(out@ + rendered_from(r@.code, r@.lines, i as int + 1) =~= rendered(r@));
        }
        i = i + 1;
    }
    out
}

} // verus!
