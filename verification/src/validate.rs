//! Validation of the tokens a client may introduce itself with: domain
//! names (checked by an outside parser) and IP address literals (checked
//! here against an explicit grammar).
//!
//! The address grammar: an IPv4 literal is four dot-separated decimal
//! octets, each at most 255 and without leading zeros. An IPv6 literal is
//! eight colon-separated groups of one to four hex digits; at most one `::`
//! may stand for one or more zero groups; the final two groups may be given
//! as an embedded IPv4 literal.

use crate::text::{first_at, spec_split, split_char};
use vstd::prelude::*;
use vstd::string::StrSliceExecFns;

verus! {

/// Whether `c` is a decimal digit.
pub open spec fn is_digit(c: char) -> bool {
    48 <= c as u32 <= 57
}

/// Whether `c` is a hexadecimal digit, either case.
pub open spec fn is_hex_digit(c: char) -> bool {
    is_digit(c) || (97 <= c as u32 <= 102) || (65 <= c as u32 <= 70)
}

/// The numeric value of a decimal digit character.
pub open spec fn digit_val(c: char) -> int {
    c as u32 - 48
}

/// The numeric value of a sequence of decimal digit characters.
pub open spec fn dec_val(p: Seq<char>) -> int
    decreases p.len(),
{
    if p.len() == 0 {
        0
    } else {
        dec_val(p.drop_last()) * 10 + digit_val(p[p.len() - 1])
    }
}

proof fn lemma_dec_val_bound(p: Seq<char>)
    requires
        forall|k: int| 0 <= k < p.len() ==> is_digit(p[k]),
    ensures
        0 <= dec_val(p),
        p.len() <= 1 ==> dec_val(p) <= 9,
        p.len() <= 2 ==> dec_val(p) <= 99,
        p.len() <= 3 ==> dec_val(p) <= 999,
    decreases p.len(),
{
    if p.len() > 0 {
        assert(forall|k: int| 0 <= k < p.drop_last().len() ==> is_digit(p.drop_last()[k]));
        lemma_dec_val_bound(p.drop_last());
        assert(is_digit(p[p.len() - 1]));
    }
}

/// A decimal octet: one to three digits, no leading zero, value at most 255.
pub open spec fn is_dec_octet(p: Seq<char>) -> bool {
    &&& 1 <= p.len() <= 3
    &&& (forall|k: int| 0 <= k < p.len() ==> #[trigger] is_digit(p[k]))
    &&& (p.len() > 1 ==> p[0] != '0')
    &&& dec_val(p) <= 255
}

/// An IPv4 literal: four dot-separated decimal octets.
pub open spec fn is_ipv4_text(s: Seq<char>) -> bool {
    let ps = spec_split(s, '.');
    ps.len() == 4 && (forall|k: int| 0 <= k < 4 ==> #[trigger] is_dec_octet(ps[k]))
}

/// An IPv6 group: one to four hex digits.
pub open spec fn is_h16(p: Seq<char>) -> bool {
    1 <= p.len() <= 4 && (forall|k: int| 0 <= k < p.len() ==> #[trigger] is_hex_digit(p[k]))
}

/// Every piece in `ps[lo..hi]` is an IPv6 group.
pub open spec fn all_h16(ps: Seq<Seq<char>>, lo: int, hi: int) -> bool {
    forall|k: int| lo <= k < hi ==> #[trigger] is_h16(ps[k])
}

/// The pieces `ps[lo..hi]` are groups except the last, an embedded IPv4
/// literal, which counts as two groups.
pub open spec fn groups_then_ipv4(ps: Seq<Seq<char>>, lo: int, hi: int) -> bool {
    hi - lo >= 1 && all_h16(ps, lo, hi - 1) && is_ipv4_text(ps[hi - 1])
}

/// The pieces `ps[lo..hi]` form a nonempty group list worth at most
/// `max_units` groups, counting an embedded IPv4 literal as two.
pub open spec fn tail_groups(ps: Seq<Seq<char>>, lo: int, hi: int, max_units: int) -> bool {
    ||| (hi - lo >= 1 && hi - lo <= max_units && all_h16(ps, lo, hi))
    ||| (hi - lo + 1 <= max_units && groups_then_ipv4(ps, lo, hi))
}

/// Index of the first empty piece, or `ps.len()` if every piece is nonempty.
pub open spec fn first_empty_at(ps: Seq<Seq<char>>) -> nat
    decreases ps.len(),
{
    if ps.len() == 0 {
        0
    } else if ps[0].len() == 0 {
        0
    } else {
        1 + first_empty_at(ps.drop_first())
    }
}

proof fn lemma_first_empty_at(ps: Seq<Seq<char>>)
    ensures
        first_empty_at(ps) <= ps.len(),
        first_empty_at(ps) < ps.len() ==> ps[first_empty_at(ps) as int].len() == 0,
        forall|k: int| 0 <= k < first_empty_at(ps) ==> ps[k].len() != 0,
    decreases ps.len(),
{
    if ps.len() > 0 && ps[0].len() != 0 {
        lemma_first_empty_at(ps.drop_first());
        assert forall|k: int| 0 <= k < first_empty_at(ps) implies ps[k].len() != 0 by {
            if k > 0 {
                assert(ps.drop_first()[k - 1] == ps[k]);
            }
        }
    }
}

/// An IPv6 literal. Splitting on `:` turns the one allowed `::` into the
/// first empty piece: in the middle one empty piece, at either end two, and
/// for `::` alone three.
pub open spec fn is_ipv6_text(s: Seq<char>) -> bool {
    let ps = spec_split(s, ':');
    let n = ps.len() as int;
    let j = first_empty_at(ps) as int;
    ||| (n == 8 && all_h16(ps, 0, 8))
    ||| (n == 7 && groups_then_ipv4(ps, 0, 7))
    ||| (n == 3 && ps[0].len() == 0 && ps[1].len() == 0 && ps[2].len() == 0)
    ||| (n >= 3 && ps[0].len() == 0 && ps[1].len() == 0 && tail_groups(ps, 2, n, 7))
    ||| (n >= 3 && ps[n - 2].len() == 0 && ps[n - 1].len() == 0 && all_h16(ps, 0, n - 2) && n - 2
        <= 7)
    ||| (1 <= j < n - 1 && ps[j].len() == 0 && all_h16(ps, 0, j) && tail_groups(ps, j + 1, n, 7 - j))
}

/// An IP address literal of either family.
pub open spec fn is_ip_text(s: Seq<char>) -> bool {
    is_ipv4_text(s) || is_ipv6_text(s)
}

fn is_digit_char(c: char) -> (b: bool)
    ensures
        b == is_digit(c),
{
    let u = c as u32;
    48 <= u && u <= 57
}

fn is_hex_digit_char(c: char) -> (b: bool)
    ensures
        b == is_hex_digit(c),
{
    let u = c as u32;
    (48 <= u && u <= 57) || (97 <= u && u <= 102) || (65 <= u && u <= 70)
}

/// Whether `p` is a decimal octet.
fn check_octet(p: &str) -> (b: bool)
    ensures
        b == is_dec_octet(p@),
{
    let n: usize = p.unicode_len();
    if n < 1 || n > 3 {
        return false;
    }
    let mut val: u32 = 0;
    let mut i: usize = 0;
    while i < n
        invariant
            0 <= i <= n,
            n == p@.len(),
            1 <= n <= 3,
            forall|k: int| 0 <= k < i ==> #[trigger] is_digit(p@[k]),
            val == dec_val(p@.subrange(0, i as int)),
            0 <= val <= 999,
        decreases n - i,
    {
        let c = p.get_char(i);
        if !is_digit_char(c) {
            assert(!is_dec_octet(p@)) by {
                assert(!is_digit(p@[i as int]));
            }
            return false;
        }
        proof {
            let pre = p@.subrange(0, i as int);
            let nxt = p@.subrange(0, i as int + 1);
            assert(nxt.drop_last() =~= pre);
            assert(nxt[nxt.len() - 1] == p@[i as int]);
            lemma_dec_val_bound(pre);
        }
        val = val * 10 + (c as u32 - 48);
        i = i + 1;
    }
    proof {
        assert(p@.subrange(0, n as int) =~= p@);
    }
    if n > 1 && p.get_char(0) == '0' {
        return false;
    }
    val <= 255
}

/// Whether `s` is an IPv4 literal.
pub fn is_ipv4_literal(s: &str) -> (b: bool)
    ensures
        b == is_ipv4_text(s@),
{
    let parts = split_char(s, '.');
    proof {
        assert(parts@.len() == parts.deep_view().len());
    }
    if parts.len() != 4 {
        return false;
    }
    let mut k: usize = 0;
    while k < 4
        invariant
            parts.deep_view() == spec_split(s@, '.'),
            parts@.len() == 4,
            0 <= k <= 4,
            forall|j: int| 0 <= j < k ==> #[trigger] is_dec_octet(parts.deep_view()[j]),
        decreases 4 - k,
    {
        let ok = check_octet(parts[k].as_str());
        proof {
            assert(parts[k as int]@ == parts.deep_view()[k as int]);
        }
        if !ok {
            return false;
        }
        k = k + 1;
    }
    true
}

/// Whether `p` is an IPv6 group.
fn check_h16(p: &str) -> (b: bool)
    ensures
        b == is_h16(p@),
{
    let n: usize = p.unicode_len();
    if n < 1 || n > 4 {
        return false;
    }
    let mut i: usize = 0;
    while i < n
        invariant
            0 <= i <= n,
            n == p@.len(),
            forall|k: int| 0 <= k < i ==> #[trigger] is_hex_digit(p@[k]),
        decreases n - i,
    {
        if !is_hex_digit_char(p.get_char(i)) {
            assert(!is_h16(p@)) by {
                assert(!is_hex_digit(p@[i as int]));
            }
            return false;
        }
        i = i + 1;
    }
    true
}

/// Whether every piece in `parts[lo..hi]` is an IPv6 group.
fn all_h16_range(parts: &Vec<String>, lo: usize, hi: usize) -> (b: bool)
    requires
        lo <= hi <= parts@.len(),
    ensures
        b == all_h16(parts.deep_view(), lo as int, hi as int),
{
    let mut k: usize = lo;
    while k < hi
        invariant
            lo <= k <= hi <= parts@.len(),
            forall|j: int| lo <= j < k ==> #[trigger] is_h16(parts.deep_view()[j]),
        decreases hi - k,
    {
        let ok = check_h16(parts[k].as_str());
        proof {
            assert(parts[k as int]@ == parts.deep_view()[k as int]);
        }
        if !ok {
            return false;
        }
        k = k + 1;
    }
    true
}

/// Whether `parts[lo..]` is a group list worth at most `max_units` groups.
fn tail_ok(parts: &Vec<String>, lo: usize, max_units: usize) -> (b: bool)
    requires
        lo <= parts@.len(),
    ensures
        b == tail_groups(parts.deep_view(), lo as int, parts@.len() as int, max_units as int),
{
    let n: usize = parts.len();
    if n - lo >= 1 {
        if n - lo <= max_units && all_h16_range(parts, lo, n) {
            return true;
        }
        if max_units >= 1 && n - lo <= max_units - 1 && all_h16_range(parts, lo, n - 1) {
            let ok = is_ipv4_literal(parts[n - 1].as_str());
            proof {
                assert(parts[n - 1]@ == parts.deep_view()[n - 1]);
            }
            return ok;
        }
        false
    } else {
        false
    }
}

fn first_empty(parts: &Vec<String>) -> (e: usize)
    ensures
        e == first_empty_at(parts.deep_view()),
{
    let n: usize = parts.len();
    let mut e: usize = 0;
    while e < n
        invariant
            0 <= e <= n,
            n == parts@.len(),
            forall|k: int| 0 <= k < e ==> parts.deep_view()[k].len() != 0,
        decreases n - e,
    {
        if parts[e].as_str().is_empty() {
            proof {
                lemma_first_empty_at(parts.deep_view());
                let f = first_empty_at(parts.deep_view()) as int;
                assert(parts.deep_view()[e as int].len() == 0);
                if f < e as int {
                    assert(parts.deep_view()[f].len() != 0);
                }
            }
            return e;
        }
        e = e + 1;
    }
    proof {
        lemma_first_empty_at(parts.deep_view());
        let f = first_empty_at(parts.deep_view()) as int;
        if f < n as int {
            assert(parts.deep_view()[f].len() != 0);
        }
    }
    n
}

proof fn lemma_not_all_h16(ps: Seq<Seq<char>>, lo: int, hi: int, w: int)
    requires
        lo <= w < hi,
        ps[w].len() == 0,
    ensures
        !all_h16(ps, lo, hi),
{
    assert(!is_h16(ps[w]));
}

proof fn lemma_ipv4_empty()
    ensures
        !is_ipv4_text(Seq::<char>::empty()),
{
    let s = Seq::<char>::empty();
    assert(first_at(s, '.') == 0);
    assert(spec_split(s, '.').len() == 1);
}

/// Whether `s` is an IPv6 literal.
pub fn is_ipv6_literal(s: &str) -> (b: bool)
    ensures
        b == is_ipv6_text(s@),
{
    let parts = split_char(s, ':');
    let ghost ps = parts.deep_view();
    let n: usize = parts.len();
    proof {
        assert(n == ps.len());
        crate::text::lemma_split_nonempty(s@, ':');
        lemma_first_empty_at(ps);
    }
    let e = first_empty(&parts);
    if e == n {
        // every piece is nonempty: only the uncompressed forms can match
        if n == 8 {
            all_h16_range(&parts, 0, 8)
        } else if n == 7 {
            if all_h16_range(&parts, 0, 6) {
                let ok = is_ipv4_literal(parts[6].as_str());
                proof {
                    assert(parts[6]@ == ps[6]);
                }
                ok
            } else {
                false
            }
        } else {
            false
        }
    } else if e == 0 {
        // the first piece is empty: the literal can only open with `::`
        proof {
            if n as int >= 8 {
                lemma_not_all_h16(ps, 0, 8, 0);
            }
            if n as int == 7 {
                lemma_not_all_h16(ps, 0, 6, 0);
            }
            if n as int - 2 >= 1 {
                lemma_not_all_h16(ps, 0, n as int - 2, 0);
            }
        }
        if n >= 2 && parts[1].as_str().is_empty() {
            if n == 3 && parts[2].as_str().is_empty() {
                true
            } else {
                tail_ok(&parts, 2, 7)
            }
        } else {
            false
        }
    } else {
        // the first empty piece is at e >= 1
        proof {
            if n as int == 8 {
                lemma_not_all_h16(ps, 0, 8, e as int);
            }
            if n as int == 7 && (e as int) < 6 {
                lemma_not_all_h16(ps, 0, 6, e as int);
            }
            if n as int == 7 && e as int == 6 {
                lemma_ipv4_empty();
            }
        }
        let head_ok = all_h16_range(&parts, 0, e);
        if !head_ok {
            proof {
                if n as int >= 3 && ps[n as int - 2].len() == 0 && (e as int) < n as int - 2 {
                    lemma_not_all_h16(ps, 0, n as int - 2, e as int);
                }
            }
            false
        } else if e == n - 1 {
            false
        } else if parts[n - 1].as_str().is_empty() && e == n - 2 {
            e <= 7
        } else {
            proof {
                if n as int >= 3 && ps[n as int - 2].len() == 0 && (e as int) < n as int - 2 {
                    lemma_not_all_h16(ps, 0, n as int - 2, e as int);
                }
            }
            if e >= 7 {
                false
            } else {
                tail_ok(&parts, e + 1, 7 - e)
            }
        }
    }
}

/// Whether `s` is an IP address literal of either family.
pub fn is_ip_literal(s: &str) -> (b: bool)
    ensures
        b == is_ip_text(s@),
{
    if is_ipv4_literal(s) {
        true
    } else {
        is_ipv6_literal(s)
    }
}

/// Whether `s` parses as a domain name. The verdict is that of the outside
/// parser named below; it depends on the characters of `s` alone.
pub uninterp spec fn is_valid_domain_name(s: Seq<char>) -> bool;

/// Relies on addr::parse_domain_name: whether the text is a syntactically
/// valid DNS domain name under that crate's grammar. The verdict is a pure
/// function of the input text.
#[verifier::external_body]
pub(crate) fn parse_domain(s: &str) -> (r: bool)
    ensures
        r == is_valid_domain_name(s@),
{
    addr::parse_domain_name(s).is_ok()
}

} // verus!
