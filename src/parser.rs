use vstd::prelude::*;

use crate::expr::{Compound, CompoundModel, Id, Simple, SimpleModel};

verus! {

/// What `char::is_alphanumeric` returns: the Unicode Alphabetic property or a
/// numeric general category.
pub uninterp spec fn alphanumeric(c: char) -> bool;

/// Relies on `char::is_alphanumeric`, asked only of characters outside ASCII.
#[verifier::external_body]
fn is_alphanumeric(c: char) -> (r: bool)
    ensures
        r == alphanumeric(c),
{
    c.is_alphanumeric()
}

/// Characters that may make up an identifier: alphanumerics, `-` and `.`.
/// On ASCII, alphanumeric means a letter or a digit.
pub open spec fn is_id_char(c: char) -> bool {
    if (c as u32) < 128 {
        ('a' <= c && c <= 'z') || ('A' <= c && c <= 'Z') || ('0' <= c && c <= '9') || c == '-'
            || c == '.'
    } else {
        alphanumeric(c)
    }
}

pub fn valid_id_char(c: char) -> (r: bool)
    ensures
        r == is_id_char(c),
{
    if (c as u32) < 128 {
        ('a' <= c && c <= 'z') || ('A' <= c && c <= 'Z') || ('0' <= c && c <= '9') || c == '-'
            || c == '.'
    } else {
        is_alphanumeric(c)
    }
}

pub open spec fn is_ws(c: char) -> bool {
    c == ' ' || c == '\t' || c == '\n' || c == '\r'
}

pub open spec fn kw_and() -> Seq<char> {
    seq!['A', 'N', 'D']
}

pub open spec fn kw_or() -> Seq<char> {
    seq!['O', 'R']
}

pub open spec fn kw_with() -> Seq<char> {
    seq!['W', 'I', 'T', 'H']
}

pub open spec fn doc_prefix() -> Seq<char> {
    seq!['D', 'o', 'c', 'u', 'm', 'e', 'n', 't', 'R', 'e', 'f', '-']
}

pub open spec fn ref_prefix() -> Seq<char> {
    seq!['L', 'i', 'c', 'e', 'n', 's', 'e', 'R', 'e', 'f', '-']
}

/// The first position at or after `p` that does not hold whitespace.
pub open spec fn skip_ws(s: Seq<char>, p: int) -> int
    decreases s.len() - p,
{
    if 0 <= p < s.len() && is_ws(s[p]) {
        skip_ws(s, p + 1)
    } else {
        p
    }
}

/// The end of the longest run of identifier characters that starts at `p`.
pub open spec fn id_end(s: Seq<char>, p: int) -> int
    decreases s.len() - p,
{
    if 0 <= p < s.len() && is_id_char(s[p]) {
        id_end(s, p + 1)
    } else {
        p
    }
}

/// Whether `lit` stands in `s` at position `p`.
pub open spec fn has_at(s: Seq<char>, p: int, lit: Seq<char>) -> bool {
    0 <= p && p + lit.len() <= s.len() && s.subrange(p, p + lit.len()) == lit
}

/// Whether the keyword `kw` stands at `p` as a word of its own: no identifier
/// character follows it.
pub open spec fn keyword_at(s: Seq<char>, p: int, kw: Seq<char>) -> bool {
    has_at(s, p, kw) && (p + kw.len() == s.len() || !is_id_char(s[p + kw.len()]))
}

/// A license term at `p`: `id`, `id+`, `LicenseRef-id` or
/// `DocumentRef-doc:LicenseRef-id`, with where it ends.
pub open spec fn parse_simple(s: Seq<char>, p: int) -> Option<(SimpleModel, int)> {
    let e = id_end(s, p);
    if !(0 <= p < e) {
        None
    } else if has_at(s, p, doc_prefix()) && e < s.len() && s[e] == ':' {
        let q = e + 1;
        let e2 = id_end(s, q);
        if p + 12 < e && has_at(s, q, ref_prefix()) && q + 11 < e2 {
            Some(
                (
                    SimpleModel::LicenseRef {
                        id: s.subrange(q + 11, e2),
                        document: Some(s.subrange(p + 12, e)),
                    },
                    e2,
                ),
            )
        } else {
            None
        }
    } else if has_at(s, p, ref_prefix()) {
        if p + 11 < e {
            Some((SimpleModel::LicenseRef { id: s.subrange(p + 11, e), document: None }, e))
        } else {
            None
        }
    } else {
        let plus = e < s.len() && s[e] == '+';
        Some(
            (
                SimpleModel::LicenseId { id: s.subrange(p, e), or_later: plus },
                if plus {
                    e + 1
                } else {
                    e
                },
            ),
        )
    }
}

/// An operand of `AND`: a parenthesized expression, a term, or a term `WITH` an
/// exception. Leading whitespace is skipped.
pub open spec fn parse_operand(s: Seq<char>, p: int) -> Option<(CompoundModel, int)>
    decreases s.len() - p, 1int,
{
    let p0 = skip_ws(s, p);
    if !(0 <= p <= p0 <= s.len()) {
        None
    } else if p0 < s.len() && s[p0] == '(' {
        match parse_or(s, p0 + 1) {
            Some((c, q)) => {
                let r = skip_ws(s, q);
                if r < s.len() && s[r] == ')' {
                    Some((c, r + 1))
                } else {
                    None
                }
            },
            None => None,
        }
    } else {
        match parse_simple(s, p0) {
            Some((l, q)) => {
                let k = skip_ws(s, q);
                if keyword_at(s, k, kw_with()) {
                    let x = skip_ws(s, k + 4);
                    let e = id_end(s, x);
                    if x < e {
                        Some((CompoundModel::With { license: l, exception: s.subrange(x, e) }, e))
                    } else {
                        None
                    }
                } else {
                    Some((CompoundModel::Simple { license: l }, q))
                }
            },
            None => None,
        }
    }
}

/// Further `AND` operands after `acc`, which ends at `p`, folded to the left.
pub open spec fn and_rest(s: Seq<char>, acc: CompoundModel, p: int) -> Option<
    (CompoundModel, int),
>
    decreases s.len() - p, 0int,
{
    let k = skip_ws(s, p);
    if !(0 <= p <= k <= s.len()) {
        None
    } else if keyword_at(s, k, kw_and()) {
        match parse_operand(s, k + 3) {
            Some((r, q)) => if k + 3 <= q <= s.len() {
                and_rest(s, CompoundModel::And { left: Box::new(acc), right: Box::new(r) }, q)
            } else {
                None
            },
            None => None,
        }
    } else {
        Some((acc, p))
    }
}

pub open spec fn parse_and(s: Seq<char>, p: int) -> Option<(CompoundModel, int)>
    decreases s.len() - p, 2int,
{
    if !(0 <= p <= s.len()) {
        None
    } else {
        match parse_operand(s, p) {
            Some((c, q)) => if p <= q <= s.len() {
                and_rest(s, c, q)
            } else {
                None
            },
            None => None,
        }
    }
}

/// Further `OR` operands after `acc`, which ends at `p`, folded to the left.
pub open spec fn or_rest(s: Seq<char>, acc: CompoundModel, p: int) -> Option<
    (CompoundModel, int),
>
    decreases s.len() - p, 0int,
{
    let k = skip_ws(s, p);
    if !(0 <= p <= k <= s.len()) {
        None
    } else if keyword_at(s, k, kw_or()) {
        match parse_and(s, k + 2) {
            Some((r, q)) => if k + 2 <= q <= s.len() {
                or_rest(s, CompoundModel::Or { left: Box::new(acc), right: Box::new(r) }, q)
            } else {
                None
            },
            None => None,
        }
    } else {
        Some((acc, p))
    }
}

/// A whole expression at `p`: `OR` binds loosest, then `AND`, then `WITH`.
pub open spec fn parse_or(s: Seq<char>, p: int) -> Option<(CompoundModel, int)>
    decreases s.len() - p, 3int,
{
    if !(0 <= p <= s.len()) {
        None
    } else {
        match parse_and(s, p) {
            Some((c, q)) => if p <= q <= s.len() {
                or_rest(s, c, q)
            } else {
                None
            },
            None => None,
        }
    }
}

/// The tree of `s` where an expression takes up all of it, trailing whitespace aside.
pub open spec fn parse_expression(s: Seq<char>) -> Option<CompoundModel> {
    match parse_or(s, 0) {
        Some((c, q)) => if skip_ws(s, q) == s.len() {
            Some(c)
        } else {
            None
        },
        None => None,
    }
}

pub(crate) fn to_chars(s: &str) -> (r: Vec<char>)
    ensures
        r@ == s@,
{
    let n = s.unicode_len();
    let mut r: Vec<char> = Vec::new();
    let mut i: usize = 0;
    while i < n
        invariant
            n == s@.len(),
            i <= n,
            r@ == s@.subrange(0, i as int),
        decreases n - i,
    {
        r.push(s.get_char(i));
        i = i + 1;
    }
    assert(r@ =~= s@);
    r
}

fn is_space(c: char) -> (r: bool)
    ensures
        r == is_ws(c),
{
    c == ' ' || c == '\t' || c == '\n' || c == '\r'
}

pub(crate) fn skip_spaces(chars: &Vec<char>, p: usize) -> (r: usize)
    requires
        p <= chars@.len(),
    ensures
        r == skip_ws(chars@, p as int),
        p <= r <= chars@.len(),
{
    let mut i = p;
    while i < chars.len() && is_space(chars[i])
        invariant
            p <= i <= chars@.len(),
            skip_ws(chars@, i as int) == skip_ws(chars@, p as int),
        decreases chars@.len() - i,
    {
        i = i + 1;
    }
    i
}

fn scan_id(chars: &Vec<char>, p: usize) -> (r: usize)
    requires
        p <= chars@.len(),
    ensures
        r == id_end(chars@, p as int),
        p <= r <= chars@.len(),
{
    let mut i = p;
    while i < chars.len() && valid_id_char(chars[i])
        invariant
            p <= i <= chars@.len(),
            id_end(chars@, i as int) == id_end(chars@, p as int),
        decreases chars@.len() - i,
    {
        i = i + 1;
    }
    i
}

fn matches_at(chars: &Vec<char>, p: usize, lit: &Vec<char>) -> (r: bool)
    requires
        p <= chars@.len(),
    ensures
        r == has_at(chars@, p as int, lit@),
{
    if lit.len() > chars.len() - p {
        return false;
    }
    let mut i: usize = 0;
    while i < lit.len()
        invariant
            p + lit@.len() <= chars@.len(),
            i <= lit@.len(),
            chars@.len() == chars.len(),
            forall|j: int| 0 <= j < i ==> chars@[p + j] == lit@[j],
        decreases lit@.len() - i,
    {
        if chars[p + i] != lit[i] {
            assert(chars@.subrange(p as int, p + lit@.len())[i as int] != lit@[i as int]);
            return false;
        }
        i = i + 1;
    }
    assert(chars@.subrange(p as int, p + lit@.len()) =~= lit@);
    true
}

fn keyword(chars: &Vec<char>, p: usize, kw: &Vec<char>) -> (r: bool)
    requires
        p <= chars@.len(),
    ensures
        r == keyword_at(chars@, p as int, kw@),
{
    assert(chars@.len() == chars.len());
    matches_at(chars, p, kw) && (p + kw.len() == chars.len() || !valid_id_char(chars[p + kw.len()]))
}

fn simple_at<'a>(s: &'a str, chars: &Vec<char>, p: usize) -> (r: Option<(Simple<'a>, usize)>)
    requires
        chars@ == s@,
        p <= chars@.len(),
    ensures
        match r {
            Some((l, q)) => parse_simple(chars@, p as int) == Some((l@, q as int)) && l.is_borrowed()
                && q <= chars@.len(),
            None => parse_simple(chars@, p as int) is None,
        },
{
    let e = scan_id(chars, p);
    if e == p {
        return None;
    }
    let doc = vec!['D', 'o', 'c', 'u', 'm', 'e', 'n', 't', 'R', 'e', 'f', '-'];
    let lref = vec!['L', 'i', 'c', 'e', 'n', 's', 'e', 'R', 'e', 'f', '-'];
    if matches_at(chars, p, &doc) && e < chars.len() && chars[e] == ':' {
        let q = e + 1;
        let e2 = scan_id(chars, q);
        if e - p > 12 && matches_at(chars, q, &lref) && e2 - q > 11 {
            let id = Id::new(s.substring_char(q + 11, e2));
            let document = Id::new(s.substring_char(p + 12, e));
            Some((Simple::LicenseRef { id, document: Some(document) }, e2))
        } else {
            None
        }
    } else if matches_at(chars, p, &lref) {
        if e - p > 11 {
            Some((Simple::LicenseRef { id: Id::new(s.substring_char(p + 11, e)), document: None }, e))
        } else {
            None
        }
    } else {
        let id = Id::new(s.substring_char(p, e));
        if e < chars.len() && chars[e] == '+' {
            Some((Simple::LicenseId { id, or_later: true }, e + 1))
        } else {
            Some((Simple::LicenseId { id, or_later: false }, e))
        }
    }
}

fn operand_at<'a>(s: &'a str, chars: &Vec<char>, p: usize) -> (r: Option<(Compound<'a>, usize)>)
    requires
        chars@ == s@,
        p <= chars@.len(),
    ensures
        match r {
            Some((c, q)) => parse_operand(chars@, p as int) == Some((c@, q as int)) && c.is_borrowed()
                && p <= q <= chars@.len(),
            None => parse_operand(chars@, p as int) is None,
        },
    decreases chars@.len() - p, 1int,
{
    let p0 = skip_spaces(chars, p);
    if p0 < chars.len() && chars[p0] == '(' {
        match or_at(s, chars, p0 + 1) {
            Some((c, q)) => {
                let r = skip_spaces(chars, q);
                if r < chars.len() && chars[r] == ')' {
                    Some((c, r + 1))
                } else {
                    None
                }
            },
            None => None,
        }
    } else {
        match simple_at(s, chars, p0) {
            Some((license, q)) => {
                let k = skip_spaces(chars, q);
                if keyword(chars, k, &vec!['W', 'I', 'T', 'H']) {
                    let x = skip_spaces(chars, k + 4);
                    let e = scan_id(chars, x);
                    if x < e {
                        let exception = Id::new(s.substring_char(x, e));
                        Some((Compound::With { license, exception }, e))
                    } else {
                        None
                    }
                } else {
                    Some((Compound::Simple { license }, q))
                }
            },
            None => None,
        }
    }
}

fn and_rest_at<'a>(s: &'a str, chars: &Vec<char>, acc: Compound<'a>, p: usize) -> (r: Option<
    (Compound<'a>, usize),
>)
    requires
        chars@ == s@,
        p <= chars@.len(),
        acc.is_borrowed(),
    ensures
        match r {
            Some((c, q)) => and_rest(chars@, acc@, p as int) == Some((c@, q as int))
                && c.is_borrowed() && p <= q <= chars@.len(),
            None => and_rest(chars@, acc@, p as int) is None,
        },
    decreases chars@.len() - p, 0int,
{
    let k = skip_spaces(chars, p);
    assert(chars@.len() == chars.len());
    if keyword(chars, k, &vec!['A', 'N', 'D']) {
        match operand_at(s, chars, k + 3) {
            Some((right, q)) => {
                let c = Compound::And { left: Box::new(acc), right: Box::new(right) };
                and_rest_at(s, chars, c, q)
            },
            None => None,
        }
    } else {
        Some((acc, p))
    }
}

fn and_at<'a>(s: &'a str, chars: &Vec<char>, p: usize) -> (r: Option<(Compound<'a>, usize)>)
    requires
        chars@ == s@,
        p <= chars@.len(),
    ensures
        match r {
            Some((c, q)) => parse_and(chars@, p as int) == Some((c@, q as int)) && c.is_borrowed()
                && p <= q <= chars@.len(),
            None => parse_and(chars@, p as int) is None,
        },
    decreases chars@.len() - p, 2int,
{
    match operand_at(s, chars, p) {
        Some((c, q)) => and_rest_at(s, chars, c, q),
        None => None,
    }
}

fn or_rest_at<'a>(s: &'a str, chars: &Vec<char>, acc: Compound<'a>, p: usize) -> (r: Option<
    (Compound<'a>, usize),
>)
    requires
        chars@ == s@,
        p <= chars@.len(),
        acc.is_borrowed(),
    ensures
        match r {
            Some((c, q)) => or_rest(chars@, acc@, p as int) == Some((c@, q as int))
                && c.is_borrowed() && p <= q <= chars@.len(),
            None => or_rest(chars@, acc@, p as int) is None,
        },
    decreases chars@.len() - p, 0int,
{
    let k = skip_spaces(chars, p);
    assert(chars@.len() == chars.len());
    if keyword(chars, k, &vec!['O', 'R']) {
        match and_at(s, chars, k + 2) {
            Some((right, q)) => {
                let c = Compound::Or { left: Box::new(acc), right: Box::new(right) };
                or_rest_at(s, chars, c, q)
            },
            None => None,
        }
    } else {
        Some((acc, p))
    }
}

/// Parses an expression at `p`, as far as it goes.
pub(crate) fn or_at<'a>(s: &'a str, chars: &Vec<char>, p: usize) -> (r: Option<
    (Compound<'a>, usize),
>)
    requires
        chars@ == s@,
        p <= chars@.len(),
    ensures
        match r {
            Some((c, q)) => parse_or(chars@, p as int) == Some((c@, q as int)) && c.is_borrowed()
                && p <= q <= chars@.len(),
            None => parse_or(chars@, p as int) is None,
        },
    decreases chars@.len() - p, 3int,
{
    match and_at(s, chars, p) {
        Some((c, q)) => or_rest_at(s, chars, c, q),
        None => None,
    }
}

} // verus!
