use vstd::prelude::*;

use crate::canonical::{paren_if, print_compound, print_simple};
use crate::expr::{CompoundModel, SimpleModel};
use crate::parser::{
    and_rest, doc_prefix, has_at, id_end, is_id_char, is_ws, keyword_at, kw_and, kw_or, kw_with,
    or_rest, parse_and, parse_expression, parse_operand, parse_or, parse_simple, ref_prefix,
    skip_ws,
};

verus! {

/// A non-empty run of identifier characters.
spec fn id_chars(x: Seq<char>) -> bool {
    x.len() > 0 && forall|i: int| 0 <= i < x.len() ==> is_id_char(#[trigger] x[i])
}

/// What every parsed term satisfies.
spec fn simple_wf(l: SimpleModel) -> bool {
    match l {
        SimpleModel::LicenseId { id, .. } => id_chars(id) && !(id.len() >= 11 && id.subrange(0, 11)
            == ref_prefix()),
        SimpleModel::LicenseRef { id, document } => id_chars(id) && match document {
            Some(d) => id_chars(d),
            None => true,
        },
    }
}

/// What every parsed tree satisfies.
spec fn compound_wf(c: CompoundModel) -> bool
    decreases c,
{
    match c {
        CompoundModel::Simple { license } => simple_wf(license),
        CompoundModel::With { license, exception } => simple_wf(license) && id_chars(exception),
        CompoundModel::And { left, right } => compound_wf(*left) && compound_wf(*right),
        CompoundModel::Or { left, right } => compound_wf(*left) && compound_wf(*right),
    }
}

proof fn lemma_skip_ws_bounds(s: Seq<char>, p: int)
    requires
        0 <= p <= s.len(),
    ensures
        p <= skip_ws(s, p) <= s.len(),
    decreases s.len() - p,
{
    if p < s.len() && is_ws(s[p]) {
        lemma_skip_ws_bounds(s, p + 1);
    }
}

proof fn lemma_id_end_bounds(s: Seq<char>, p: int)
    requires
        0 <= p <= s.len(),
    ensures
        p <= id_end(s, p) <= s.len(),
        forall|i: int| p <= i < id_end(s, p) ==> is_id_char(#[trigger] s[i]),
    decreases s.len() - p,
{
    if p < s.len() && is_id_char(s[p]) {
        lemma_id_end_bounds(s, p + 1);
    }
}

proof fn lemma_simple_wf(s: Seq<char>, p: int)
    requires
        0 <= p <= s.len(),
    ensures
        parse_simple(s, p) matches Some((l, q)) ==> simple_wf(l) && p < q <= s.len(),
{
    lemma_id_end_bounds(s, p);
    let e = id_end(s, p);
    if 0 <= p < e {
        if has_at(s, p, doc_prefix()) && e < s.len() && s[e] == ':' {
            lemma_id_end_bounds(s, e + 1);
        } else if !has_at(s, p, ref_prefix()) {
            let id = s.subrange(p, e);
            if id.len() >= 11 && id.subrange(0, 11) == ref_prefix() {
                assert(s.subrange(p, p + 11) =~= id.subrange(0, 11));
            }
        }
    }
}

proof fn lemma_operand_wf(s: Seq<char>, p: int)
    requires
        0 <= p <= s.len(),
    ensures
        parse_operand(s, p) matches Some((c, q)) ==> compound_wf(c) && p <= q <= s.len(),
    decreases s.len() - p, 1int,
{
    lemma_skip_ws_bounds(s, p);
    let p0 = skip_ws(s, p);
    if p0 < s.len() && s[p0] == '(' {
        lemma_or_wf(s, p0 + 1);
        if let Some((c, q)) = parse_or(s, p0 + 1) {
            lemma_skip_ws_bounds(s, q);
        }
    } else {
        lemma_simple_wf(s, p0);
        if let Some((l, q)) = parse_simple(s, p0) {
            lemma_skip_ws_bounds(s, q);
            let k = skip_ws(s, q);
            if keyword_at(s, k, kw_with()) {
                lemma_skip_ws_bounds(s, k + 4);
                lemma_id_end_bounds(s, skip_ws(s, k + 4));
            }
        }
    }
}

proof fn lemma_and_rest_wf(s: Seq<char>, acc: CompoundModel, p: int)
    requires
        0 <= p <= s.len(),
        compound_wf(acc),
    ensures
        and_rest(s, acc, p) matches Some((c, q)) ==> compound_wf(c) && p <= q <= s.len(),
    decreases s.len() - p, 0int,
{
    lemma_skip_ws_bounds(s, p);
    let k = skip_ws(s, p);
    if keyword_at(s, k, kw_and()) {
        lemma_operand_wf(s, k + 3);
        if let Some((r, q)) = parse_operand(s, k + 3) {
            if k + 3 <= q <= s.len() {
                lemma_and_rest_wf(
                    s,
                    CompoundModel::And { left: Box::new(acc), right: Box::new(r) },
                    q,
                );
            }
        }
    }
}

proof fn lemma_and_wf(s: Seq<char>, p: int)
    requires
        0 <= p <= s.len(),
    ensures
        parse_and(s, p) matches Some((c, q)) ==> compound_wf(c) && p <= q <= s.len(),
    decreases s.len() - p, 2int,
{
    lemma_operand_wf(s, p);
    if let Some((c, q)) = parse_operand(s, p) {
        lemma_and_rest_wf(s, c, q);
    }
}

proof fn lemma_or_rest_wf(s: Seq<char>, acc: CompoundModel, p: int)
    requires
        0 <= p <= s.len(),
        compound_wf(acc),
    ensures
        or_rest(s, acc, p) matches Some((c, q)) ==> compound_wf(c) && p <= q <= s.len(),
    decreases s.len() - p, 0int,
{
    lemma_skip_ws_bounds(s, p);
    let k = skip_ws(s, p);
    if keyword_at(s, k, kw_or()) {
        lemma_and_wf(s, k + 2);
        if let Some((r, q)) = parse_and(s, k + 2) {
            if k + 2 <= q <= s.len() {
                lemma_or_rest_wf(
                    s,
                    CompoundModel::Or { left: Box::new(acc), right: Box::new(r) },
                    q,
                );
            }
        }
    }
}

proof fn lemma_or_wf(s: Seq<char>, p: int)
    requires
        0 <= p <= s.len(),
    ensures
        parse_or(s, p) matches Some((c, q)) ==> compound_wf(c) && p <= q <= s.len(),
    decreases s.len() - p, 3int,
{
    lemma_and_wf(s, p);
    if let Some((c, q)) = parse_and(s, p) {
        lemma_or_rest_wf(s, c, q);
    }
}

proof fn lemma_at_index(s: Seq<char>, p: int, a: Seq<char>)
    requires
        has_at(s, p, a),
    ensures
        forall|j: int| 0 <= j < a.len() ==> s[p + j] == #[trigger] a[j],
{
    assert forall|j: int| 0 <= j < a.len() implies s[p + j] == #[trigger] a[j] by {
        assert(s.subrange(p, p + a.len())[j] == s[p + j]);
    }
}

proof fn lemma_split(s: Seq<char>, p: int, a: Seq<char>, b: Seq<char>)
    requires
        has_at(s, p, a + b),
    ensures
        has_at(s, p, a),
        has_at(s, p + a.len(), b),
{
    lemma_at_index(s, p, a + b);
    assert forall|j: int| 0 <= j < a.len() implies s.subrange(p, p + a.len())[j] == a[j] by {
        assert((a + b)[j] == a[j]);
    }
    assert(s.subrange(p, p + a.len()) =~= a);
    let t = s.subrange(p + a.len(), p + a.len() + b.len());
    assert forall|j: int| 0 <= j < b.len() implies t[j] == b[j] by {
        assert((a + b)[a.len() + j] == b[j]);
    }
    assert(t =~= b);
}

proof fn lemma_skip_ws_at(s: Seq<char>, p: int, q: int)
    requires
        0 <= p <= q <= s.len(),
        forall|i: int| p <= i < q ==> is_ws(#[trigger] s[i]),
        q == s.len() || !is_ws(s[q]),
    ensures
        skip_ws(s, p) == q,
    decreases q - p,
{
    if p < q {
        lemma_skip_ws_at(s, p + 1, q);
    }
}

proof fn lemma_id_end_at(s: Seq<char>, p: int, e: int)
    requires
        0 <= p <= e <= s.len(),
        forall|i: int| p <= i < e ==> is_id_char(#[trigger] s[i]),
        e == s.len() || !is_id_char(s[e]),
    ensures
        id_end(s, p) == e,
    decreases e - p,
{
    if p < e {
        lemma_id_end_at(s, p + 1, e);
    }
}

proof fn lemma_prefix_chars()
    ensures
        forall|i: int| 0 <= i < 11 ==> is_id_char(#[trigger] ref_prefix()[i]),
        forall|i: int| 0 <= i < 12 ==> is_id_char(#[trigger] doc_prefix()[i]),
{
}

/// The text of `a` at `p` is a run of identifier characters.
proof fn lemma_run(s: Seq<char>, p: int, a: Seq<char>)
    requires
        has_at(s, p, a),
        forall|j: int| 0 <= j < a.len() ==> is_id_char(#[trigger] a[j]),
    ensures
        forall|i: int| p <= i < p + a.len() ==> is_id_char(#[trigger] s[i]),
{
    lemma_at_index(s, p, a);
    assert forall|i: int| p <= i < p + a.len() implies is_id_char(#[trigger] s[i]) by {
        assert(a[i - p] == s[p + (i - p)]);
    }
}

/// What may follow a term in canonical text: the end, a space or `)`.
spec fn simple_end(s: Seq<char>, e: int) -> bool {
    e == s.len() || s[e] == ' ' || s[e] == ')'
}

/// What may follow an `AND` operand in canonical text.
spec fn operand_end(s: Seq<char>, e: int) -> bool {
    e == s.len() || s[e] == ')' || (s[e] == ' ' && (keyword_at(s, e + 1, kw_and()) || keyword_at(
        s,
        e + 1,
        kw_or(),
    )))
}

/// What may follow an `OR` operand in canonical text.
spec fn and_end(s: Seq<char>, e: int) -> bool {
    e == s.len() || s[e] == ')' || (s[e] == ' ' && keyword_at(s, e + 1, kw_or()))
}

/// What may follow a whole expression in canonical text: the end or `)`.
spec fn or_end(s: Seq<char>, e: int) -> bool {
    e == s.len() || s[e] == ')'
}

proof fn lemma_print_simple_first(l: SimpleModel)
    requires
        simple_wf(l),
    ensures
        print_simple(l).len() > 0,
        is_id_char(print_simple(l)[0]),
{
    lemma_prefix_chars();
    match l {
        SimpleModel::LicenseId { id, or_later } => {
            if or_later {
                assert(id.push('+')[0] == id[0]);
            }
        },
        SimpleModel::LicenseRef { id, document } => match document {
            Some(d) => {
                assert((doc_prefix() + d + seq![':'] + ref_prefix() + id)[0] == doc_prefix()[0]);
            },
            None => {
                assert((ref_prefix() + id)[0] == ref_prefix()[0]);
            },
        },
    }
}

proof fn lemma_parse_simple(s: Seq<char>, p: int, l: SimpleModel)
    requires
        simple_wf(l),
        has_at(s, p, print_simple(l)),
        simple_end(s, p + print_simple(l).len()),
    ensures
        parse_simple(s, p) == Some((l, p + print_simple(l).len())),
{
    lemma_prefix_chars();
    let e = p + print_simple(l).len();
    match l {
        SimpleModel::LicenseId { id, or_later } => {
            let n = p + id.len();
            if or_later {
                assert(id.push('+') =~= id + seq!['+']);
                lemma_split(s, p, id, seq!['+']);
                lemma_at_index(s, n, seq!['+']);
                assert(seq!['+'][0] == '+');
                assert(s[n + 0] == '+');
            } else {
                assert(has_at(s, p, id));
            }
            lemma_run(s, p, id);
            lemma_id_end_at(s, p, n);
            if has_at(s, p, ref_prefix()) {
                lemma_at_index(s, p, ref_prefix());
                if n < p + 11 {
                    assert(s[p + (n - p)] == ref_prefix()[n - p]);
                }
                lemma_at_index(s, p, id);
                assert(id.subrange(0, 11) =~= ref_prefix());
            }
            assert(s.subrange(p, n) =~= id);
        },
        SimpleModel::LicenseRef { id, document } => match document {
            Some(d) => {
                let pre = doc_prefix() + d;
                lemma_split(s, p, pre + seq![':'] + ref_prefix(), id);
                lemma_split(s, p, pre + seq![':'], ref_prefix());
                lemma_split(s, p, pre, seq![':']);
                lemma_split(s, p, doc_prefix(), d);
                let e1 = p + 12 + d.len();
                let q = e1 + 1;
                lemma_at_index(s, e1, seq![':']);
                assert(seq![':'][0] == ':');
                assert(s[e1 + 0] == ':');
                lemma_run(s, p, doc_prefix());
                lemma_run(s, p + 12, d);
                lemma_id_end_at(s, p, e1);
                lemma_run(s, q, ref_prefix());
                lemma_run(s, q + 11, id);
                lemma_id_end_at(s, q, e);
                assert(s.subrange(q + 11, e) =~= id);
                assert(s.subrange(p + 12, e1) =~= d);
            },
            None => {
                lemma_split(s, p, ref_prefix(), id);
                lemma_run(s, p, ref_prefix());
                lemma_run(s, p + 11, id);
                lemma_id_end_at(s, p, e);
                lemma_at_index(s, p, ref_prefix());
                if has_at(s, p, doc_prefix()) {
                    lemma_at_index(s, p, doc_prefix());
                    assert(s[p + 0] == doc_prefix()[0]);
                    assert(s[p + 0] == ref_prefix()[0]);
                }
                assert(s.subrange(p + 11, e) =~= id);
            },
        },
    }
}

proof fn lemma_first_char(s: Seq<char>, p: int, a: Seq<char>)
    requires
        has_at(s, p, a),
        a.len() > 0,
    ensures
        s[p] == a[0],
{
    lemma_at_index(s, p, a);
    assert(s[p + 0] == a[0]);
}

proof fn lemma_and_stop(s: Seq<char>, acc: CompoundModel, e: int)
    requires
        0 <= e <= s.len(),
        and_end(s, e),
    ensures
        and_rest(s, acc, e) == Some((acc, e)),
{
    if e < s.len() && s[e] == ' ' {
        lemma_first_char(s, e + 1, kw_or());
        lemma_skip_ws_at(s, e, e + 1);
        if keyword_at(s, e + 1, kw_and()) {
            lemma_first_char(s, e + 1, kw_and());
        }
    } else {
        lemma_skip_ws_at(s, e, e);
        if keyword_at(s, e, kw_and()) {
            lemma_first_char(s, e, kw_and());
        }
    }
}

proof fn lemma_or_stop(s: Seq<char>, acc: CompoundModel, e: int)
    requires
        0 <= e <= s.len(),
        or_end(s, e),
    ensures
        or_rest(s, acc, e) == Some((acc, e)),
{
    lemma_skip_ws_at(s, e, e);
    if keyword_at(s, e, kw_or()) {
        lemma_first_char(s, e, kw_or());
    }
}

/// The text of a well-formed operand starts with neither whitespace nor `)`.
proof fn lemma_operand_first(c: CompoundModel)
    requires
        compound_wf(c),
    ensures
        paren_if(c, print_compound(c)).len() > 0,
        !is_ws(paren_if(c, print_compound(c))[0]),
{
    match c {
        CompoundModel::Simple { license } => lemma_print_simple_first(license),
        CompoundModel::With { license, exception } => {
            lemma_print_simple_first(license);
            let a = print_simple(license);
            assert((a + seq![' '] + kw_with() + seq![' '] + exception)[0] == a[0]);
        },
        _ => {
            assert((seq!['('] + print_compound(c) + seq![')'])[0] == '(');
        },
    }
}

proof fn lemma_leaf_operand(s: Seq<char>, p: int, q: int, c: CompoundModel)
    requires
        c is Simple || c is With,
        compound_wf(c),
        0 <= p <= q,
        forall|i: int| p <= i < q ==> is_ws(#[trigger] s[i]),
        has_at(s, q, print_compound(c)),
        operand_end(s, q + print_compound(c).len()),
    ensures
        parse_operand(s, p) == Some((c, q + print_compound(c).len())),
{
    let e = q + print_compound(c).len();
    lemma_operand_first(c);
    lemma_first_char(s, q, print_compound(c));
    lemma_skip_ws_at(s, p, q);
    match c {
        CompoundModel::Simple { license } => {
            lemma_parse_simple(s, q, license);
            if e < s.len() && s[e] == ' ' {
                if keyword_at(s, e + 1, kw_and()) {
                    lemma_first_char(s, e + 1, kw_and());
                } else {
                    lemma_first_char(s, e + 1, kw_or());
                }
                lemma_skip_ws_at(s, e, e + 1);
                if keyword_at(s, e + 1, kw_with()) {
                    lemma_first_char(s, e + 1, kw_with());
                }
            } else {
                lemma_skip_ws_at(s, e, e);
                if keyword_at(s, e, kw_with()) {
                    lemma_first_char(s, e, kw_with());
                }
            }
        },
        CompoundModel::With { license, exception } => {
            let a = print_simple(license);
            lemma_split(s, q, a + seq![' '] + kw_with() + seq![' '], exception);
            lemma_split(s, q, a + seq![' '] + kw_with(), seq![' ']);
            lemma_split(s, q, a + seq![' '], kw_with());
            lemma_split(s, q, a, seq![' ']);
            let e1 = q + a.len();
            lemma_first_char(s, e1, seq![' ']);
            lemma_first_char(s, e1 + 1, kw_with());
            lemma_first_char(s, e1 + 5, seq![' ']);
            lemma_first_char(s, e1 + 6, exception);
            lemma_parse_simple(s, q, license);
            lemma_skip_ws_at(s, e1, e1 + 1);
            lemma_skip_ws_at(s, e1 + 5, e1 + 6);
            lemma_run(s, e1 + 6, exception);
            lemma_id_end_at(s, e1 + 6, e);
            assert(s.subrange(e1 + 6, e) =~= exception);
        },
        _ => {},
    }
}

proof fn lemma_operand(s: Seq<char>, p: int, q: int, c: CompoundModel)
    requires
        compound_wf(c),
        0 <= p <= q,
        forall|i: int| p <= i < q ==> is_ws(#[trigger] s[i]),
        has_at(s, q, paren_if(c, print_compound(c))),
        operand_end(s, q + paren_if(c, print_compound(c)).len()),
    ensures
        parse_operand(s, p) == Some((c, q + paren_if(c, print_compound(c)).len())),
    decreases c, 2int,
{
    if c is Simple || c is With {
        lemma_leaf_operand(s, p, q, c);
    } else {
        let t = print_compound(c);
        let e = q + t.len() + 2;
        lemma_split(s, q, seq!['('] + t, seq![')']);
        lemma_split(s, q, seq!['('], t);
        lemma_first_char(s, q, seq!['(']);
        lemma_first_char(s, e - 1, seq![')']);
        lemma_skip_ws_at(s, p, q);
        lemma_or(s, q + 1, q + 1, c);
        lemma_skip_ws_at(s, e - 1, e - 1);
    }
}

proof fn lemma_and_operand(s: Seq<char>, p: int, q: int, c: CompoundModel)
    requires
        compound_wf(c),
        0 <= p <= q,
        forall|i: int| p <= i < q ==> is_ws(#[trigger] s[i]),
        has_at(s, q, paren_if(c, print_compound(c))),
        and_end(s, q + paren_if(c, print_compound(c)).len()),
    ensures
        parse_and(s, p) == Some((c, q + paren_if(c, print_compound(c)).len())),
    decreases c, 3int,
{
    let e = q + paren_if(c, print_compound(c)).len();
    lemma_operand(s, p, q, c);
    lemma_and_stop(s, c, e);
}

proof fn lemma_and_node(s: Seq<char>, p: int, q: int, c: CompoundModel)
    requires
        c is And,
        compound_wf(c),
        0 <= p <= q,
        forall|i: int| p <= i < q ==> is_ws(#[trigger] s[i]),
        has_at(s, q, print_compound(c)),
        and_end(s, q + print_compound(c).len()),
    ensures
        parse_and(s, p) == Some((c, q + print_compound(c).len())),
    decreases c, 0int,
{
    let e = q + print_compound(c).len();
    if let CompoundModel::And { left, right } = c {
        let a = paren_if(*left, print_compound(*left));
        let b = paren_if(*right, print_compound(*right));
        lemma_split(s, q, a + seq![' '] + kw_and() + seq![' '], b);
        lemma_split(s, q, a + seq![' '] + kw_and(), seq![' ']);
        lemma_split(s, q, a + seq![' '], kw_and());
        lemma_split(s, q, a, seq![' ']);
        let e1 = q + a.len();
        lemma_first_char(s, e1, seq![' ']);
        lemma_first_char(s, e1 + 1, kw_and());
        lemma_first_char(s, e1 + 4, seq![' ']);
        assert(keyword_at(s, e1 + 1, kw_and()));
        lemma_operand(s, p, q, *left);
        lemma_skip_ws_at(s, e1, e1 + 1);
        lemma_operand_first(*right);
        lemma_first_char(s, e1 + 5, b);
        lemma_operand(s, e1 + 4, e1 + 5, *right);
        lemma_and_stop(s, c, e);
        assert(and_rest(s, *left, e1) == and_rest(s, c, e));
    }
}

proof fn lemma_or(s: Seq<char>, p: int, q: int, c: CompoundModel)
    requires
        compound_wf(c),
        0 <= p <= q,
        forall|i: int| p <= i < q ==> is_ws(#[trigger] s[i]),
        has_at(s, q, print_compound(c)),
        or_end(s, q + print_compound(c).len()),
    ensures
        parse_or(s, p) == Some((c, q + print_compound(c).len())),
    decreases c, 1int,
{
    let e = q + print_compound(c).len();
    match c {
        CompoundModel::And { .. } => {
            lemma_and_node(s, p, q, c);
            lemma_or_stop(s, c, e);
        },
        CompoundModel::Or { left, right } => {
            let a = paren_if(*left, print_compound(*left));
            let b = paren_if(*right, print_compound(*right));
            lemma_split(s, q, a + seq![' '] + kw_or() + seq![' '], b);
            lemma_split(s, q, a + seq![' '] + kw_or(), seq![' ']);
            lemma_split(s, q, a + seq![' '], kw_or());
            lemma_split(s, q, a, seq![' ']);
            let e1 = q + a.len();
            lemma_first_char(s, e1, seq![' ']);
            lemma_first_char(s, e1 + 1, kw_or());
            lemma_first_char(s, e1 + 3, seq![' ']);
            assert(keyword_at(s, e1 + 1, kw_or()));
            lemma_and_operand(s, p, q, *left);
            lemma_skip_ws_at(s, e1, e1 + 1);
            lemma_operand_first(*right);
            lemma_first_char(s, e1 + 4, b);
            lemma_and_operand(s, e1 + 3, e1 + 4, *right);
            lemma_or_stop(s, c, e);
            assert(or_rest(s, *left, e1) == or_rest(s, c, e));
        },
        _ => {
            lemma_leaf_operand(s, p, q, c);
            lemma_and_stop(s, c, e);
            lemma_or_stop(s, c, e);
        },
    }
}

/// A well-formed tree is what its canonical text parses to.
proof fn lemma_print_parse(c: CompoundModel)
    requires
        compound_wf(c),
    ensures
        parse_expression(print_compound(c)) == Some(c),
{
    let t = print_compound(c);
    assert(t.subrange(0, t.len() as int) =~= t);
    lemma_or(t, 0, 0, c);
    lemma_skip_ws_at(t, t.len() as int, t.len() as int);
}

/// Writing a parsed tree in canonical form and parsing that text again gives
/// the same tree.
pub proof fn lemma_round_trip(s: Seq<char>)
    requires
        parse_expression(s) is Some,
    ensures
        parse_expression(print_compound(parse_expression(s)->Some_0)) == parse_expression(s),
{
    lemma_or_wf(s, 0);
    lemma_print_parse(parse_expression(s)->Some_0);
}

} // verus!
