//! Canonical ordering and joining of request parameters.
//!
//! An upload request is signed over a canonical string: the key/value
//! parameters sorted lexicographically by key (ties broken by value), joined
//! as `key=value` pairs with `&` separators. This module defines that
//! canonical form and proves that it does not depend on the order in which
//! the parameters were supplied.

use vstd::prelude::*;
use vstd::relations::{sorted_by, total_ordering};
use vstd::seq_lib::lemma_sorted_unique;

verus! {

/// One request parameter: a key and a value.
pub type ParamPair = (Seq<char>, Seq<char>);

/// Lexicographic order on character sequences, by Unicode code point;
/// a prefix sorts before every extension of it.
pub open spec fn lex_le(a: Seq<char>, b: Seq<char>) -> bool
    decreases a.len(),
{
    if a.len() == 0 {
        true
    } else if b.len() == 0 {
        false
    } else if (a[0] as u32) < (b[0] as u32) {
        true
    } else if (b[0] as u32) < (a[0] as u32) {
        false
    } else {
        lex_le(a.drop_first(), b.drop_first())
    }
}

/// Order on parameters: by key, ties broken by value.
pub open spec fn pair_le(p: ParamPair, q: ParamPair) -> bool {
    if p.0 == q.0 {
        lex_le(p.1, q.1)
    } else {
        lex_le(p.0, q.0)
    }
}

/// The parameter order as a relation value, for use with sorting.
pub open spec fn pair_ordering() -> spec_fn(ParamPair, ParamPair) -> bool {
    |p: ParamPair, q: ParamPair| pair_le(p, q)
}

pub proof fn lemma_lex_le_reflexive(a: Seq<char>)
    ensures
        lex_le(a, a),
    decreases a.len(),
{
    if a.len() > 0 {
        lemma_lex_le_reflexive(a.drop_first());
    }
}

pub proof fn lemma_lex_le_total(a: Seq<char>, b: Seq<char>)
    ensures
        lex_le(a, b) || lex_le(b, a),
    decreases a.len(),
{
    if a.len() > 0 && b.len() > 0 && a[0] as u32 == b[0] as u32 {
        lemma_lex_le_total(a.drop_first(), b.drop_first());
    }
}

pub proof fn lemma_lex_le_antisymmetric(a: Seq<char>, b: Seq<char>)
    requires
        lex_le(a, b),
        lex_le(b, a),
    ensures
        a == b,
    decreases a.len(),
{
    if a.len() == 0 {
        assert(b.len() == 0);
        assert(a =~= b);
    } else {
        assert(b.len() > 0);
        assert(a[0] as u32 == b[0] as u32);
        vstd::utf8::char_u32_cast(a[0], a[0] as u32);
        vstd::utf8::char_u32_cast(b[0], b[0] as u32);
        assert(a[0] == b[0]);
        lemma_lex_le_antisymmetric(a.drop_first(), b.drop_first());
        assert(a.drop_first() =~= b.drop_first());
        assert forall|i: int| 0 <= i < a.len() implies a[i] == b[i] by {
            if i >= 1 {
                assert(a[i] == a.drop_first()[i - 1]);
                assert(b[i] == b.drop_first()[i - 1]);
            }
        }
        assert(a =~= b);
    }
}

pub proof fn lemma_lex_le_transitive(a: Seq<char>, b: Seq<char>, c: Seq<char>)
    requires
        lex_le(a, b),
        lex_le(b, c),
    ensures
        lex_le(a, c),
    decreases a.len(),
{
    if a.len() > 0 && b.len() > 0 && c.len() > 0
        && a[0] as u32 == b[0] as u32 && b[0] as u32 == c[0] as u32 {
        lemma_lex_le_transitive(a.drop_first(), b.drop_first(), c.drop_first());
    }
}

/// The parameter order is a total order, so sorting by it has a unique result.
pub proof fn lemma_pair_ordering_total()
    ensures
        total_ordering(pair_ordering()),
{
    let leq = pair_ordering();
    assert forall|p: ParamPair| #[trigger] leq(p, p) by {
        lemma_lex_le_reflexive(p.0);
        lemma_lex_le_reflexive(p.1);
    }
    assert forall|p: ParamPair, q: ParamPair| #[trigger] leq(p, q) && #[trigger] leq(q, p)
        implies p == q by {
        if p.0 == q.0 {
            lemma_lex_le_antisymmetric(p.1, q.1);
        } else {
            lemma_lex_le_antisymmetric(p.0, q.0);
        }
    }
    assert forall|p: ParamPair, q: ParamPair, r: ParamPair|
        #[trigger] leq(p, q) && #[trigger] leq(q, r) implies leq(p, r) by {
        if p.0 == q.0 && q.0 == r.0 {
            lemma_lex_le_transitive(p.1, q.1, r.1);
        } else if p.0 != q.0 && q.0 != r.0 {
            lemma_lex_le_transitive(p.0, q.0, r.0);
            if p.0 == r.0 {
                lemma_lex_le_antisymmetric(p.0, q.0);
            }
        }
    }
    assert forall|p: ParamPair, q: ParamPair| #[trigger] leq(p, q) || #[trigger] leq(q, p) by {
        if p.0 == q.0 {
            lemma_lex_le_total(p.1, q.1);
        } else {
            lemma_lex_le_total(p.0, q.0);
        }
    }
}

/// `key=value` for a single parameter.
pub open spec fn pair_chars(p: ParamPair) -> Seq<char> {
    p.0 + "="@ + p.1
}

/// `key=value` pairs joined with `&` separators, in sequence order.
pub open spec fn join_pairs(params: Seq<ParamPair>) -> Seq<char>
    decreases params.len(),
{
    if params.len() == 0 {
        Seq::empty()
    } else if params.len() == 1 {
        pair_chars(params[0])
    } else {
        pair_chars(params[0]) + "&"@ + join_pairs(params.drop_first())
    }
}

/// The canonical string for a set of parameters: sorted, then joined.
pub open spec fn canonical_params(params: Seq<ParamPair>) -> Seq<char> {
    join_pairs(params.sort_by(pair_ordering()))
}

/// Canonicalization is order-independent: two parameter lists holding the
/// same parameters, in whatever order, produce the same canonical string.
pub proof fn lemma_canonical_order_independent(p1: Seq<ParamPair>, p2: Seq<ParamPair>)
    requires
        p1.to_multiset() == p2.to_multiset(),
    ensures
        canonical_params(p1) == canonical_params(p2),
{
    lemma_pair_ordering_total();
    p1.lemma_sort_by_ensures(pair_ordering());
    p2.lemma_sort_by_ensures(pair_ordering());
    lemma_sorted_unique(p1.sort_by(pair_ordering()), p2.sort_by(pair_ordering()), pair_ordering());
}

/// A sequence that is already sorted is its own sort, so joining it gives
/// the canonical string directly.
pub proof fn lemma_canonical_of_sorted(params: Seq<ParamPair>, target: Seq<ParamPair>)
    requires
        sorted_by(target, pair_ordering()),
        params.to_multiset() == target.to_multiset(),
    ensures
        canonical_params(params) == join_pairs(target),
{
    lemma_pair_ordering_total();
    params.lemma_sort_by_ensures(pair_ordering());
    lemma_sorted_unique(params.sort_by(pair_ordering()), target, pair_ordering());
}

} // verus!
