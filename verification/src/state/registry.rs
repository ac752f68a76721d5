//! The mathematical model of the currency registry.
//!
//! The registry is an ordered set of currency identifiers. Registering an
//! identifier drops any occurrence it already has and appends it, so the
//! operation is idempotent and keeps the sequence duplicate-free.
use vstd::prelude::*;

verus! {

/// Keeps every identifier other than `id`.
pub open spec fn keeps(id: Seq<char>) -> spec_fn(Seq<char>) -> bool {
    |c: Seq<char>| c != id
}

/// Is exactly `id`.
pub open spec fn is_id(id: Seq<char>) -> spec_fn(Seq<char>) -> bool {
    |c: Seq<char>| c == id
}

/// Registering `id`: dedup, then append.
pub open spec fn register_spec(cs: Seq<Seq<char>>, id: Seq<char>) -> Seq<Seq<char>> {
    cs.filter(keeps(id)).push(id)
}

/// How often `id` occurs in the registry.
pub open spec fn occurrences(cs: Seq<Seq<char>>, id: Seq<char>) -> nat {
    cs.filter(is_id(id)).len()
}

pub open spec fn seq_distinct<A>(s: Seq<A>) -> bool {
    forall|i: int, j: int| 0 <= i < j < s.len() ==> s[i] != s[j]
}

/// Filtering a sequence with one more element appended filters the prefix
/// and keeps or drops the new element.
pub proof fn lemma_filter_push<A>(s: Seq<A>, pred: spec_fn(A) -> bool, e: A)
    ensures
        s.push(e).filter(pred) == if pred(e) {
            s.filter(pred).push(e)
        } else {
            s.filter(pred)
        },
{
    reveal(Seq::filter);
    assert(s.push(e).drop_last() =~= s);
    assert(s.push(e).last() == e);
}

/// What filtering keeps is exactly the elements that pass the predicate.
pub proof fn lemma_filter_membership<A>(s: Seq<A>, pred: spec_fn(A) -> bool)
    ensures
        forall|x: A| #[trigger] s.filter(pred).contains(x) <==> (s.contains(x) && pred(x)),
    decreases s.len(),
{
    reveal(Seq::filter);
    if s.len() == 0 {
        assert forall|x: A| #[trigger] s.filter(pred).contains(x) implies (s.contains(x) && pred(
            x,
        )) by {}
        assert forall|x: A| (s.contains(x) && pred(x)) implies #[trigger] s.filter(pred).contains(
            x,
        ) by {}
    } else {
        let d = s.drop_last();
        lemma_filter_membership(d, pred);
        assert forall|x: A| #[trigger] s.contains(x) implies (d.contains(x) || x == s.last()) by {
            let i = choose|i: int| 0 <= i < s.len() && s[i] == x;
            if i < s.len() - 1 {
                assert(d[i] == x);
            }
        }
        assert forall|x: A| d.contains(x) implies #[trigger] s.contains(x) by {
            let i = choose|i: int| 0 <= i < d.len() && d[i] == x;
            assert(s[i] == x);
        }
        assert(s.contains(s.last()));
        if pred(s.last()) {
            assert(s.filter(pred) == d.filter(pred).push(s.last()));
            assert forall|x: A| #[trigger] s.filter(pred).contains(x) implies (s.contains(x)
                && pred(x)) by {
                let t = d.filter(pred);
                let i = choose|i: int| 0 <= i < t.push(s.last()).len() && t.push(s.last())[i] == x;
                if i < t.len() {
                    assert(t.contains(x));
                }
            }
            assert forall|x: A| (s.contains(x) && pred(x)) implies #[trigger] s.filter(
                pred,
            ).contains(x) by {
                let t = d.filter(pred);
                if d.contains(x) {
                    assert(t.contains(x));
                    let i = choose|i: int| 0 <= i < t.len() && t[i] == x;
                    assert(t.push(s.last())[i] == x);
                } else {
                    assert(x == s.last());
                    assert(t.push(s.last()).last() == x);
                }
            }
        } else {
            assert(s.filter(pred) == d.filter(pred));
            assert forall|x: A| (s.contains(x) && pred(x)) implies #[trigger] s.filter(
                pred,
            ).contains(x) by {
                assert(x != s.last());
                assert(d.contains(x));
            }
        }
    }
}

/// Filtering keeps distinct elements distinct.
pub proof fn lemma_filter_distinct<A>(s: Seq<A>, pred: spec_fn(A) -> bool)
    requires
        seq_distinct(s),
    ensures
        seq_distinct(s.filter(pred)),
    decreases s.len(),
{
    reveal(Seq::filter);
    if s.len() > 0 {
        let d = s.drop_last();
        assert(seq_distinct(d));
        lemma_filter_distinct(d, pred);
        if pred(s.last()) {
            let t = d.filter(pred);
            lemma_filter_membership(d, pred);
            assert(!d.contains(s.last())) by {
                if d.contains(s.last()) {
                    let i = choose|i: int| 0 <= i < d.len() && d[i] == s.last();
                    assert(s[i] == s[s.len() - 1]);
                }
            }
            assert(!t.contains(s.last()));
            assert forall|i: int, j: int|
                0 <= i < j < t.push(s.last()).len() implies t.push(s.last())[i] != t.push(
                s.last(),
            )[j] by {
                if j < t.len() {
                } else {
                    assert(t.push(s.last())[j] == s.last());
                    assert(t.contains(t[i])) by {
                        assert(t[i] == t[i]);
                    }
                }
            }
        }
    }
}

/// Filtering twice with the same predicate filters once.
pub proof fn lemma_filter_idempotent<A>(s: Seq<A>, pred: spec_fn(A) -> bool)
    ensures
        s.filter(pred).filter(pred) == s.filter(pred),
    decreases s.len(),
{
    reveal(Seq::filter);
    if s.len() == 0 {
        assert(s.filter(pred) =~= Seq::<A>::empty());
    } else {
        let d = s.drop_last();
        lemma_filter_idempotent(d, pred);
        if pred(s.last()) {
            assert(s.filter(pred) == d.filter(pred).push(s.last()));
            lemma_filter_push(d.filter(pred), pred, s.last());
        } else {
            assert(s.filter(pred) == d.filter(pred));
        }
    }
}

/// A filter that rejects every element yields the empty sequence.
pub proof fn lemma_filter_none<A>(s: Seq<A>, pred: spec_fn(A) -> bool)
    requires
        forall|i: int| 0 <= i < s.len() ==> !pred(#[trigger] s[i]),
    ensures
        s.filter(pred) == Seq::<A>::empty(),
    decreases s.len(),
{
    reveal(Seq::filter);
    if s.len() == 0 {
        assert(s.filter(pred) =~= Seq::<A>::empty());
    } else {
        let d = s.drop_last();
        assert(forall|i: int| 0 <= i < d.len() ==> !pred(#[trigger] d[i]));
        lemma_filter_none(d, pred);
        assert(!pred(s[s.len() - 1]));
    }
}

/// Idempotent registration: registering the same identifier twice leaves
/// exactly the registry that registering it once leaves.
pub proof fn lemma_register_idempotent(cs: Seq<Seq<char>>, id: Seq<char>)
    ensures
        register_spec(register_spec(cs, id), id) == register_spec(cs, id),
{
    let kept = cs.filter(keeps(id));
    lemma_filter_push(kept, keeps(id), id);
    assert(!keeps(id)(id));
    lemma_filter_idempotent(cs, keeps(id));
}

/// After registering an identifier it occurs in the registry exactly once,
/// however often it occurred before.
pub proof fn lemma_register_occurrence(cs: Seq<Seq<char>>, id: Seq<char>)
    ensures
        occurrences(register_spec(cs, id), id) == 1,
{
    let kept = cs.filter(keeps(id));
    lemma_filter_push(kept, is_id(id), id);
    assert(is_id(id)(id));
    lemma_filter_membership(cs, keeps(id));
    assert forall|i: int| 0 <= i < kept.len() implies !is_id(id)(#[trigger] kept[i]) by {
        assert(kept.contains(kept[i]));
    }
    lemma_filter_none(kept, is_id(id));
}

/// Registration keeps the registry duplicate-free.
pub proof fn lemma_register_distinct(cs: Seq<Seq<char>>, id: Seq<char>)
    requires
        seq_distinct(cs),
    ensures
        seq_distinct(register_spec(cs, id)),
{
    let kept = cs.filter(keeps(id));
    lemma_filter_distinct(cs, keeps(id));
    lemma_filter_membership(cs, keeps(id));
    assert forall|i: int, j: int|
        0 <= i < j < register_spec(cs, id).len() implies register_spec(cs, id)[i] != register_spec(
        cs,
        id,
    )[j] by {
        if j < kept.len() {
        } else {
            assert(register_spec(cs, id)[j] == id);
            assert(kept.contains(kept[i]));
            assert(keeps(id)(kept[i]));
        }
    }
}

} // verus!
