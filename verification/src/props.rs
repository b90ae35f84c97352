//! The laws of the wrapper layer, stated over the views its contracts use.
//!
//! Each law here is a public proof about the `Set` views that the typed
//! wrappers' contracts speak of, so a caller can combine it with those
//! contracts without reopening any implementation.

use vstd::prelude::*;

use crate::conversion::int_repr;
use crate::value::PyValueRepr;

verus! {

broadcast use {vstd::set::group_set_axioms, vstd::seq_lib::seq_to_set_is_finite};

/// The number of distinct elements of a sequence: each element counts
/// once, however often it occurs.
pub open spec fn distinct_count(s: Seq<PyValueRepr>) -> nat
    decreases s.len(),
{
    if s.len() == 0 {
        0
    } else {
        distinct_count(s.drop_last()) + if s.drop_last().contains(s.last()) {
            0nat
        } else {
            1nat
        }
    }
}

/// Construction collapses duplicates: for any finite run of elements, the
/// set built from it — the `to_set()` that `new` promises — has exactly as
/// many members as the run has distinct elements, which is what `len`
/// then reports.
pub proof fn lemma_new_len_counts_distinct(elems: Seq<PyValueRepr>)
    ensures
        elems.to_set().len() == distinct_count(elems),
    decreases elems.len(),
{
    if elems.len() == 0 {
        assert(elems.to_set() =~= Set::<PyValueRepr>::empty());
    } else {
        let prefix = elems.drop_last();
        let last = elems.last();
        lemma_new_len_counts_distinct(prefix);
        assert(elems =~= prefix.push(last));
        prefix.lemma_push_to_set_commute(last);
        if prefix.contains(last) {
            assert(prefix.to_set().contains(last));
            assert(prefix.to_set().insert(last) =~= prefix.to_set());
        } else {
            assert(!prefix.to_set().contains(last));
        }
    }
}

/// Clearing resets the count: the membership after `clear` is the empty
/// set, whatever it was before, and `len` on it reports zero.
pub proof fn lemma_clear_then_len(before: Set<PyValueRepr>)
    ensures
        Set::<PyValueRepr>::empty().len() == 0,
        forall|x: PyValueRepr| !(#[trigger] Set::<PyValueRepr>::empty().contains(x)),
{
}

/// Adding a key is idempotent: inserting it a second time changes neither
/// the membership nor the count, and the key is a member after either
/// insertion.
pub proof fn lemma_add_idempotent(s: Set<PyValueRepr>, k: PyValueRepr)
    requires
        s.finite(),
    ensures
        s.insert(k).insert(k) == s.insert(k),
        s.insert(k).contains(k),
        s.insert(k).insert(k).len() == s.insert(k).len(),
{
    assert(s.insert(k).insert(k) =~= s.insert(k));
}

/// Discarding an absent key leaves the count unchanged; discarding a
/// present key lowers it by exactly one.
pub proof fn lemma_discard_len(s: Set<PyValueRepr>, k: PyValueRepr)
    requires
        s.finite(),
    ensures
        !s.contains(k) ==> s.remove(k) == s && s.remove(k).len() == s.len(),
        s.contains(k) ==> s.remove(k).len() == s.len() - 1,
{
    if !s.contains(k) {
        assert(s.remove(k) =~= s);
    }
}

/// What `pop` removes is gone: a member taken out of the membership is not
/// a member of what remains.
pub proof fn lemma_popped_member_absent(s: Set<PyValueRepr>, k: PyValueRepr)
    requires
        s.contains(k),
        s.finite(),
    ensures
        !s.remove(k).contains(k),
        s.remove(k).len() == s.len() - 1,
{
}

/// The round trip: a native set built from a host membership by the
/// conversion contract is exactly the image of that membership, so reading
/// its members back yields the host membership again.
pub proof fn lemma_conversion_round_trip(h: Set<i64>, s: Set<PyValueRepr>)
    requires
        forall|x: PyValueRepr| #[trigger] s.contains(x)
            ==> (exists|k: i64| x == #[trigger] int_repr(k)),
        forall|k: i64| #[trigger] s.contains(int_repr(k)) <==> h.contains(k),
    ensures
        s == h.map(|k: i64| int_repr(k)),
        forall|k: i64| h.contains(k) <==> #[trigger] s.contains(int_repr(k)),
{
    let f = |k: i64| int_repr(k);
    assert forall|x: PyValueRepr| s.contains(x) implies h.map(f).contains(x) by {
        let k: i64 = choose|k: i64| x == #[trigger] int_repr(k);
        assert(h.contains(k));
        assert(f(k) == x);
    }
    assert forall|x: PyValueRepr| h.map(f).contains(x) implies s.contains(x) by {
        let k: i64 = choose|k: i64| h.contains(k) && f(k) == x;
        assert(s.contains(int_repr(k)));
    }
    assert(s =~= h.map(f));
}

} // verus!
