//! The typed wrappers over a native `set` and `frozenset` object.
//!
//! Each wrapper owns exactly one native set object, modelled here as the
//! collection of element values it holds. The view of a wrapper is the
//! mathematical `Set` of element representations, and every operation's
//! contract is stated over that view: construction collapses duplicates,
//! `add` is idempotent, `discard` on an absent key is a no-op, `pop` hands
//! back a member and removes it, and the tri-state membership query keeps
//! "absent" apart from "query failed".
//!
//! Mutating a set while an iterator over it is live has no defined meaning
//! at the foreign boundary; the iterator here therefore works on a snapshot
//! taken when it is created.

use vstd::prelude::*;

use crate::err::{PyErr, PyResult};
use crate::python::Python;
use crate::value::{hashable, PyValue, PyValueRepr};

verus! {

broadcast use {vstd::set::group_set_axioms, vstd::seq_lib::seq_to_set_is_finite};

/// The element representations of a stored sequence, in storage order.
pub open spec fn views_of(s: Seq<PyValue>) -> Seq<PyValueRepr> {
    s.map_values(|v: PyValue| v@)
}

/// Removing one position from a duplicate-free sequence removes exactly that
/// element from the induced set and keeps the sequence duplicate-free.
proof fn lemma_remove_position_to_set<A>(s: Seq<A>, i: int)
    requires
        s.no_duplicates(),
        0 <= i < s.len(),
    ensures
        s.remove(i).to_set() == s.to_set().remove(s[i]),
        s.remove(i).no_duplicates(),
{
    s.remove_ensures(i);
    let t = s.remove(i);
    assert forall|x: A| t.to_set().contains(x) implies s.to_set().remove(s[i]).contains(x) by {
        let j: int = choose|j: int| 0 <= j < t.len() && t[j] == x;
        if j < i {
            assert(s[j] == x);
        } else {
            assert(s[j + 1] == x);
        }
    }
    assert forall|x: A| s.to_set().remove(s[i]).contains(x) implies t.to_set().contains(x) by {
        let j: int = choose|j: int| 0 <= j < s.len() && s[j] == x;
        if j < i {
            assert(t[j] == x);
        } else {
            assert(j != i);
            assert(t[j - 1] == x);
        }
    }
    assert(t.to_set() =~= s.to_set().remove(s[i]));
    assert forall|p: int, q: int|
        0 <= p < t.len() && 0 <= q < t.len() && p != q implies t[p] != t[q] by {
        let sp: int = if p < i { p } else { p + 1 };
        let sq: int = if q < i { q } else { q + 1 };
        assert(t[p] == s[sp]);
        assert(t[q] == s[sq]);
    }
}

/// Mapping the element view over a pushed sequence pushes the pushed
/// element's view.
proof fn lemma_views_of_push(s: Seq<PyValue>, v: PyValue)
    ensures
        views_of(s.push(v)) == views_of(s).push(v@),
{
    assert(views_of(s.push(v)) =~= views_of(s).push(v@));
}

/// The position of the first stored element equal to `key`, if any.
fn position_of(elems: &Vec<PyValue>, key: &PyValue) -> (r: Option<usize>)
    ensures
        match r {
            Some(i) => i < elems@.len() && views_of(elems@)[i as int] == key@,
            None => !views_of(elems@).to_set().contains(key@),
        },
{
    let n: usize = elems.len();
    let mut k: usize = 0;
    while k < n
        invariant
            k <= n,
            n == elems@.len(),
            forall|j: int| 0 <= j < k ==> views_of(elems@)[j] != key@,
        decreases n - k,
    {
        if elems[k].eq(key) {
            return Some(k);
        }
        k = k + 1;
    }
    proof {
        if views_of(elems@).to_set().contains(key@) {
            let j: int = choose|j: int|
                0 <= j < views_of(elems@).len() && views_of(elems@)[j] == key@;
            assert(views_of(elems@)[j] != key@);
        }
    }
    None
}

/// Build a duplicate-free vector holding one representative of each element
/// of `elements`, preserving membership.
fn build_distinct(elements: &[PyValue]) -> (v: Vec<PyValue>)
    ensures
        views_of(v@).no_duplicates(),
        views_of(v@).to_set() == views_of(elements@).to_set(),
{
    let mut v: Vec<PyValue> = Vec::new();
    let n: usize = elements.len();
    let mut k: usize = 0;
    proof {
        assert(views_of(v@) =~= Seq::<PyValueRepr>::empty());
        assert(views_of(v@).to_set() =~= views_of(elements@).subrange(0, 0).to_set());
    }
    while k < n
        invariant
            k <= n,
            n == elements@.len(),
            views_of(v@).no_duplicates(),
            views_of(v@).to_set() == views_of(elements@).subrange(0, k as int).to_set(),
        decreases n - k,
    {
        let e = &elements[k];
        let ghost prefix = views_of(elements@).subrange(0, k as int);
        let ghost longer = views_of(elements@).subrange(0, k as int + 1);
        proof {
            assert(longer =~= prefix.push(elements@[k as int]@));
        }
        match position_of(&v, e) {
            Some(_) => {
                proof {
                    assert(prefix.to_set().contains(e@));
                    prefix.lemma_push_to_set_commute(e@);
                    assert(prefix.to_set().insert(e@) =~= prefix.to_set());
                }
            },
            None => {
                let ghost old_v = v@;
                let c = e.clone();
                let ghost gc = c;
                v.push(c);
                proof {
                    lemma_views_of_push(old_v, gc);
                    views_of(old_v).lemma_push_to_set_commute(e@);
                    prefix.lemma_push_to_set_commute(e@);
                    assert forall|p: int, q: int|
                        0 <= p < views_of(v@).len() && 0 <= q < views_of(v@).len() && p != q
                        implies views_of(v@)[p] != views_of(v@)[q] by {
                        if q == views_of(v@).len() - 1 {
                            assert(views_of(old_v).to_set().contains(views_of(old_v)[p]));
                        } else if p == views_of(v@).len() - 1 {
                            assert(views_of(old_v).to_set().contains(views_of(old_v)[q]));
                        }
                    }
                }
            },
        }
        k = k + 1;
    }
    proof {
        assert(views_of(elements@).subrange(0, elements@.len() as int) =~= views_of(elements@));
    }
    v
}

/// An element-exact copy of a stored element vector.
fn clone_elems(elems: &Vec<PyValue>) -> (r: Vec<PyValue>)
    ensures
        views_of(r@) == views_of(elems@),
{
    let mut items: Vec<PyValue> = Vec::new();
    let n: usize = elems.len();
    let mut k: usize = 0;
    proof {
        assert(views_of(items@) =~= views_of(elems@).subrange(0, 0));
    }
    while k < n
        invariant
            k <= n,
            n == elems@.len(),
            views_of(items@) == views_of(elems@).subrange(0, k as int),
        decreases n - k,
    {
        let ghost old_items = items@;
        let c = elems[k].clone();
        let ghost gc = c;
        items.push(c);
        proof {
            lemma_views_of_push(old_items, gc);
            assert(views_of(items@) =~= views_of(elems@).subrange(0, k as int + 1));
        }
        k = k + 1;
    }
    proof {
        assert(views_of(elems@).subrange(0, elems@.len() as int) =~= views_of(elems@));
    }
    items
}

/// A snapshot iterator over the given elements, starting at the first.
fn snapshot_iter(elems: &Vec<PyValue>) -> (it: PySetIter)
    ensures
        it.remaining() == views_of(elems@),
{
    let items = clone_elems(elems);
    let it = PySetIter { items, pos: 0 };
    proof {
        assert(it.remaining() =~= views_of(elems@));
    }
    it
}

/// A native `set` object: mutable, duplicate-free, holding hashable values.
#[derive(Debug)]
pub struct PySet {
    elems: Vec<PyValue>,
}

impl View for PySet {
    type V = Set<PyValueRepr>;

    open spec fn view(&self) -> Set<PyValueRepr> {
        self.rep().to_set()
    }
}

impl PySet {
    /// The stored element representations, in storage order.
    pub closed spec fn rep(&self) -> Seq<PyValueRepr> {
        views_of(self.elems@)
    }

    /// The object invariant: no element is stored twice, and every member is
    /// hashable.
    pub open spec fn wf(&self) -> bool {
        &&& self.rep().no_duplicates()
        &&& forall|x: PyValueRepr| #[trigger] self@.contains(x) ==> hashable(x)
    }

    /// Create a new set holding the distinct elements of `elements`.
    ///
    /// The interpreter rejects an unhashable element by failing the whole
    /// construction, which the foreign contract treats as fatal; the
    /// precondition therefore asks every element to be hashable.
    pub fn new(_py: Python, elements: &[PyValue]) -> (s: PySet)
        requires
            forall|i: int|
                0 <= i < elements@.len() ==> hashable(#[trigger] views_of(elements@)[i]),
        ensures
            s.wf(),
            s@ == views_of(elements@).to_set(),
    {
        let v = build_distinct(elements);
        let s = PySet { elems: v };
        proof {
            assert forall|x: PyValueRepr| #[trigger] s@.contains(x) implies hashable(x) by {
                let j: int = choose|j: int|
                    0 <= j < views_of(elements@).len() && views_of(elements@)[j] == x;
            }
        }
        s
    }

    /// The number of elements currently in the set.
    pub fn len(&self, _py: Python) -> (n: usize)
        requires
            self.wf(),
        ensures
            n == self@.len(),
    {
        proof {
            self.rep().unique_seq_to_set();
        }
        self.elems.len()
    }

    /// Remove every element. Cannot fail.
    pub fn clear(&mut self, _py: Python)
        requires
            old(self).wf(),
        ensures
            final(self).wf(),
            final(self)@ == Set::<PyValueRepr>::empty(),
    {
        self.elems.clear();
        proof {
            assert(self.rep() =~= Seq::<PyValueRepr>::empty());
            assert(self.rep().to_set() =~= Set::<PyValueRepr>::empty());
        }
    }

    /// Tri-state membership query.
    ///
    /// A hashable key answers `Ok(true)` or `Ok(false)`; an unhashable key
    /// makes the query itself fail with a type error, never a boolean.
    pub fn contains(&self, _py: Python, key: &PyValue) -> (r: PyResult<bool>)
        requires
            self.wf(),
        ensures
            hashable(key@) ==> r == Ok::<bool, PyErr>(self@.contains(key@)),
            !hashable(key@) ==> r == Err::<bool, PyErr>(PyErr::TypeError),
    {
        if !key.is_hashable() {
            return Err(PyErr::TypeError);
        }
        match position_of(&self.elems, key) {
            Some(_) => {
                proof {
                    assert(self.rep().to_set().contains(key@));
                }
                Ok(true)
            },
            None => Ok(false),
        }
    }

    /// Remove `key` if it is present; do nothing if it is absent. Cannot
    /// fail: an unhashable key is simply never present.
    pub fn discard(&mut self, _py: Python, key: &PyValue)
        requires
            old(self).wf(),
        ensures
            final(self).wf(),
            final(self)@ == old(self)@.remove(key@),
    {
        match position_of(&self.elems, key) {
            Some(i) => {
                let ghost old_rep = self.rep();
                self.elems.remove(i);
                proof {
                    assert(self.rep() =~= old_rep.remove(i as int));
                    lemma_remove_position_to_set(old_rep, i as int);
                    assert(old_rep[i as int] == key@);
                }
            },
            None => {
                proof {
                    assert(self.rep().to_set() =~= self.rep().to_set().remove(key@));
                }
            },
        }
        proof {
            assert forall|x: PyValueRepr| #[trigger] self@.contains(x) implies hashable(x) by {
                assert(old(self)@.remove(key@).contains(x));
            }
        }
    }

    /// Insert `key`. Inserting a key that is already present succeeds and
    /// changes nothing; an unhashable key fails with a type error and
    /// changes nothing.
    pub fn add(&mut self, _py: Python, key: PyValue) -> (r: PyResult<()>)
        requires
            old(self).wf(),
        ensures
            final(self).wf(),
            hashable(key@) ==> r == Ok::<(), PyErr>(())
                && final(self)@ == old(self)@.insert(key@),
            !hashable(key@) ==> r == Err::<(), PyErr>(PyErr::TypeError)
                && final(self)@ == old(self)@,
    {
        if !key.is_hashable() {
            return Err(PyErr::TypeError);
        }
        match position_of(&self.elems, &key) {
            Some(_) => {
                proof {
                    assert(self.rep().to_set().contains(key@));
                    assert(self.rep().to_set() =~= self.rep().to_set().insert(key@));
                }
            },
            None => {
                let ghost old_elems = self.elems@;
                let ghost old_rep = self.rep();
                self.elems.push(key);
                proof {
                    lemma_views_of_push(old_elems, key);
                    old_rep.lemma_push_to_set_commute(key@);
                    assert forall|p: int, q: int|
                        0 <= p < self.rep().len() && 0 <= q < self.rep().len() && p != q
                        implies self.rep()[p] != self.rep()[q] by {
                        if q == self.rep().len() - 1 {
                            assert(old_rep.to_set().contains(old_rep[p]));
                        } else if p == self.rep().len() - 1 {
                            assert(old_rep.to_set().contains(old_rep[q]));
                        }
                    }
                }
            },
        }
        proof {
            assert forall|x: PyValueRepr| #[trigger] self@.contains(x) implies hashable(x) by {
                assert(old(self)@.insert(key@).contains(x));
            }
        }
        Ok(())
    }

    /// Remove and return an arbitrary element, or `None` if the set is
    /// empty. Which element leaves when several are present is not promised.
    pub fn pop(&mut self, _py: Python) -> (r: Option<PyValue>)
        requires
            old(self).wf(),
        ensures
            final(self).wf(),
            old(self)@.len() == 0 ==> r is None && final(self)@ == old(self)@,
            old(self)@.len() != 0 ==> r is Some,
            r matches Some(v) ==> old(self)@.contains(v@)
                && final(self)@ == old(self)@.remove(v@),
    {
        proof {
            self.rep().unique_seq_to_set();
        }
        if self.elems.len() == 0 {
            proof {
                assert(self.rep() =~= Seq::<PyValueRepr>::empty());
                assert(self.rep().to_set() =~= Set::<PyValueRepr>::empty());
            }
            return None;
        }
        let ghost old_rep = self.rep();
        let last: usize = self.elems.len() - 1;
        let v = self.elems.remove(last);
        proof {
            assert(self.rep() =~= old_rep.remove(last as int));
            lemma_remove_position_to_set(old_rep, last as int);
            assert(old_rep[last as int] == v@);
            assert(old_rep.to_set().contains(v@));
            assert forall|x: PyValueRepr| #[trigger] self@.contains(x) implies hashable(x) by {
                assert(old(self)@.remove(v@).contains(x));
            }
        }
        Some(v)
    }

    /// A snapshot iterator over the current elements.
    ///
    /// The foreign iteration contract leaves mutation during iteration
    /// undefined, so the elements are copied out up front: the sequence the
    /// iterator yields is the membership at the moment of this call.
    pub fn iter(&self, _py: Python) -> (it: PySetIter)
        requires
            self.wf(),
        ensures
            it.remaining().no_duplicates(),
            it.remaining().to_set() == self@,
    {
        snapshot_iter(&self.elems)
    }
}

/// A lazy, finite, non-restartable walk over a snapshot of a set's elements.
pub struct PySetIter {
    items: Vec<PyValue>,
    pos: usize,
}

impl PySetIter {
    /// The element representations this iterator has yet to yield.
    pub closed spec fn remaining(&self) -> Seq<PyValueRepr> {
        if self.pos <= self.items@.len() {
            views_of(self.items@).subrange(self.pos as int, self.items@.len() as int)
        } else {
            Seq::empty()
        }
    }

    /// The next element of the snapshot, or `None` once it is exhausted.
    pub fn next(&mut self, _py: Python) -> (r: Option<PyValue>)
        ensures
            old(self).remaining().len() == 0 ==> r is None
                && final(self).remaining() == old(self).remaining(),
            old(self).remaining().len() != 0 ==> (r matches Some(v)
                && v@ == old(self).remaining()[0]
                && final(self).remaining() == old(self).remaining().drop_first()),
    {
        if self.pos < self.items.len() {
            let v = self.items[self.pos].clone();
            self.pos = self.pos + 1;
            proof {
                assert(self.remaining() =~= old(self).remaining().drop_first());
            }
            Some(v)
        } else {
            None
        }
    }
}

/// A native `frozenset` object: the immutable sibling of [`PySet`].
///
/// Only construction, size, membership and iteration exist; no operation of
/// this type mutates it, which is the point of the type.
#[derive(Debug)]
pub struct PyFrozenSet {
    elems: Vec<PyValue>,
}

impl View for PyFrozenSet {
    type V = Set<PyValueRepr>;

    open spec fn view(&self) -> Set<PyValueRepr> {
        self.rep().to_set()
    }
}

impl PyFrozenSet {
    /// The stored element representations, in storage order.
    pub closed spec fn rep(&self) -> Seq<PyValueRepr> {
        views_of(self.elems@)
    }

    /// The object invariant: no element is stored twice, and every member is
    /// hashable.
    pub open spec fn wf(&self) -> bool {
        &&& self.rep().no_duplicates()
        &&& forall|x: PyValueRepr| #[trigger] self@.contains(x) ==> hashable(x)
    }

    /// Create a new frozenset holding the distinct elements of `elements`.
    pub fn new(_py: Python, elements: &[PyValue]) -> (s: PyFrozenSet)
        requires
            forall|i: int|
                0 <= i < elements@.len() ==> hashable(#[trigger] views_of(elements@)[i]),
        ensures
            s.wf(),
            s@ == views_of(elements@).to_set(),
    {
        let v = build_distinct(elements);
        let s = PyFrozenSet { elems: v };
        proof {
            assert forall|x: PyValueRepr| #[trigger] s@.contains(x) implies hashable(x) by {
                let j: int = choose|j: int|
                    0 <= j < views_of(elements@).len() && views_of(elements@)[j] == x;
            }
        }
        s
    }

    /// The number of elements in the frozenset.
    pub fn len(&self, _py: Python) -> (n: usize)
        requires
            self.wf(),
        ensures
            n == self@.len(),
    {
        proof {
            self.rep().unique_seq_to_set();
        }
        self.elems.len()
    }

    /// Tri-state membership query, exactly as on [`PySet`].
    pub fn contains(&self, _py: Python, key: &PyValue) -> (r: PyResult<bool>)
        requires
            self.wf(),
        ensures
            hashable(key@) ==> r == Ok::<bool, PyErr>(self@.contains(key@)),
            !hashable(key@) ==> r == Err::<bool, PyErr>(PyErr::TypeError),
    {
        if !key.is_hashable() {
            return Err(PyErr::TypeError);
        }
        match position_of(&self.elems, key) {
            Some(_) => {
                proof {
                    assert(self.rep().to_set().contains(key@));
                }
                Ok(true)
            },
            None => Ok(false),
        }
    }

    /// A snapshot iterator over the elements.
    pub fn iter(&self, _py: Python) -> (it: PySetIter)
        requires
            self.wf(),
        ensures
            it.remaining().no_duplicates(),
            it.remaining().to_set() == self@,
    {
        snapshot_iter(&self.elems)
    }
}

} // verus!
