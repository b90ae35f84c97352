//! Conversion from host aggregates to native set objects.
//!
//! A host hash set or ordered set of integers is mirrored into a freshly
//! created native set holding one integer element per member; nothing is
//! shared between the host aggregate and the produced object. The conversion
//! is fail-fast by construction: every inserted element is hashable, so no
//! partially populated set can escape.

use std::collections::BTreeSet;
use std::collections::HashSet;

use vstd::prelude::*;
use vstd::std_specs::iter::IteratorSpec;

use crate::object::PyObject;
use crate::python::Python;
use crate::set::PySet;
use crate::value::{PyValue, PyValueRepr};

verus! {

broadcast use {
    vstd::set::group_set_axioms,
    vstd::seq_lib::group_seq_properties,
    vstd::seq::Seq::lemma_take_succ_push,
    vstd::seq::Seq::lemma_take_len,
    vstd::std_specs::hash::group_hash_axioms,
    vstd::std_specs::btree::group_btree_axioms,
    vstd::laws_cmp::group_laws_cmp,
};

/// The element representation of an integer key.
pub open spec fn int_repr(k: i64) -> PyValueRepr {
    PyValueRepr::Int(k as int)
}

/// A host aggregate that mirrors itself into a freshly created native set.
///
/// The produced object is pinned pointwise: it holds the representation of
/// exactly the keys the host aggregate holds, and nothing else.
pub trait ToPyObject {
    /// Whether the host aggregate holds `k`.
    spec fn member(&self, k: i64) -> bool;

    /// Build a native set object mirroring this aggregate's membership.
    fn to_object(&self, py: Python) -> (r: PyObject)
        ensures
            r matches PyObject::SetObject(s) && s.wf()
                && (forall|x: PyValueRepr| #[trigger] s@.contains(x)
                    ==> (exists|k: i64| x == #[trigger] int_repr(k)))
                && (forall|k: i64| #[trigger] s@.contains(int_repr(k)) <==> self.member(k)),
    ;
}

impl ToPyObject for HashSet<i64> {
    open spec fn member(&self, k: i64) -> bool {
        self@.contains(k)
    }

    fn to_object(&self, py: Python) -> (r: PyObject)
        ensures
            r matches PyObject::SetObject(s) && s.wf()
                && (forall|x: PyValueRepr| #[trigger] s@.contains(x)
                    ==> (exists|k: i64| x == #[trigger] int_repr(k)))
                && (forall|k: i64| #[trigger] s@.contains(int_repr(k)) <==> self.member(k)),
    {
        let seed: Vec<PyValue> = Vec::new();
        let mut s = PySet::new(py, seed.as_slice());
        proof {
            vstd::std_specs::hash::axiom_spec_hash_keys_iter(self);
            let keys0 = vstd::std_specs::hash::spec_hash_keys_iter(self).remaining().unref();
            assert(forall|k2: i64| #[trigger] keys0.contains(k2) <==> keys0.to_set().contains(k2));
            assert(s@ =~= Set::<PyValueRepr>::empty());
        }
        for k in it: self.iter()
            invariant
                s.wf(),
                it.seq().unref().len() == it.seq().len(),
                forall|x: PyValueRepr| #[trigger] s@.contains(x)
                    ==> (exists|k2: i64| x == #[trigger] int_repr(k2)),
                forall|k2: i64| #[trigger] s@.contains(int_repr(k2))
                    <==> it.seq().unref().take(it.index()).contains(k2),
                forall|k2: i64| #[trigger] it.seq().unref().contains(k2) <==> self@.contains(k2),
        {
            let r = s.add(py, PyValue::Int(*k));
            proof {
                assert(int_repr(*k) == PyValueRepr::Int(*k as int));
            }
            r.unwrap();
        }
        PyObject::SetObject(s)
    }
}

impl ToPyObject for BTreeSet<i64> {
    open spec fn member(&self, k: i64) -> bool {
        self@.contains(k)
    }

    fn to_object(&self, py: Python) -> (r: PyObject)
        ensures
            r matches PyObject::SetObject(s) && s.wf()
                && (forall|x: PyValueRepr| #[trigger] s@.contains(x)
                    ==> (exists|k: i64| x == #[trigger] int_repr(k)))
                && (forall|k: i64| #[trigger] s@.contains(int_repr(k)) <==> self.member(k)),
    {
        let seed: Vec<PyValue> = Vec::new();
        let mut s = PySet::new(py, seed.as_slice());
        proof {
            vstd::std_specs::btree::axiom_spec_btree_keys_iter(self);
            let keys0 = vstd::std_specs::btree::spec_btree_keys_iter(self).remaining().unref();
            assert(forall|k2: i64| #[trigger] keys0.contains(k2) <==> keys0.to_set().contains(k2));
            assert(s@ =~= Set::<PyValueRepr>::empty());
        }
        for k in it: self.iter()
            invariant
                s.wf(),
                it.seq().unref().len() == it.seq().len(),
                forall|x: PyValueRepr| #[trigger] s@.contains(x)
                    ==> (exists|k2: i64| x == #[trigger] int_repr(k2)),
                forall|k2: i64| #[trigger] s@.contains(int_repr(k2))
                    <==> it.seq().unref().take(it.index()).contains(k2),
                forall|k2: i64| #[trigger] it.seq().unref().contains(k2) <==> self@.contains(k2),
        {
            let r = s.add(py, PyValue::Int(*k));
            proof {
                assert(int_repr(*k) == PyValueRepr::Int(*k as int));
            }
            r.unwrap();
        }
        PyObject::SetObject(s)
    }
}

} // verus!
