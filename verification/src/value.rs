//! The element model: plain values that can live inside a native set.
//!
//! A native set stores arbitrary interpreter objects; what the wrapper layer
//! relies on is only each element's identity under equality and whether it is
//! hashable. [`PyValue`] captures exactly that: integers and booleans are
//! hashable, an integer list stands for the unhashable objects that make a
//! membership query or an insertion fail with a type error.

use vstd::prelude::*;

verus! {

/// An element value as it appears to the wrapper layer.
#[derive(Debug)]
pub enum PyValue {
    /// An integer object.
    Int(i64),
    /// A boolean object.
    Bool(bool),
    /// A list of integers: a mutable, therefore unhashable, object.
    IntList(Vec<i64>),
}

/// The mathematical value of a [`PyValue`].
pub enum PyValueRepr {
    Int(int),
    Bool(bool),
    IntList(Seq<int>),
}

/// Whether a value may be used as a set element or membership key.
pub open spec fn hashable(v: PyValueRepr) -> bool {
    !(v is IntList)
}

impl View for PyValue {
    type V = PyValueRepr;

    open spec fn view(&self) -> PyValueRepr {
        match self {
            PyValue::Int(i) => PyValueRepr::Int(*i as int),
            PyValue::Bool(b) => PyValueRepr::Bool(*b),
            PyValue::IntList(v) => PyValueRepr::IntList(v@.map_values(|x: i64| x as int)),
        }
    }
}

impl PyValue {
    /// Whether this value is hashable, decided as the interpreter's runtime
    /// type check would decide it.
    pub fn is_hashable(&self) -> (r: bool)
        ensures
            r == hashable(self@),
    {
        match self {
            PyValue::IntList(_) => false,
            _ => true,
        }
    }
}

impl Clone for PyValue {
    fn clone(&self) -> (r: Self)
        ensures
            r@ == self@,
    {
        match self {
            PyValue::Int(i) => PyValue::Int(*i),
            PyValue::Bool(b) => PyValue::Bool(*b),
            PyValue::IntList(v) => {
                let mut w: Vec<i64> = Vec::new();
                let mut k: usize = 0;
                while k < v.len()
                    invariant
                        k <= v.len(),
                        w@ == v@.subrange(0, k as int),
                    decreases v.len() - k,
                {
                    w.push(v[k]);
                    k = k + 1;
                }
                proof {
                    assert(w@ == v@);
                }
                PyValue::IntList(w)
            },
        }
    }
}

impl PartialEq for PyValue {
    /// Structural equality, the equality a native set dedupes by.
    fn eq(&self, other: &Self) -> (r: bool) {
        match (self, other) {
            (PyValue::Int(a), PyValue::Int(b)) => a == b,
            (PyValue::Bool(a), PyValue::Bool(b)) => a == b,
            (PyValue::IntList(a), PyValue::IntList(b)) => {
                if a.len() != b.len() {
                    proof {
                        assert(a@.map_values(|x: i64| x as int).len() == a@.len());
                        assert(b@.map_values(|x: i64| x as int).len() == b@.len());
                    }
                    false
                } else {
                    let mut k: usize = 0;
                    let mut same: bool = true;
                    while k < a.len()
                        invariant
                            k <= a.len(),
                            a@.len() == b@.len(),
                            same <==> (forall|j: int| 0 <= j < k ==> a@[j] == b@[j]),
                        decreases a.len() - k,
                    {
                        if a[k] != b[k] {
                            same = false;
                        }
                        k = k + 1;
                    }
                    proof {
                        let av = a@.map_values(|x: i64| x as int);
                        let bv = b@.map_values(|x: i64| x as int);
                        if same {
                            assert(a@ =~= b@);
                            assert(av =~= bv);
                        } else {
                            let j = choose|j: int| 0 <= j < a@.len() && a@[j] != b@[j];
                            assert(av[j] != bv[j]);
                        }
                    }
                    same
                }
            },
            _ => false,
        }
    }
}

impl vstd::std_specs::cmp::PartialEqSpecImpl for PyValue {
    open spec fn obeys_eq_spec() -> bool {
        true
    }

    open spec fn eq_spec(&self, other: &Self) -> bool {
        self@ == other@
    }
}

} // verus!
