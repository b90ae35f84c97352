use std::collections::BTreeSet;
use std::collections::HashSet;

use pyset::conversion::ToPyObject;
use pyset::err::{error_on_minusone, translate_membership_code, PyDowncastError, PyErr};
use pyset::object::PyObject;
use pyset::python::Python;
use pyset::set::{PyFrozenSet, PySet};
use pyset::value::PyValue;

#[test]
fn test_new_collapses_duplicates() {
    let gil = Python::acquire_gil();
    let py = gil.python();

    let set = PySet::new(
        py,
        &[PyValue::Int(1), PyValue::Int(1), PyValue::Int(2), PyValue::Int(1)],
    );
    assert_eq!(2, set.len(py));

    let empty = PySet::new(py, &[]);
    assert_eq!(0, empty.len(py));
}

#[test]
fn test_clear_after_any_state() {
    let gil = Python::acquire_gil();
    let py = gil.python();

    let mut set = PySet::new(py, &[PyValue::Int(5), PyValue::Int(6), PyValue::Int(7)]);
    set.add(py, PyValue::Bool(true)).unwrap();
    assert_eq!(4, set.len(py));
    set.clear(py);
    assert_eq!(0, set.len(py));
}

#[test]
fn test_add_is_idempotent() {
    let gil = Python::acquire_gil();
    let py = gil.python();

    let mut set = PySet::new(py, &[PyValue::Int(1), PyValue::Int(2)]);
    set.add(py, PyValue::Int(9)).unwrap();
    let n = set.len(py);
    assert!(set.contains(py, &PyValue::Int(9)).unwrap());
    set.add(py, PyValue::Int(9)).unwrap();
    assert_eq!(n, set.len(py));
    assert!(set.contains(py, &PyValue::Int(9)).unwrap());
}

#[test]
fn test_discard_present_and_absent() {
    let gil = Python::acquire_gil();
    let py = gil.python();

    let mut set = PySet::new(py, &[PyValue::Int(1), PyValue::Int(2), PyValue::Int(3)]);
    set.discard(py, &PyValue::Int(42));
    assert_eq!(3, set.len(py));
    set.discard(py, &PyValue::Int(2));
    assert_eq!(2, set.len(py));
    assert!(!set.contains(py, &PyValue::Int(2)).unwrap());
}

#[test]
fn test_pop_returns_member_then_empties() {
    let gil = Python::acquire_gil();
    let py = gil.python();

    let mut empty = PySet::new(py, &[]);
    assert!(empty.pop(py).is_none());

    let mut set = PySet::new(py, &[PyValue::Int(1), PyValue::Int(2)]);
    let first = set.pop(py).unwrap();
    assert!(first == PyValue::Int(1) || first == PyValue::Int(2));
    assert_eq!(1, set.len(py));
    assert!(!set.contains(py, &first).unwrap());
    let second = set.pop(py).unwrap();
    assert!(second != first);
    assert!(second == PyValue::Int(1) || second == PyValue::Int(2));
    assert!(set.pop(py).is_none());
}

#[test]
fn test_concrete_scenarios() {
    let gil = Python::acquire_gil();
    let py = gil.python();

    assert_eq!(1, PySet::new(py, &[PyValue::Int(1)]).len(py));

    let mut set = PySet::new(py, &[PyValue::Int(1), PyValue::Int(2)]);
    set.add(py, PyValue::Int(1)).unwrap();
    assert_eq!(Ok(true), set.contains(py, &PyValue::Int(1)));
    assert_eq!(2, set.len(py));

    let mut one = PySet::new(py, &[PyValue::Int(1)]);
    assert_eq!(Some(PyValue::Int(1)), one.pop(py));
    assert_eq!(None, one.pop(py));

    assert_eq!(Ok(false), PySet::new(py, &[PyValue::Int(1)]).contains(py, &PyValue::Int(2)));
}

#[test]
fn test_unhashable_key_is_a_type_error() {
    let gil = Python::acquire_gil();
    let py = gil.python();

    let mut set = PySet::new(py, &[PyValue::Int(1)]);
    let unhashable = PyValue::IntList(vec![1, 2]);

    assert_eq!(Err(PyErr::TypeError), set.contains(py, &unhashable));
    assert_eq!(Err(PyErr::TypeError), set.add(py, PyValue::IntList(vec![3])));
    assert_eq!(1, set.len(py));

    let frozen = PyFrozenSet::new(py, &[PyValue::Int(1)]);
    assert_eq!(Err(PyErr::TypeError), frozen.contains(py, &unhashable));
}

#[test]
fn test_downcast_type_mismatch() {
    let gil = Python::acquire_gil();
    let py = gil.python();

    let ob = PyObject::ValueObject(PyValue::Int(3));
    assert_eq!(PyDowncastError, PySet::downcast_into(py, ob).unwrap_err());

    let h: HashSet<i64> = HashSet::new();
    let ob2 = h.to_object(py);
    assert_eq!(PyDowncastError, PyFrozenSet::downcast_into(py, ob2).unwrap_err());
}

#[test]
fn test_sentinel_translation() {
    let gil = Python::acquire_gil();
    let py = gil.python();

    assert_eq!(Ok(()), error_on_minusone(py, 0, PyErr::TypeError));
    assert_eq!(Ok(()), error_on_minusone(py, 1, PyErr::TypeError));
    assert_eq!(Err(PyErr::KeyError), error_on_minusone(py, -1, PyErr::KeyError));

    assert_eq!(Ok(true), translate_membership_code(py, 1, PyErr::TypeError));
    assert_eq!(Ok(false), translate_membership_code(py, 0, PyErr::TypeError));
    assert_eq!(Err(PyErr::TypeError), translate_membership_code(py, -1, PyErr::TypeError));
    assert_eq!(Err(PyErr::MemoryError), translate_membership_code(py, 7, PyErr::MemoryError));
}

#[test]
fn test_hash_set_round_trip() {
    let gil = Python::acquire_gil();
    let py = gil.python();

    for n in [0usize, 1, 8] {
        let mut host: HashSet<i64> = HashSet::new();
        let mut k: i64 = 0;
        while (k as usize) < n {
            host.insert(3 * k);
            k += 1;
        }
        let ob = host.to_object(py);
        let native = PySet::downcast_into(py, ob).unwrap();
        assert_eq!(n, native.len(py));

        // Back: every native element is a member of the host set ...
        let mut back: HashSet<i64> = HashSet::new();
        let mut it = native.iter(py);
        while let Some(el) = it.next(py) {
            match el {
                PyValue::Int(v) => {
                    assert!(host.contains(&v));
                    back.insert(v);
                }
                other => panic!("unexpected element {:?}", other),
            }
        }
        // ... and every host member came back: the memberships are equal.
        assert_eq!(host, back);
    }
}

#[test]
fn test_btree_set_round_trip() {
    let gil = Python::acquire_gil();
    let py = gil.python();

    let mut host: BTreeSet<i64> = BTreeSet::new();
    host.insert(-4);
    host.insert(0);
    host.insert(11);
    let ob = host.to_object(py);
    let native = PySet::downcast_into(py, ob).unwrap();
    assert_eq!(3, native.len(py));

    let mut back: BTreeSet<i64> = BTreeSet::new();
    let mut it = native.iter(py);
    while let Some(el) = it.next(py) {
        match el {
            PyValue::Int(v) => {
                assert!(host.contains(&v));
                back.insert(v);
            }
            other => panic!("unexpected element {:?}", other),
        }
    }
    assert_eq!(host, back);
}

#[test]
fn test_iterator_walks_a_snapshot() {
    let gil = Python::acquire_gil();
    let py = gil.python();

    let mut set = PySet::new(py, &[PyValue::Int(1), PyValue::Int(2)]);
    let mut it = set.iter(py);
    // The snapshot is fixed when the iterator is created; later mutation of
    // the set does not change what the iterator yields.
    set.clear(py);
    let mut seen: usize = 0;
    while let Some(el) = it.next(py) {
        assert!(el == PyValue::Int(1) || el == PyValue::Int(2));
        seen += 1;
    }
    assert_eq!(2, seen);
    assert_eq!(0, set.len(py));
}

#[test]
fn test_value_equality_and_hashability() {
    let a = PyValue::IntList(vec![1, 2, 3]);
    let b = PyValue::IntList(vec![1, 2, 3]);
    let c = PyValue::IntList(vec![1, 2, 4]);
    assert!(a == b);
    assert!(a != c);
    assert!(PyValue::Int(1) != PyValue::Bool(true));
    assert!(!a.is_hashable());
    assert!(PyValue::Int(0).is_hashable());
    assert!(PyValue::Bool(false).is_hashable());
    assert_eq!(a.clone(), a);
}

#[test]
fn test_refcount_discipline() {
    let gil = Python::acquire_gil();
    let py = gil.python();

    let mut rc = pyset::handle::RefCount::new(py);
    rc.incref(py);
    rc.incref(py);
    assert!(!rc.decref(py));
    assert!(!rc.decref(py));
    // The creating reference is the last to go: the object is destroyed
    // exactly when the count reaches zero.
    assert!(rc.decref(py));
}
