use pyset::python::Python;
use pyset::set::PyFrozenSet;
use pyset::value::PyValue;

#[test]
fn test_frozenset_new_and_len() {
    let gil = Python::acquire_gil();
    let py = gil.python();

    let set = PyFrozenSet::new(py, &[PyValue::Int(1)]);
    assert_eq!(1, set.len(py));
}

#[test]
fn test_frozenset_contains() {
    let gil = Python::acquire_gil();
    let py = gil.python();
    let set = PyFrozenSet::new(py, &[PyValue::Int(1)]);
    assert!(set.contains(py, &PyValue::Int(1)).unwrap());
}

#[test]
fn test_frozenset_iter() {
    let gil = Python::acquire_gil();
    let py = gil.python();

    let set = PyFrozenSet::new(py, &[PyValue::Int(1)]);
    let mut it = set.iter(py);
    while let Some(el) = it.next(py) {
        assert_eq!(PyValue::Int(1), el);
    }
}

// The frozenset type is immutable at the interface level: its whole public
// surface is construction, size, membership and iteration. This test walks
// that entire surface and checks that the membership observed never moves,
// which is as close as a runtime test can come to the type-level fact that
// no mutating operation is reachable on the type.
#[test]
fn test_frozenset_interface_is_immutable() {
    let gil = Python::acquire_gil();
    let py = gil.python();

    let set = PyFrozenSet::new(py, &[PyValue::Int(1), PyValue::Int(2)]);
    assert_eq!(2, set.len(py));
    assert!(set.contains(py, &PyValue::Int(1)).unwrap());
    assert!(set.contains(py, &PyValue::Int(2)).unwrap());
    assert!(!set.contains(py, &PyValue::Int(3)).unwrap());

    let mut it = set.iter(py);
    let mut seen: usize = 0;
    while let Some(el) = it.next(py) {
        assert!(el == PyValue::Int(1) || el == PyValue::Int(2));
        seen += 1;
    }
    assert_eq!(2, seen);

    // After every available observation the frozenset is unchanged.
    assert_eq!(2, set.len(py));
    assert!(set.contains(py, &PyValue::Int(1)).unwrap());
    assert!(set.contains(py, &PyValue::Int(2)).unwrap());
}
