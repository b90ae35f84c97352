//! The generic object reference and the checked downcast boundary.
//!
//! A handle coming back from the interpreter is generic: its runtime type is
//! only discovered by asking. [`PyObject`] models that as a tagged value, and
//! each typed wrapper offers `downcast_into`, which checks the tag before
//! handing out the specific wrapper and fails with a distinct type-mismatch
//! error — never a silent coercion — when the tag is another one.

use vstd::prelude::*;

use crate::err::PyDowncastError;
use crate::python::Python;
use crate::set::{PyFrozenSet, PySet};
use crate::value::PyValue;

verus! {

/// An owned reference to a native object whose runtime type is not yet
/// narrowed to a wrapper type.
#[derive(Debug)]
pub enum PyObject {
    /// A native `set` object.
    SetObject(PySet),
    /// A native `frozenset` object.
    FrozenSetObject(PyFrozenSet),
    /// Any other object, carried as a plain value.
    ValueObject(PyValue),
}

impl PySet {
    /// Narrow a generic object to a `set`, consuming it.
    ///
    /// Succeeds exactly when the object's runtime type is `set`; any other
    /// object is rejected with a type-mismatch error and no pending
    /// interpreter exception.
    pub fn downcast_into(_py: Python, ob: PyObject) -> (r: Result<PySet, PyDowncastError>)
        ensures
            ob matches PyObject::SetObject(s) ==> r == Ok::<PySet, PyDowncastError>(s),
            !(ob is SetObject) ==> r == Err::<PySet, PyDowncastError>(PyDowncastError),
    {
        match ob {
            PyObject::SetObject(s) => Ok(s),
            _ => Err(PyDowncastError),
        }
    }
}

impl PyFrozenSet {
    /// Narrow a generic object to a `frozenset`, consuming it.
    ///
    /// Succeeds exactly when the object's runtime type is `frozenset`.
    pub fn downcast_into(_py: Python, ob: PyObject) -> (r: Result<PyFrozenSet, PyDowncastError>)
        ensures
            ob matches PyObject::FrozenSetObject(s) ==> r == Ok::<PyFrozenSet, PyDowncastError>(s),
            !(ob is FrozenSetObject) ==> r == Err::<PyFrozenSet, PyDowncastError>(PyDowncastError),
    {
        match ob {
            PyObject::FrozenSetObject(s) => Ok(s),
            _ => Err(PyDowncastError),
        }
    }
}

} // verus!
