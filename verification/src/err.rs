//! Error and result translation for the foreign call boundary.
//!
//! The interpreter's C entry points signal failure through sentinel values: a
//! negative return code or a null pointer, with the actual error left in the
//! interpreter-global pending-exception slot. This module owns the single
//! rule by which such sentinels become structured results. A raw call site
//! fetches the pending exception while still holding the context token and
//! hands the code together with the fetched exception to one of the
//! translation functions below; no raw sentinel escapes into wrapper-level
//! code.

use vstd::prelude::*;

use crate::python::Python;

verus! {

/// A fetched pending exception, drained from the interpreter exactly once
/// per failing call.
#[derive(Clone, Copy, Debug, PartialEq, Eq, Structural)]
pub enum PyErr {
    /// The operation was applied to a value of the wrong type, such as an
    /// unhashable membership key.
    TypeError,
    /// A lookup named an absent key.
    KeyError,
    /// The interpreter could not allocate memory.
    MemoryError,
}

/// A downcast from the generic object type to a named wrapper type found an
/// object of a different runtime type. Distinct from [`PyErr`]: no pending
/// exception is involved.
#[derive(Clone, Copy, Debug, PartialEq, Eq, Structural)]
pub struct PyDowncastError;

/// The result type of every fallible wrapper operation.
pub type PyResult<T> = Result<T, PyErr>;

/// Translate the common integer convention: `-1` signals failure and any
/// other value means success.
///
/// `pending` is the exception fetched from the interpreter immediately after
/// the call that produced `code`, while the token `_py` was still held.
pub fn error_on_minusone(_py: Python, code: i32, pending: PyErr) -> (r: PyResult<()>)
    ensures
        code == -1 ==> r == Err::<(), PyErr>(pending),
        code != -1 ==> r == Ok::<(), PyErr>(()),
{
    if code != -1 {
        Ok(())
    } else {
        Err(pending)
    }
}

/// Translate the tri-state convention of a membership query: `1` means the
/// key is present, `0` means it is absent, and any other value means the
/// query itself failed and left a pending exception.
///
/// Folding the third outcome into a boolean would conflate "absent" with
/// "query failed"; this function keeps the three outcomes apart.
pub fn translate_membership_code(_py: Python, code: i32, pending: PyErr) -> (r: PyResult<bool>)
    ensures
        code == 1 ==> r == Ok::<bool, PyErr>(true),
        code == 0 ==> r == Ok::<bool, PyErr>(false),
        code != 0 && code != 1 ==> r == Err::<bool, PyErr>(pending),
{
    if code == 1 {
        Ok(true)
    } else if code == 0 {
        Ok(false)
    } else {
        Err(pending)
    }
}

} // verus!
