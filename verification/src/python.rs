//! The context token: a zero-size witness that the calling thread currently
//! holds the interpreter's global lock.
//!
//! Every operation that touches a native object takes a [`Python`] token, so
//! the single-owner-at-a-time discipline is visible in each signature rather
//! than enforced by a runtime check. In this library the interpreter's object
//! state is modelled inside the wrapper types themselves, so acquiring the
//! token has no runtime effect; an embedding that links a live interpreter
//! must take the real lock before it constructs one, and must keep the guard
//! alive for as long as any token copied out of it is used.

use vstd::prelude::*;

verus! {

/// Proof that the global interpreter lock is held by the current thread.
///
/// The token is `Copy`: within one acquisition region it may be handed to
/// any number of operations, which all execute in the order issued.
#[derive(Clone, Copy)]
pub struct Python;

/// An acquisition region of the global interpreter lock.
///
/// Tokens are only handed out by [`GILGuard::python`], borrowing the guard,
/// so a token cannot outlive the region that produced it.
pub struct GILGuard;

impl Python {
    /// Open an acquisition region and return its guard.
    pub fn acquire_gil() -> GILGuard {
        GILGuard
    }
}

impl GILGuard {
    /// A context token valid for the duration of this acquisition region.
    pub fn python(&self) -> Python {
        Python
    }
}

} // verus!
