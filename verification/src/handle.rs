//! The reference-count discipline of an owned object handle.
//!
//! A native object lives exactly as long as its reference count is
//! positive: every acquisition of an owning reference raises the count by
//! one, every release lowers it by one, and the interpreter destroys the
//! object at the moment the count reaches zero. This module states that
//! discipline over a model of one object's count, so the rules an embedding
//! must follow with its raw handles are written down and checked: a release
//! demands a matching prior acquisition, and destruction happens exactly at
//! zero, never before and never after.

use vstd::prelude::*;

use crate::python::Python;

verus! {

/// The reference count of one live native object.
///
/// While a value of this type exists the object is alive, so the count is
/// always at least one; it starts at one with the reference that created
/// the object.
pub struct RefCount {
    count: usize,
}

impl RefCount {
    /// The current count.
    pub closed spec fn count(&self) -> nat {
        self.count as nat
    }

    /// A live object holds at least the reference that keeps it alive.
    pub open spec fn wf(&self) -> bool {
        self.count() >= 1
    }

    /// The count of a freshly created object: the creating reference.
    pub fn new(_py: Python) -> (r: RefCount)
        ensures
            r.wf(),
            r.count() == 1,
    {
        RefCount { count: 1 }
    }

    /// Acquire one more owning reference.
    ///
    /// The count cannot exceed the machine word it is stored in; the
    /// interpreter shares that bound.
    pub fn incref(&mut self, _py: Python)
        requires
            old(self).wf(),
            old(self).count() < usize::MAX,
        ensures
            final(self).wf(),
            final(self).count() == old(self).count() + 1,
    {
        self.count = self.count + 1;
    }

    /// Release one owning reference.
    ///
    /// A release without a matching acquisition is excluded by the
    /// precondition. The result says whether this release was the last
    /// one: `true` exactly when the count reached zero, the one moment the
    /// interpreter destroys the object.
    pub fn decref(&mut self, _py: Python) -> (destroyed: bool)
        requires
            old(self).wf(),
        ensures
            final(self).count() == old(self).count() - 1,
            destroyed <==> final(self).count() == 0,
    {
        self.count = self.count - 1;
        self.count == 0
    }
}

} // verus!
