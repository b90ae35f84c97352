//! A safe, verified wrapper layer over reference-counted, lock-guarded
//! native interpreter objects, illustrated by the `set` / `frozenset` pair.
//!
//! The library models the interpreter's object state directly, so that every
//! operation of the typed wrappers carries a contract over a mathematical
//! `Set` view: construction collapses duplicates, membership queries are
//! tri-state (present, absent, query failed), mutation is reference-exact.
//! The raw C entry points of a live interpreter sit outside this crate; the
//! sentinel conventions they use are translated by the verified functions in
//! [`err`].

pub mod conversion;
pub mod err;
pub mod handle;
pub mod object;
pub mod props;
pub mod python;
pub mod set;
pub mod value;