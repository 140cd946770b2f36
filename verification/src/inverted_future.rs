//! The one-shot completion cell behind an ack rendezvous.
//!
//! A sender resolves the cell with a value; a consumer polls it and takes
//! the value the first time one is present.  The asynchronous shell around
//! this cell (the shared handle, the waker, the `Future` implementation)
//! lives outside the verified core; the cell itself is the logic.

use vstd::prelude::*;

verus! {

/// The state of a one-shot rendezvous: the resolution, once delivered.
#[derive(Debug)]
pub struct InvertedFutureContext<T> {
    pub resolution: Option<T>,
}

impl<T> InvertedFutureContext<T> {
    /// An unresolved cell.
    pub fn new() -> (r: InvertedFutureContext<T>)
        ensures
            r.resolution is None,
    {
        InvertedFutureContext { resolution: None }
    }

    /// Deliver a value.  A second resolution overwrites the first; the
    /// dispatcher never resolves the same rendezvous twice because it
    /// removes the registry entry when it resolves it.
    pub fn resolve(&mut self, v: T)
        ensures
            final(self).resolution == Some(v),
    {
        self.resolution = Some(v);
    }

    /// Poll the cell: take the value if one has been delivered, so a
    /// later poll finds the cell empty again.
    pub fn take_resolution(&mut self) -> (r: Option<T>)
        ensures
            r == old(self).resolution,
            final(self).resolution is None,
    {
        self.resolution.take()
    }
}

} // verus!
