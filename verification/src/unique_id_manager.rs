//! The unique-id allocator used for tube ids and ack ids.
//!
//! An allocator issues 16-bit ids under a parity policy: sequential (every
//! id), even ids only, or odd ids only.  Released ids are reissued before
//! the counter advances, in the order they were released.  The allocator
//! carries a ghost set of the ids currently outstanding; `take_id`
//! guarantees the id it returns is not in that set, so no two live handles
//! from one allocator ever share a value.

use vstd::prelude::*;

verus! {

#[derive(Debug)]
pub enum UniqueIdError {
    NoIdsAvailable,
}

#[derive(Copy, Clone, Debug, PartialEq, Eq, Structural)]
pub enum UniqueIdIncrementPolicy {
    Even,
    Odd,
    Sequential,
}

/// How far the counter advances per freshly-issued id.
pub open spec fn policy_step(p: UniqueIdIncrementPolicy) -> int {
    match p {
        UniqueIdIncrementPolicy::Even => 2,
        UniqueIdIncrementPolicy::Odd => 2,
        UniqueIdIncrementPolicy::Sequential => 1,
    }
}

/// The first id a policy issues.
pub open spec fn policy_start(p: UniqueIdIncrementPolicy) -> u16 {
    match p {
        UniqueIdIncrementPolicy::Even => 0,
        UniqueIdIncrementPolicy::Odd => 1,
        UniqueIdIncrementPolicy::Sequential => 0,
    }
}

/// Whether an id has the parity the policy asks for.
pub open spec fn policy_admits(p: UniqueIdIncrementPolicy, id: u16) -> bool {
    match p {
        UniqueIdIncrementPolicy::Even => id % 2 == 0,
        UniqueIdIncrementPolicy::Odd => id % 2 == 1,
        UniqueIdIncrementPolicy::Sequential => true,
    }
}

/// A handle on an issued id.  Releasing the handle back to its allocator
/// makes the id reusable; `take` transfers that responsibility to a new
/// handle (for moving an id into a detached cleanup task) and marks this
/// one so it can no longer be released.
#[derive(Debug, PartialEq, Eq)]
pub struct UniqueId {
    id: u16,
    taken: bool,
}

impl UniqueId {
    /// The id this handle carries.
    pub closed spec fn spec_val(&self) -> u16 {
        self.id
    }

    /// Whether release responsibility has been taken over by another handle.
    pub closed spec fn spec_taken(&self) -> bool {
        self.taken
    }

    /// A fresh handle on the given id.
    pub fn new(id: u16) -> (r: UniqueId)
        ensures
            r.spec_val() == id,
            !r.spec_taken(),
    {
        UniqueId { id, taken: false }
    }

    /// Hand release responsibility to a new handle: the new handle carries
    /// the same id and may be released; this one no longer may.
    pub fn take(&mut self) -> (r: UniqueId)
        ensures
            r.spec_val() == old(self).spec_val(),
            !r.spec_taken(),
            final(self).spec_val() == old(self).spec_val(),
            final(self).spec_taken(),
    {
        let new = UniqueId { id: self.id, taken: false };
        self.taken = true;
        new
    }

    /// The id value.
    pub fn val(&self) -> (r: u16)
        ensures
            r == self.spec_val(),
    {
        self.id
    }
}

/// The allocator: a FIFO of released ids, a counter for fresh ids, and the
/// ghost set of ids currently outstanding.
pub struct UniqueIdManager {
    avail_ids: Vec<u16>,
    counter: u16,
    ids_exhausted: bool,
    increment_policy: UniqueIdIncrementPolicy,
    outstanding: Ghost<Set<u16>>,
}

impl UniqueIdManager {
    /// The released ids waiting for reuse, oldest first.
    pub closed spec fn available(&self) -> Seq<u16> {
        self.avail_ids@
    }

    /// The ids issued and not yet released.
    pub closed spec fn outstanding_ids(&self) -> Set<u16> {
        self.outstanding@
    }

    pub closed spec fn spec_counter(&self) -> u16 {
        self.counter
    }

    pub closed spec fn spec_exhausted(&self) -> bool {
        self.ids_exhausted
    }

    pub closed spec fn policy(&self) -> UniqueIdIncrementPolicy {
        self.increment_policy
    }

    /// The allocator's invariant: released ids are distinct and not
    /// outstanding, every id it has ever issued matches the policy's
    /// parity, and (until the id space is exhausted) sits below the
    /// counter, which itself keeps the policy's parity.
    pub closed spec fn wf(&self) -> bool {
        &&& (forall|i: int, j: int|
            0 <= i < j < self.avail_ids@.len() ==> self.avail_ids@[i] != self.avail_ids@[j])
        &&& (forall|i: int|
            0 <= i < self.avail_ids@.len() ==> !self.outstanding@.contains(
                #[trigger] self.avail_ids@[i],
            ))
        &&& (forall|i: int|
            0 <= i < self.avail_ids@.len() ==> policy_admits(
                self.increment_policy,
                #[trigger] self.avail_ids@[i],
            ))
        &&& (forall|id: u16|
            self.outstanding@.contains(id) ==> policy_admits(self.increment_policy, id))
        &&& (!self.ids_exhausted ==> forall|i: int|
            0 <= i < self.avail_ids@.len() ==> #[trigger] self.avail_ids@[i] < self.counter)
        &&& (!self.ids_exhausted ==> forall|id: u16|
            self.outstanding@.contains(id) ==> id < self.counter)
        &&& (!self.ids_exhausted ==> self.counter % 2 == policy_start(self.increment_policy) % 2
            || self.increment_policy is Sequential)
    }

    fn new_impl(increment_policy: UniqueIdIncrementPolicy) -> (r: UniqueIdManager)
        ensures
            r.wf(),
            r.available().len() == 0,
            r.outstanding_ids() == Set::<u16>::empty(),
            r.spec_counter() == policy_start(increment_policy),
            !r.spec_exhausted(),
            r.policy() == increment_policy,
    {
        UniqueIdManager {
            avail_ids: Vec::new(),
            counter: match increment_policy {
                UniqueIdIncrementPolicy::Even => 0,
                UniqueIdIncrementPolicy::Odd => 1,
                UniqueIdIncrementPolicy::Sequential => 0,
            },
            ids_exhausted: false,
            increment_policy,
            outstanding: Ghost(Set::empty()),
        }
    }

    /// An allocator that issues every id in order: 0, 1, 2, ...
    pub fn new() -> (r: UniqueIdManager)
        ensures
            r.wf(),
            r.available().len() == 0,
            r.outstanding_ids() == Set::<u16>::empty(),
            r.spec_counter() == 0,
            !r.spec_exhausted(),
            r.policy() == UniqueIdIncrementPolicy::Sequential,
    {
        Self::new_impl(UniqueIdIncrementPolicy::Sequential)
    }

    /// An allocator that issues even ids: 0, 2, 4, ...
    pub fn new_with_even_ids() -> (r: UniqueIdManager)
        ensures
            r.wf(),
            r.available().len() == 0,
            r.outstanding_ids() == Set::<u16>::empty(),
            r.spec_counter() == 0,
            !r.spec_exhausted(),
            r.policy() == UniqueIdIncrementPolicy::Even,
    {
        Self::new_impl(UniqueIdIncrementPolicy::Even)
    }

    /// An allocator that issues odd ids: 1, 3, 5, ...
    pub fn new_with_odd_ids() -> (r: UniqueIdManager)
        ensures
            r.wf(),
            r.available().len() == 0,
            r.outstanding_ids() == Set::<u16>::empty(),
            r.spec_counter() == 1,
            !r.spec_exhausted(),
            r.policy() == UniqueIdIncrementPolicy::Odd,
    {
        Self::new_impl(UniqueIdIncrementPolicy::Odd)
    }

    /// Whether an id can still be issued: something is released, or the
    /// counter has not run off the id space.
    pub open spec fn can_issue(&self) -> bool {
        self.available().len() > 0 || !self.spec_exhausted()
    }

    /// The id the allocator issues next: the oldest released id, or the
    /// counter when none waits.
    pub open spec fn next_id(&self) -> u16 {
        if self.available().len() > 0 {
            self.available()[0]
        } else {
            self.spec_counter()
        }
    }

    /// Issue an id.  Released ids are reissued first, oldest first; only
    /// when none waits does the counter advance, by the policy's step, and
    /// the allocator reports exhaustion once the step would leave the id
    /// space.  The id returned is never one that is still outstanding, and
    /// it joins the outstanding set — so no two live handles from this
    /// allocator share a value.  Fails with `NoIdsAvailable` exactly when
    /// nothing is released and the id space is used up.
    pub fn take_id(&mut self) -> (r: Result<UniqueId, UniqueIdError>)
        requires
            old(self).wf(),
        ensures
            final(self).wf(),
            final(self).policy() == old(self).policy(),
            match r {
                Ok(id) => {
                    &&& !id.spec_taken()
                    &&& id.spec_val() == old(self).next_id()
                    &&& policy_admits(old(self).policy(), id.spec_val())
                    &&& !old(self).outstanding_ids().contains(id.spec_val())
                    &&& final(self).outstanding_ids() == old(self).outstanding_ids().insert(
                        id.spec_val(),
                    )
                    &&& if old(self).available().len() > 0 {
                        &&& id.spec_val() == old(self).available()[0]
                        &&& final(self).available() == old(self).available().drop_first()
                        &&& final(self).spec_counter() == old(self).spec_counter()
                        &&& final(self).spec_exhausted() == old(self).spec_exhausted()
                    } else {
                        &&& !old(self).spec_exhausted()
                        &&& id.spec_val() == old(self).spec_counter()
                        &&& final(self).available() == old(self).available()
                        &&& if old(self).spec_counter() + policy_step(old(self).policy())
                            <= u16::MAX {
                            &&& final(self).spec_counter() == old(self).spec_counter()
                                + policy_step(old(self).policy())
                            &&& !final(self).spec_exhausted()
                        } else {
                            &&& final(self).spec_counter() == old(self).spec_counter()
                            &&& final(self).spec_exhausted()
                        }
                    }
                },
                Err(e) => {
                    &&& e is NoIdsAvailable
                    &&& !old(self).can_issue()
                    &&& old(self).available().len() == 0
                    &&& old(self).spec_exhausted()
                    &&& *final(self) == *old(self)
                },
            },
    {
        if self.avail_ids.len() > 0 {
            let id = self.avail_ids.remove(0);
            proof {
                self.outstanding@ = self.outstanding@.insert(id);
            }
            return Ok(UniqueId::new(id));
        }
        if self.ids_exhausted {
            return Err(UniqueIdError::NoIdsAvailable);
        }
        let id = self.counter;
        let step: u16 = match self.increment_policy {
            UniqueIdIncrementPolicy::Even => 2,
            UniqueIdIncrementPolicy::Odd => 2,
            UniqueIdIncrementPolicy::Sequential => 1,
        };
        if self.counter > u16::MAX - step {
            self.ids_exhausted = true;
        } else {
            self.counter = self.counter + step;
        }
        proof {
            self.outstanding@ = self.outstanding@.insert(id);
        }
        Ok(UniqueId::new(id))
    }

    /// Return an id to the allocator.  The handle must still carry release
    /// responsibility and the id must be outstanding here.  The id joins
    /// the back of the reuse queue, behind every id released before it.
    pub fn release(&mut self, id: UniqueId)
        requires
            old(self).wf(),
            !id.spec_taken(),
            old(self).outstanding_ids().contains(id.spec_val()),
        ensures
            final(self).wf(),
            final(self).policy() == old(self).policy(),
            final(self).available() == old(self).available().push(id.spec_val()),
            final(self).outstanding_ids() == old(self).outstanding_ids().remove(id.spec_val()),
            final(self).spec_counter() == old(self).spec_counter(),
            final(self).spec_exhausted() == old(self).spec_exhausted(),
    {
        let v = id.val();
        self.avail_ids.push(v);
        proof {
            self.outstanding@ = self.outstanding@.remove(v);
        }
    }
}

} // verus!
