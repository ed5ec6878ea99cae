//! Reading values out of a channel.
use vstd::prelude::*;
use std::sync::Arc;
use crate::hint::cold_path;
use crate::index::advance;
use crate::index::valid_capacity;
use crate::index::wrap;
use crate::modes::Claim;
use crate::modes::Mode;
use crate::ring::Ring;

verus! {

/// The values of a channel that one call has reserved for its caller.
///
/// [`next`](Self::next) hands them out one by one. Values that are still
/// reserved when this is dropped are dropped with it. While it has values it
/// counts as a consumer of the channel, and it may outlive the receiver that
/// it came from.
#[verifier::reject_recursive_types(T)]
pub struct RecvValues<const N: usize, T, P: Mode, C: Mode> {
    /// The claim on the values and the ring that holds them; `None` if no
    /// value is reserved.
    claim_and_ring: Option<(Claim, Arc<Ring<N, T, P, C>>)>,
    /// The number of values that were handed out.
    consumed: u32,
    /// The slot of the next value.
    offset: u32,
}

impl<const N: usize, T, P: Mode, C: Mode> RecvValues<N, T, P, C> {
    #[verifier::type_invariant]
    spec fn well_formed(self) -> bool {
        match self.claim_and_ring {
            Some((claim, _)) => {
                &&& valid_capacity(N as int)
                &&& self.consumed < claim.spec_entries()
                &&& self.offset < N
            },
            None => true,
        }
    }

    /// The number of values that are still reserved.
    pub closed spec fn spec_remaining(self) -> nat {
        match self.claim_and_ring {
            Some((claim, _)) => (claim.spec_entries() - self.consumed) as nat,
            None => 0,
        }
    }

    /// The slot of the value that comes next, while one is reserved.
    pub closed spec fn spec_offset(self) -> u32 {
        self.offset
    }

    /// The values under `claim` on `ring`, reserved for a reader that is
    /// counted as a consumer of the ring already.
    pub(crate) fn new(ring: &Arc<Ring<N, T, P, C>>, claim: Claim) -> (values: Self)
        requires
            valid_capacity(N as int),
        ensures
            values.spec_remaining() == claim.spec_entries(),
            values.spec_offset() as int == wrap(N as int, claim.spec_start() as int),
    {
        let offset = advance::<N>(claim.start(), 0);
        Self { claim_and_ring: Some((claim, ring.clone())), consumed: 0, offset }
    }

    /// Reserved values, none of them.
    pub(crate) fn new_empty() -> (values: Self)
        ensures
            values.spec_remaining() == 0,
    {
        Self { claim_and_ring: None, consumed: 0, offset: 0 }
    }

    /// Drops the values under `claim` from the one at `offset` on, of which
    /// `consumed` came before, and returns the claim.
    fn release(ring: &Arc<Ring<N, T, P, C>>, claim: Claim, consumed: u32, offset: u32)
        requires
            valid_capacity(N as int),
            offset < N,
        opens_invariants none
        no_unwind
    {
        let entries = claim.entries();
        let mut consumed = consumed;
        let mut offset = offset;
        while consumed < entries
            invariant
                valid_capacity(N as int),
                offset < N,
            decreases entries - consumed,
        {
            ring.discard(offset);
            consumed = consumed + 1;
            offset = advance::<N>(offset, 1);
        }
        ring.return_claim_cons(claim);
    }

    /// The next value, or `None` when all were handed out.
    ///
    /// The value is taken out of the slot that comes next, and the slot after
    /// it comes next from then on. With the last value the claim is returned
    /// and this stops counting as a consumer.
    pub fn next(&mut self) -> (value: Option<T>)
        ensures
            old(self).spec_remaining() == 0 ==> value is None && final(self).spec_remaining() == 0,
            old(self).spec_remaining() > 0 ==> final(self).spec_remaining() == old(
                self,
            ).spec_remaining() - 1,
            old(self).spec_remaining() > 1 ==> final(self).spec_offset() as int == wrap(
                N as int,
                old(self).spec_offset() + 1,
            ),
    {
        proof {
            use_type_invariant(&*self);
        }
        let value: Option<T>;
        let last: bool;
        match &self.claim_and_ring {
            Some((claim, ring)) => {
                value = ring.take(self.offset);
                last = self.consumed + 1 >= claim.entries();
                if last {
                    cold_path();
                    ring.return_claim_cons(Claim::many(claim.entries(), claim.start()));
                    ring.consumer_leaves();
                }
            },
            None => {
                cold_path();
                return None;
            },
        }
        if last {
            self.claim_and_ring = None;
        } else {
            self.consumed = self.consumed + 1;
            self.offset = advance::<N>(self.offset, 1);
        }
        value
    }

    /// The number of values that are still reserved, as the lower and the
    /// upper bound of what [`next`](Self::next) will hand out.
    pub fn size_hint(&self) -> (bounds: (usize, Option<usize>))
        ensures
            bounds.0 == self.spec_remaining(),
            bounds.1 == Some(bounds.0),
    {
        let left = self.len();
        (left, Some(left))
    }

    /// The number of values that are still reserved.
    pub fn len(&self) -> (left: usize)
        ensures
            left == self.spec_remaining(),
    {
        proof {
            use_type_invariant(self);
        }
        match &self.claim_and_ring {
            Some((claim, _)) => (claim.entries() - self.consumed) as usize,
            None => {
                cold_path();
                0
            },
        }
    }
}

impl<const N: usize, T, P: Mode, C: Mode> Drop for RecvValues<N, T, P, C> {
    /// Drops the values that are still reserved, returns the claim and stops
    /// counting as a consumer.
    fn drop(&mut self)
        ensures
            final(self).spec_remaining() == 0,
        opens_invariants none
        no_unwind
    {
        proof {
            use_type_invariant(&*self);
        }
        match &self.claim_and_ring {
            Some((claim, ring)) => {
                cold_path();
                let whole = Claim::many(claim.entries(), claim.start());
                Self::release(ring, whole, self.consumed, self.offset);
                ring.consumer_leaves();
            },
            None => {},
        }
        self.claim_and_ring = None;
    }
}

} // verus!
