//! The receiving half of a channel.
use vstd::prelude::*;
use std::marker::PhantomData;
use std::sync::Arc;
use crate::Error;
use crate::hint::cold_path;
use crate::modes::Mode;
use crate::modes::Shared;
use crate::ring::Ring;
use crate::ring::recv_values::RecvValues;
use crate::ring::spec_dequeue_error;

verus! {

/// What a receive of one value comes to, given what the slot that was
/// reserved for it held: the value, or `Empty` if the slot held none.
pub fn received<T>(slot: Option<T>) -> (value: Result<T, Error>)
    ensures
        value == match slot {
            Some(held) => Ok::<T, Error>(held),
            None => Err::<T, Error>(Error::Empty),
        },
{
    match slot {
        Some(held) => Ok(held),
        None => Err(Error::Empty),
    }
}

/// The receiving half of a channel of `N` slots for values of `T`, whose
/// senders are synchronised by `P` and whose receivers by `C`.
#[verifier::reject_recursive_types(T)]
pub struct Receiver<const N: usize, T, P: Mode, C: Mode> {
    ring: Arc<Ring<N, T, P, C>>,
    sharing: PhantomData<C::Sharing>,
}

impl<const N: usize, T, P: Mode, C: Mode> Receiver<N, T, P, C> {
    /// The ring that the receiver is a handle on.
    pub closed spec fn spec_ring(self) -> Ring<N, T, P, C> {
        *self.ring
    }

    /// One more receiver on `ring`.
    ///
    /// It fails with `Closed` if no receiver is left on the ring, with
    /// `Poisoned` if the ring is poisoned and with `TooManyConsumers` if
    /// `u16::MAX - 1` receivers and [`RecvValues`] are there.
    pub(crate) fn new(ring: Arc<Ring<N, T, P, C>>) -> (receiver: Result<Self, Error>)
        ensures
            receiver matches Ok(handle) ==> handle.spec_ring() == *ring,
            receiver matches Err(error) ==> error == Error::Closed || error == Error::Poisoned
                || error == Error::TooManyConsumers,
    {
        match ring.active().register_consumer() {
            Ok(()) => Ok(Self { ring, sharing: PhantomData }),
            Err(error) => Err(error),
        }
    }

    /// The receiver that a new ring counts from the start.
    pub(crate) fn new_no_register(ring: Arc<Ring<N, T, P, C>>) -> (receiver: Self)
        ensures
            receiver.spec_ring() == *ring,
    {
        Self { ring, sharing: PhantomData }
    }

    /// Takes one value out of the channel.
    ///
    /// It fails with `Empty` if none waits, with `Closed` if in addition the
    /// senders are gone, with `Poisoned` if the channel is poisoned and with
    /// `TooManyConsumers` if no further consumer can be counted.
    pub fn try_recv(&self) -> (value: Result<T, Error>)
        ensures
            value matches Err(error) ==> spec_dequeue_error(false, 1, error),
    {
        match self.try_recv_burst(1) {
            Ok(mut values) => received(values.next()),
            Err(error) => {
                cold_path();
                Err(error)
            },
        }
    }

    /// Reserves exactly `n` values of the channel, or none.
    ///
    /// It fails with `Empty` if no value waits, with `NotEnoughItems` if fewer
    /// than `n` wait, with `NotEnoughItemsAndClosed` if in addition the senders
    /// are gone (what is left can then be had with
    /// [`try_recv_burst`](Self::try_recv_burst)), with `Closed` if none waits
    /// and the senders are gone, with `Poisoned` if the channel is poisoned,
    /// and with `TooManyConsumers` if no further consumer can be counted.
    pub fn try_recv_bulk(&self, n: usize) -> (values: Result<RecvValues<N, T, P, C>, Error>)
        ensures
            match values {
                Ok(values) => values.spec_remaining() == n && n < N,
                Err(error) => n > 0 && spec_dequeue_error(true, n, error),
            },
    {
        Ring::try_dequeue::<true>(&self.ring, n)
    }

    /// Reserves up to `n` values of the channel: as many as wait.
    ///
    /// It fails with `Empty` if no value waits, with `Closed` if in addition
    /// the senders are gone, with `Poisoned` if the channel is poisoned, and
    /// with `TooManyConsumers` if no further consumer can be counted.
    pub fn try_recv_burst(&self, n: usize) -> (values: Result<RecvValues<N, T, P, C>, Error>)
        ensures
            match values {
                Ok(values) => {
                    &&& values.spec_remaining() <= n
                    &&& values.spec_remaining() < N
                    &&& (values.spec_remaining() == 0 <==> n == 0)
                },
                Err(error) => n > 0 && spec_dequeue_error(false, n, error),
            },
    {
        Ring::try_dequeue::<false>(&self.ring, n)
    }

    /// Poisons the channel. For a receiver whose thread panics.
    pub fn poison(&self)
        opens_invariants none
        no_unwind
    {
        self.ring.poison();
    }
}

impl<const N: usize, T, P: Mode, C: Mode + Shared> Receiver<N, T, P, C> {
    /// One more receiver on the same channel: a handle on the ring that this one
    /// is a handle on.
    ///
    /// It fails with `Poisoned` if the channel is poisoned and with
    /// `TooManyConsumers` if `u16::MAX - 1` are counted already.
    pub fn try_clone(&self) -> (receiver: Result<Self, Error>)
        ensures
            receiver matches Ok(handle) ==> handle.spec_ring() == self.spec_ring(),
            receiver matches Err(error) ==> error == Error::Closed || error == Error::Poisoned
                || error == Error::TooManyConsumers,
    {
        Self::new(self.ring.clone())
    }
}

impl<const N: usize, T, P: Mode, C: Mode> Drop for Receiver<N, T, P, C> {
    /// Stops counting as a receiver. The last receiver marks the receivers'
    /// side as finished, so that the senders see the channel closed. On a
    /// poisoned channel nothing is done.
    fn drop(&mut self)
        ensures
            final(self).spec_ring() == old(self).spec_ring(),
        opens_invariants none
        no_unwind
    {
        self.ring.consumer_leaves();
    }
}

} // verus!
