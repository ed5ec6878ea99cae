//! The sending half of a channel.
use vstd::prelude::*;
use std::marker::PhantomData;
use std::sync::Arc;
use crate::Error;
use crate::modes::Mode;
use crate::modes::Shared;
use crate::ring::Ring;
use crate::ring::spec_enqueued;

verus! {

/// The sending half of a channel of `N` slots for values of `T`, whose
/// senders are synchronised by `P` and whose receivers by `C`.
#[verifier::reject_recursive_types(T)]
pub struct Sender<const N: usize, T, P: Mode, C: Mode> {
    ring: Arc<Ring<N, T, P, C>>,
    sharing: PhantomData<P::Sharing>,
}

impl<const N: usize, T, P: Mode, C: Mode> Sender<N, T, P, C> {
    /// The ring that the sender is a handle on.
    pub closed spec fn spec_ring(self) -> Ring<N, T, P, C> {
        *self.ring
    }

    /// One more sender on `ring`.
    ///
    /// It fails with `Closed` if no sender is left on the ring, with `Poisoned`
    /// if the ring is poisoned and with `TooManyProducers` if `u16::MAX - 1`
    /// senders are there.
    pub(crate) fn new(ring: Arc<Ring<N, T, P, C>>) -> (sender: Result<Self, Error>)
        ensures
            sender matches Ok(handle) ==> handle.spec_ring() == *ring,
            sender matches Err(error) ==> error == Error::Closed || error == Error::Poisoned
                || error == Error::TooManyProducers,
    {
        match ring.active().register_producer() {
            Ok(()) => Ok(Self { ring, sharing: PhantomData }),
            Err(error) => Err(error),
        }
    }

    /// The sender that a new ring counts from the start.
    pub(crate) fn new_no_register(ring: Arc<Ring<N, T, P, C>>) -> (sender: Self)
        ensures
            sender.spec_ring() == *ring,
    {
        Self { ring, sharing: PhantomData }
    }

    /// Puts `value` into the channel, or hands it back as `Ok(Some(value))` if
    /// the channel is full.
    ///
    /// It fails with `Closed` if the receivers are gone and with `Poisoned` if
    /// the channel is poisoned.
    pub fn try_send(&self, value: T) -> (back: Result<Option<T>, Error>)
        ensures
            back matches Ok(Some(returned)) ==> returned == value,
            back matches Err(error) ==> error == Error::Closed || error == Error::Poisoned,
    {
        self.ring.try_enqueue_one(value)
    }

    /// Puts all of `values` into the channel, in their order, or none.
    ///
    /// It returns how many it took from the front of `values`: all, or it
    /// fails. It fails with `Full` if the channel is full, with
    /// `NotEnoughSpace` if it has room for some only, with `Closed` if the
    /// receivers are gone and with `Poisoned` if the channel is poisoned.
    pub fn try_send_bulk(&self, values: &mut Vec<T>) -> (written: Result<usize, Error>)
        ensures
            spec_enqueued(N as int, true, old(values)@, final(values)@, written),
    {
        self.ring.try_enqueue::<true>(values)
    }

    /// Puts as many of `values` into the channel as it has room for, in their
    /// order.
    ///
    /// It returns how many it took from the front of `values`. It fails with
    /// `Full` if the channel is full, with `Closed` if the receivers are gone
    /// and with `Poisoned` if the channel is poisoned.
    pub fn try_send_burst(&self, values: &mut Vec<T>) -> (written: Result<usize, Error>)
        ensures
            spec_enqueued(N as int, false, old(values)@, final(values)@, written),
    {
        self.ring.try_enqueue::<false>(values)
    }

    /// Poisons the channel. For a sender whose thread panics.
    pub fn poison(&self)
        opens_invariants none
        no_unwind
    {
        self.ring.poison();
    }
}

impl<const N: usize, T, P: Mode + Shared, C: Mode> Sender<N, T, P, C> {
    /// One more sender on the same channel: a handle on the ring that this one
    /// is a handle on.
    ///
    /// It fails with `Poisoned` if the channel is poisoned and with
    /// `TooManyProducers` if `u16::MAX - 1` are counted already.
    pub fn try_clone(&self) -> (sender: Result<Self, Error>)
        ensures
            sender matches Ok(handle) ==> handle.spec_ring() == self.spec_ring(),
            sender matches Err(error) ==> error == Error::Closed || error == Error::Poisoned
                || error == Error::TooManyProducers,
    {
        Self::new(self.ring.clone())
    }
}

impl<const N: usize, T, P: Mode, C: Mode> Drop for Sender<N, T, P, C> {
    /// Stops counting as a sender. The last sender marks the senders' side as
    /// finished, so that the receivers see the channel closed once it is
    /// empty. On a poisoned channel nothing is done.
    fn drop(&mut self)
        ensures
            final(self).spec_ring() == old(self).spec_ring(),
        opens_invariants none
        no_unwind
    {
        self.ring.producer_leaves();
    }
}

} // verus!
