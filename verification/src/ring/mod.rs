//! The ring that the handles of a channel share.
use vstd::prelude::*;
use std::sync::Arc;
use crate::Error;
use crate::atomic::spin_loop;
use crate::consumer::Receiver;
use crate::hint::cold_path;
use crate::index::advance;
use crate::index::slots;
use crate::index::valid_capacity;
use crate::index::wrap;
use crate::index::lemma_capacity_bounds;
use crate::mem::MaybeUninit;
use crate::mem::element;
use crate::modes::Claim;
use crate::modes::Mode;
use crate::modes::PATIENCE;
use crate::modes::spec_move_head_error;
use crate::producer::Sender;
use crate::ring::active::AtomicActive;
use crate::ring::active::Last;
use crate::ring::recv_values::RecvValues;

pub mod active;
pub mod recv_values;

verus! {

/// A ring of `N` slots for values of `T`, with the producers synchronised by
/// `P` and the consumers by `C`.
///
/// `N` is a power of two from `2` to `2^31`. Of the `N` slots at most `N - 1`
/// hold a value at a time.
#[verifier::reject_recursive_types(T)]
pub struct Ring<const N: usize, T, P: Mode, C: Mode> {
    /// The number of producers and consumers; also tells whether the ring is
    /// poisoned.
    active: AtomicActive,
    /// The head and the tail of the producers.
    prod_headtail: P,
    /// The head and the tail of the consumers.
    cons_headtail: C,
    /// The slots. Those from the consumers' head up to the producers' tail
    /// hold a value. A slot is only touched under a claim that covers it.
    data: Vec<MaybeUninit<T>>,
}

/// What is left of `before` once an enqueue has returned `written`, and what
/// `written` can be.
pub open spec fn spec_enqueued<T>(
    n: int,
    exact: bool,
    before: Seq<T>,
    after: Seq<T>,
    written: Result<usize, Error>,
) -> bool {
    match written {
        Ok(count) => {
            &&& count <= before.len()
            &&& count < n
            &&& after == before.skip(count as int)
            &&& (count == 0 <==> before.len() == 0)
            &&& (exact ==> count == before.len())
        },
        Err(error) => {
            &&& after == before
            &&& before.len() > 0
            &&& spec_move_head_error(true, exact, spec_request(before.len() as usize), error)
        },
    }
}

/// The errors with which a dequeue of `n` values can fail.
pub open spec fn spec_dequeue_error(exact: bool, n: usize, error: Error) -> bool {
    spec_move_head_error(false, exact, spec_request(n), error) || error == Error::TooManyConsumers
}

/// The error that is reported for `error` on a ring that is or is not
/// poisoned: a poisoned ring reports `Poisoned` where it would report `Closed`.
pub open spec fn spec_translated(error: Error, poisoned: bool) -> Error {
    if error == Error::Closed && poisoned {
        Error::Poisoned
    } else {
        error
    }
}

/// The number of slots to ask for where `n` values are wanted or offered.
pub open spec fn spec_request(n: usize) -> u32 {
    if n > u32::MAX {
        u32::MAX
    } else {
        n as u32
    }
}

/// The number of slots to ask for where `n` values are wanted or offered. A
/// ring never grants more than fit in a `u32`.
pub fn request(n: usize) -> (expected: u32)
    ensures
        expected == spec_request(n),
{
    if n > u32::MAX as usize {
        u32::MAX
    } else {
        n as u32
    }
}

/// The error that is reported for `error` on a ring that is or is not
/// poisoned.
pub fn translated(error: Error, poisoned: bool) -> (reported: Error)
    ensures
        reported == spec_translated(error, poisoned),
{
    cold_path();
    match error {
        Error::Closed => {
            cold_path();
            if poisoned {
                Error::Poisoned
            } else {
                Error::Closed
            }
        },
        other => other,
    }
}

impl<const N: usize, T, P: Mode, C: Mode> Ring<N, T, P, C> {
    #[verifier::type_invariant]
    spec fn well_formed(self) -> bool {
        valid_capacity(N as int) && self.data@.len() == N
    }

    /// The head and the tail of the producers.
    pub closed spec fn spec_producers(self) -> P {
        self.prod_headtail
    }

    /// The head and the tail of the consumers.
    pub closed spec fn spec_consumers(self) -> C {
        self.cons_headtail
    }

    /// The number of slots.
    pub closed spec fn spec_slots(self) -> nat {
        self.data@.len()
    }

    /// Makes a ring and returns the first sender and the first receiver on it.
    ///
    /// The two are handles on one ring, which has `N` slots and whose two sides
    /// are as `default` of their modes makes them.
    pub fn new() -> (handles: (Sender<N, T, P, C>, Receiver<N, T, P, C>))
        requires
            valid_capacity(N as int),
        ensures
            handles.0.spec_ring() == handles.1.spec_ring(),
            handles.0.spec_ring().spec_slots() == N,
            P::default.ensures((), handles.0.spec_ring().spec_producers()),
            C::default.ensures((), handles.0.spec_ring().spec_consumers()),
    {
        let mut data: Vec<MaybeUninit<T>> = Vec::with_capacity(N);
        let mut filled: usize = 0;
        while filled < N
            invariant
                filled <= N,
                data@.len() == filled,
            decreases N - filled,
        {
            data.push(MaybeUninit::uninit());
            filled = filled + 1;
        }
        let ring = Arc::new(
            Ring {
                active: AtomicActive::new(1, 1),
                prod_headtail: P::default(),
                cons_headtail: C::default(),
                data,
            },
        );
        (Sender::new_no_register(ring.clone()), Receiver::new_no_register(ring))
    }

    /// Ends the life of the ring, once the last participant has left: waits
    /// until both tails are marked as finished. The memory is given back when
    /// the last handle is gone.
    ///
    /// It returns whether the ring is at its end. It is not while a
    /// participant is counted, nor while a tail is not marked as finished.
    pub fn cleanup(&self) -> (ended: bool)
        opens_invariants none
        no_unwind
    {
        match self.active.load(std::sync::atomic::Ordering::SeqCst).is_empty() {
            Ok(true) => {},
            _ => {
                return false;
            },
        }
        let mut patience: u64 = PATIENCE;
        while patience > 0
            decreases patience,
        {
            patience = patience - 1;
            if self.cons_headtail.is_finished() && self.prod_headtail.is_finished() {
                return true;
            }
            spin_loop();
        }
        false
    }

    /// Marks the tail of the producers as finished. For the last producer.
    pub fn mark_prod_finished(&self)
        opens_invariants none
        no_unwind
    {
        self.prod_headtail.mark_finished();
    }

    /// Marks the tail of the consumers as finished. For the last consumer.
    pub fn mark_cons_finished(&self)
        opens_invariants none
        no_unwind
    {
        self.cons_headtail.mark_finished();
    }

    /// The count of producers and consumers.
    pub fn active(&self) -> (active: &AtomicActive)
        opens_invariants none
        no_unwind
    {
        &self.active
    }

    /// The slot at `offset`.
    fn data(&self, offset: u32) -> (slot: &MaybeUninit<T>)
        requires
            offset < N,
        opens_invariants none
        no_unwind
    {
        proof {
            use_type_invariant(self);
        }
        element(&self.data, offset as usize)
    }

    /// Does what the outcome of unregistering asks of a producer that has
    /// left: the last producer marks the producers' tail as finished, and the
    /// last participant of all ends the ring after that.
    pub fn producer_left(&self, last: Last)
        opens_invariants none
        no_unwind
    {
        match last {
            Last::NotLast => {},
            Last::InCategory => {
                self.mark_prod_finished();
            },
            Last::InRing => {
                self.mark_prod_finished();
                let _ended = self.cleanup();
            },
        }
    }

    /// Does what the outcome of unregistering asks of a consumer that has
    /// left: the last consumer marks the consumers' tail as finished, and the
    /// last participant of all ends the ring after that.
    pub fn consumer_left(&self, last: Last)
        opens_invariants none
        no_unwind
    {
        match last {
            Last::NotLast => {},
            Last::InCategory => {
                self.mark_cons_finished();
            },
            Last::InRing => {
                self.mark_cons_finished();
                let _ended = self.cleanup();
            },
        }
    }

    /// Moves the first values of `values` into the ring, as many as it gets
    /// slots for, and leaves the others in `values`.
    ///
    /// With `EXACT` it asks for room for all values and fails with
    /// `NotEnoughSpace` if there is room for some only; without, it asks for
    /// room for as many as there is, up to all. It fails with `Full` if there
    /// is no room, with `Closed` if the consumers are gone and with `Poisoned`
    /// if the ring is poisoned. Nothing is moved where it fails.
    pub fn try_enqueue<const EXACT: bool>(&self, values: &mut Vec<T>) -> (written: Result<
        usize,
        Error,
    >)
        ensures
            spec_enqueued(N as int, EXACT, old(values)@, final(values)@, written),
    {
        proof {
            use_type_invariant(self);
            lemma_capacity_bounds(N as int);
        }
        let expected = request(values.len());
        if expected == 0 {
            cold_path();
            assert(values@.skip(0) =~= values@);
            return Ok(0);
        }
        match self.prod_headtail.move_head::<N, true, EXACT, C>(&self.cons_headtail, expected) {
            Ok(claim) => Ok(self.enqueue_under(claim, values)),
            Err(error) => Err(translated(error, self.active.is_poisoned())),
        }
    }

    /// Moves the first values of `values` into the slots of `claim`, one into
    /// each and in their order, gives the claim back and returns how many it
    /// moved: as many as the claim has slots. The other values stay in
    /// `values`.
    pub fn enqueue_under(&self, claim: Claim, values: &mut Vec<T>) -> (count: usize)
        requires
            claim.spec_entries() <= old(values)@.len(),
        ensures
            count == claim.spec_entries(),
            final(values)@ == old(values)@.skip(count as int),
    {
        proof {
            use_type_invariant(self);
        }
        let start = claim.start();
        let count = claim.entries();
        let rest = values.split_off(count as usize);
        let mut left: u32 = count;
        while left > 0
            invariant
                valid_capacity(N as int),
                left <= count <= old(values)@.len(),
                values@ == old(values)@.subrange(0, left as int),
            decreases left,
        {
            left = left - 1;
            let value = values.pop().unwrap();
            assert(values@ =~= old(values)@.subrange(0, left as int));
            self.data(advance::<N>(start, left)).write(value);
        }
        *values = rest;
        assert(values@ =~= old(values)@.skip(count as int));
        self.prod_headtail.update_tail::<N>(claim);
        count as usize
    }

    /// Moves `value` into the ring if there is a slot for it, and hands it
    /// back if the ring is full.
    ///
    /// It fails with `Closed` if the consumers are gone and with `Poisoned` if
    /// the ring is poisoned.
    pub fn try_enqueue_one(&self, value: T) -> (back: Result<Option<T>, Error>)
        ensures
            back matches Ok(Some(returned)) ==> returned == value,
            back matches Err(error) ==> error == Error::Closed || error == Error::Poisoned,
    {
        proof {
            use_type_invariant(self);
        }
        let moved = self.prod_headtail.move_head::<N, true, true, C>(&self.cons_headtail, 1);
        self.enqueue_one_into(moved, value)
    }

    /// Does with `value` what the attempt to reserve a slot for it asks for.
    ///
    /// Under a claim the value is written into the first slot of the claim,
    /// the claim is given back and nothing is handed back. If the ring was
    /// full the value is handed back. Any other error is passed on, `Closed`
    /// as `Poisoned` if the ring is found poisoned.
    pub fn enqueue_one_into(&self, moved: Result<Claim, Error>, value: T) -> (back: Result<
        Option<T>,
        Error,
    >)
        ensures
            match moved {
                Ok(_) => back == Ok::<Option<T>, Error>(None),
                Err(Error::Full) => back == Ok::<Option<T>, Error>(Some(value)),
                Err(error) => back == Err::<Option<T>, Error>(spec_translated(error, false))
                    || back == Err::<Option<T>, Error>(spec_translated(error, true)),
            },
    {
        proof {
            use_type_invariant(self);
        }
        match moved {
            Ok(claim) => {
                self.data(advance::<N>(claim.start(), 0)).write(value);
                self.prod_headtail.update_tail::<N>(claim);
                Ok(None)
            },
            Err(Error::Full) => {
                cold_path();
                Ok(Some(value))
            },
            Err(error) => Err(translated(error, self.active.is_poisoned())),
        }
    }

    /// Reserves up to `n` values of the ring for the caller, who reads them
    /// through what is returned.
    ///
    /// The caller is counted as one more consumer first, so that nothing is
    /// reserved for a reader that cannot be counted: it fails with
    /// `TooManyConsumers` if no further consumer can be counted and with
    /// `Poisoned` if the ring is poisoned, and the ring is then as it was.
    ///
    /// With `EXACT` it reserves `n` values and fails with `NotEnoughItems` if
    /// fewer wait, or with `NotEnoughItemsAndClosed` if in addition the
    /// producers are gone; without, it reserves as many as wait, up to `n`. It
    /// fails with `Empty` if none waits and with `Closed` if in addition the
    /// producers are gone. Where it fails the caller is counted no longer.
    /// Asked for no value, it reserves none and returns at once.
    pub fn try_dequeue<const EXACT: bool>(ring: &Arc<Self>, n: usize) -> (values: Result<
        RecvValues<N, T, P, C>,
        Error,
    >)
        ensures
            match values {
                Ok(values) => {
                    &&& values.spec_remaining() <= n
                    &&& values.spec_remaining() < N
                    &&& (values.spec_remaining() == 0 <==> n == 0)
                    &&& (EXACT ==> values.spec_remaining() == n)
                },
                Err(error) => n > 0 && spec_dequeue_error(EXACT, n, error),
            },
    {
        proof {
            use_type_invariant(&**ring);
            lemma_capacity_bounds(N as int);
        }
        let expected = request(n);
        if expected == 0 {
            cold_path();
            return Ok(RecvValues::new_empty());
        }
        match ring.active.register_consumer() {
            Ok(()) => {},
            Err(error) => {
                cold_path();
                return Err(error);
            },
        }
        let moved = ring.cons_headtail.move_head::<N, false, EXACT, P>(
            &ring.prod_headtail,
            expected,
        );
        Self::dequeue_under(ring, moved)
    }

    /// Does for a reader that is counted as a consumer what the attempt to
    /// reserve values for it asks for.
    ///
    /// Under a claim the values of the claim are reserved for the reader. On
    /// an error the reader is counted no longer and the error is passed on,
    /// `Closed` as `Poisoned` if the ring is found poisoned.
    pub fn dequeue_under(ring: &Arc<Self>, moved: Result<Claim, Error>) -> (values: Result<
        RecvValues<N, T, P, C>,
        Error,
    >)
        ensures
            match moved {
                Ok(claim) => values matches Ok(reserved) && reserved.spec_remaining()
                    == claim.spec_entries() && reserved.spec_offset() as int == wrap(
                    N as int,
                    claim.spec_start() as int,
                ),
                Err(error) => values matches Err(reported) && (reported == spec_translated(
                    error,
                    false,
                ) || reported == spec_translated(error, true)),
            },
    {
        proof {
            use_type_invariant(&**ring);
        }
        match moved {
            Ok(claim) => Ok(RecvValues::new(ring, claim)),
            Err(error) => {
                let reported = translated(error, ring.active.is_poisoned());
                ring.consumer_leaves();
                Err(reported)
            },
        }
    }

    /// Stops counting one consumer and does what is asked of the last one. On
    /// a poisoned ring nothing is done.
    pub fn consumer_leaves(&self)
        opens_invariants none
        no_unwind
    {
        match self.active.unregister_consumer() {
            Ok(last) => self.consumer_left(last),
            Err(_) => {},
        }
    }

    /// Stops counting one producer and does what is asked of the last one. On
    /// a poisoned ring nothing is done.
    pub fn producer_leaves(&self)
        opens_invariants none
        no_unwind
    {
        match self.active.unregister_producer() {
            Ok(last) => self.producer_left(last),
            Err(_) => {},
        }
    }

    /// Takes the value out of the slot at `offset`. For the holder of a
    /// consumer's claim that covers the slot.
    pub(crate) fn take(&self, offset: u32) -> (value: Option<T>)
        requires
            offset < N,
        opens_invariants none
        no_unwind
    {
        self.data(offset).assume_init_take()
    }

    /// Drops the value in the slot at `offset`. For the holder of a consumer's
    /// claim that covers the slot.
    pub(crate) fn discard(&self, offset: u32)
        requires
            offset < N,
        opens_invariants none
        no_unwind
    {
        self.data(offset).assume_init_drop();
    }

    /// Takes a consumer's claim back.
    pub fn return_claim_cons(&self, claim: Claim)
        opens_invariants none
        no_unwind
    {
        proof {
            use_type_invariant(self);
        }
        self.cons_headtail.update_tail::<N>(claim);
    }

    /// Poisons the ring: from now on its operations fail with `Poisoned`.
    ///
    /// For a participant that panics while it holds a claim, which would
    /// otherwise leave the ring stuck.
    pub fn poison(&self)
        opens_invariants none
        no_unwind
    {
        self.active.poison();
        self.cons_headtail.mark_finished();
        self.prod_headtail.mark_finished();
    }
}

} // verus!
