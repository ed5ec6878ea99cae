//! The values of a ring, followed through sends and receives that run one
//! after the other.
use vstd::prelude::*;
use crate::Error;
use crate::index::lemma_capacity_bounds;
use crate::index::lemma_wrap_negative;
use crate::index::lemma_wrap_shift;
use crate::index::lemma_wrap_small;
use crate::index::lemma_wrap_wrap;
use crate::index::spec_is_finished;
use crate::index::spec_position;
use crate::index::valid_capacity;
use crate::index::wrap;
use crate::model::indices::Indices;
use crate::model::indices::lemma_available;
use crate::model::indices::lemma_initial;
use crate::model::indices::lemma_producer_claim;
use crate::modes::spec_available;
use crate::modes::spec_reserve;
use crate::ring::spec_enqueued;
use crate::ring::spec_request;
use crate::ring::spec_translated;

verus! {

/// A tail as the other side reads it: the position, and the finished mark in
/// the highest bit.
pub open spec fn spec_tail_word(position: u32, finished: bool) -> u32 {
    if finished {
        (position + 0x8000_0000) as u32
    } else {
        position
    }
}

/// The slot `i` places after the slot `from`.
pub open spec fn spec_slot(n: int, from: u32, i: int) -> int {
    wrap(n, from + i)
}

/// The slots after `values` have been written into them from `start` on, the
/// value at `i` into the slot `i` places after `start`.
pub open spec fn spec_written<T>(n: int, slots: Seq<Option<T>>, start: u32, values: Seq<T>) -> Seq<
    Option<T>,
> {
    Seq::new(
        slots.len(),
        |j: int|
            if wrap(n, j - start) < values.len() {
                Some(values[wrap(n, j - start)])
            } else {
                slots[j]
            },
    )
}

/// The slots after the values of `count` slots from `start` on have been taken
/// out of them.
pub open spec fn spec_taken<T>(n: int, slots: Seq<Option<T>>, start: u32, count: int) -> Seq<
    Option<T>,
> {
    Seq::new(
        slots.len(),
        |j: int|
            if wrap(n, j - start) < count {
                None
            } else {
                slots[j]
            },
    )
}

/// A ring as it is between two operations that run one after the other.
pub struct RingState<T> {
    /// Where the heads and the tails stand.
    pub at: Indices,
    /// What the slots hold.
    pub slots: Seq<Option<T>>,
    /// Whether the producers' tail is marked as finished.
    pub prod_finished: bool,
    /// Whether the consumers' tail is marked as finished.
    pub cons_finished: bool,
    /// Whether the count of participants is poisoned.
    pub poisoned: bool,
}

impl<T> RingState<T> {
    /// No claim is out, and the slots from the consumers' head to the
    /// producers' tail hold a value each.
    pub open spec fn quiet(self, n: int) -> bool {
        &&& self.at.inv(n)
        &&& self.at.prod_head == self.at.prod_tail
        &&& self.at.cons_head == self.at.cons_tail
        &&& self.slots.len() == n
        &&& forall|i: int|
            0 <= i < self.at.ready(n) ==> (#[trigger] self.slots[spec_slot(
                n,
                self.at.cons_head,
                i,
            )]) is Some
    }

    /// The values that wait in the ring, the one that is received next first.
    pub open spec fn contents(self, n: int) -> Seq<T> {
        Seq::new(
            self.at.ready(n) as nat,
            |i: int| self.slots[spec_slot(n, self.at.cons_head, i)]->0,
        )
    }

    /// A new ring.
    pub open spec fn initial(n: int) -> RingState<T> {
        RingState {
            at: Indices::initial(),
            slots: Seq::new(n as nat, |j: int| None),
            prod_finished: false,
            cons_finished: false,
            poisoned: false,
        }
    }

    /// The ring after a send of `values`, and what the send returns: what
    /// [`try_enqueue`](crate::ring::Ring::try_enqueue) does when nothing else
    /// happens meanwhile.
    #[verifier::opaque]
    pub open spec fn send(self, n: int, exact: bool, values: Seq<T>) -> (RingState<T>, Result<
        usize,
        Error,
    >) {
        if values.len() == 0 {
            (self, Ok(0))
        } else {
            match spec_reserve(
                n,
                true,
                exact,
                self.at.prod_head,
                spec_tail_word(self.at.cons_tail, self.cons_finished),
                spec_request(values.len() as usize),
            ) {
                Ok((granted, new_head)) => (
                    RingState {
                        at: self.at.producer_claimed(new_head).producer_returned(new_head),
                        slots: spec_written(
                            n,
                            self.slots,
                            self.at.prod_head,
                            values.take(granted as int),
                        ),
                        ..self
                    },
                    Ok(granted as usize),
                ),
                Err(error) => (self, Err(spec_translated(error, self.poisoned))),
            }
        }
    }

    /// The ring after a receive of up to `count` values, and what the receive
    /// returns: what [`try_dequeue`](crate::ring::Ring::try_dequeue) and the
    /// reading of all that it reserved do when nothing else happens meanwhile.
    /// `registered` is what counting the reader as a consumer came to: a
    /// reader that cannot be counted gets no values, and the ring stays as it
    /// is.
    #[verifier::opaque]
    pub open spec fn recv(
        self,
        n: int,
        exact: bool,
        count: usize,
        registered: Result<(), Error>,
    ) -> (RingState<T>, Result<Seq<T>, Error>) {
        if count == 0 {
            (self, Ok(Seq::empty()))
        } else if registered is Err {
            (self, Err(registered->Err_0))
        } else {
            match spec_reserve(
                n,
                false,
                exact,
                self.at.cons_head,
                spec_tail_word(self.at.prod_tail, self.prod_finished),
                spec_request(count),
            ) {
                Ok((granted, new_head)) => (
                    RingState {
                        at: self.at.consumer_claimed(new_head).consumer_returned(new_head),
                        slots: spec_taken(n, self.slots, self.at.cons_head, granted as int),
                        ..self
                    },
                    Ok(
                        Seq::new(
                            granted as nat,
                            |i: int| self.slots[spec_slot(n, self.at.cons_head, i)]->0,
                        ),
                    ),
                ),
                Err(error) => (self, Err(spec_translated(error, self.poisoned))),
            }
        }
    }

    /// What a send of `values` returns on a ring that holds `waiting` values.
    pub open spec fn send_outcome(self, n: int, exact: bool, values: Seq<T>) -> Result<
        usize,
        Error,
    > {
        let room = n - 1 - self.contents(n).len();
        if values.len() == 0 {
            Ok(0)
        } else if self.cons_finished {
            Err(
                if self.poisoned {
                    Error::Poisoned
                } else {
                    Error::Closed
                },
            )
        } else if room == 0 {
            Err(Error::Full)
        } else if exact && values.len() > room {
            Err(Error::NotEnoughSpace)
        } else if values.len() <= room {
            Ok(values.len() as usize)
        } else {
            Ok(room as usize)
        }
    }

    /// What a receive of up to `count` values returns, where counting the
    /// reader as a consumer came to `registered`.
    pub open spec fn recv_outcome(
        self,
        n: int,
        exact: bool,
        count: usize,
        registered: Result<(), Error>,
    ) -> Result<Seq<T>, Error> {
        let waiting = self.contents(n).len();
        if count == 0 {
            Ok(Seq::empty())
        } else if registered is Err {
            Err(registered->Err_0)
        } else if waiting == 0 {
            Err(
                if !self.prod_finished {
                    Error::Empty
                } else if self.poisoned {
                    Error::Poisoned
                } else {
                    Error::Closed
                },
            )
        } else if exact && count > waiting {
            Err(
                if self.prod_finished {
                    Error::NotEnoughItemsAndClosed
                } else {
                    Error::NotEnoughItems
                },
            )
        } else if count <= waiting {
            Ok(self.contents(n).take(count as int))
        } else {
            Ok(self.contents(n))
        }
    }
}

/// A tail word holds the position and the mark that it was made of.
pub proof fn lemma_tail_word(position: u32, finished: bool)
    requires
        position < 0x8000_0000,
    ensures
        spec_position(spec_tail_word(position, finished)) == position,
        spec_is_finished(spec_tail_word(position, finished)) == finished,
        spec_position(position) == position,
        !spec_is_finished(position),
{
}

/// Places that lie less than once round apart are different slots, as far
/// apart as the places.
pub proof fn lemma_slots_apart(n: int, from: u32, i: int, k: int)
    requires
        n > 0,
    ensures
        wrap(n, spec_slot(n, from, i) - spec_slot(n, from, k)) == wrap(n, i - k),
        0 <= spec_slot(n, from, i) < n,
{
    lemma_wrap_wrap(n, from + i, -spec_slot(n, from, k));
    lemma_wrap_wrap(n, from + k, from + i);
    assert(from + i - (from + k) == i - k);
}

/// In a quiet ring the producers' head is as many places after the consumers'
/// head as values wait.
pub proof fn lemma_quiet_head<T>(n: int, ring: RingState<T>)
    requires
        ring.quiet(n),
    ensures
        spec_slot(n, ring.at.cons_head, ring.at.ready(n)) == ring.at.prod_head,
        ring.at.occupied(n) == ring.at.ready(n),
        ring.contents(n).len() == ring.at.ready(n),
        0 <= ring.at.ready(n) <= n - 1,
{
    lemma_capacity_bounds(n);
    lemma_wrap_wrap(n, ring.at.prod_tail - ring.at.cons_head, ring.at.cons_head as int);
    lemma_wrap_small(n, ring.at.prod_tail as int);
    lemma_wrap_small(n, 0);
}

/// A new ring is quiet and holds nothing.
pub proof fn lemma_initial_ring<T>(n: int)
    requires
        valid_capacity(n),
    ensures
        RingState::<T>::initial(n).quiet(n),
        RingState::<T>::initial(n).contents(n) == Seq::<T>::empty(),
{
    lemma_initial(n);
    lemma_capacity_bounds(n);
    lemma_wrap_small(n, 0);
    assert(RingState::<T>::initial(n).contents(n) =~= Seq::<T>::empty());
}

/// A send puts the values that it accepts behind those that wait, in their
/// order, and changes nothing if it fails. It accepts as many values as there
/// is room for; asked to send all or none, it fails where it cannot accept
/// all. It fails on a full ring, and on one whose consumers are gone.
pub proof fn lemma_send<T>(n: int, ring: RingState<T>, exact: bool, values: Seq<T>)
    requires
        ring.quiet(n),
        values.len() <= usize::MAX,
    ensures
        ring.send(n, exact, values).0.quiet(n),
        ring.send(n, exact, values).1 == ring.send_outcome(n, exact, values),
        match ring.send(n, exact, values).1 {
            Ok(count) => count <= values.len() && ring.send(n, exact, values).0.contents(n)
                == ring.contents(n) + values.take(count as int),
            Err(_) => ring.send(n, exact, values).0 == ring,
        },
        ring.send(n, exact, values).0.prod_finished == ring.prod_finished,
        ring.send(n, exact, values).0.cons_finished == ring.cons_finished,
        ring.send(n, exact, values).0.poisoned == ring.poisoned,
        spec_enqueued(
            n,
            exact,
            values,
            match ring.send(n, exact, values).1 {
                Ok(count) => values.skip(count as int),
                Err(_) => values,
            },
            ring.send(n, exact, values).1,
        ),
{
    lemma_capacity_bounds(n);
    lemma_quiet_head(n, ring);
    lemma_available(n, ring.at);
    lemma_tail_word(ring.at.cons_tail, ring.cons_finished);
    lemma_tail_word(ring.at.prod_head, false);
    reveal(RingState::send);
    let (after, outcome) = ring.send(n, exact, values);
    if values.len() == 0 {
        assert(values.take(0) =~= Seq::<T>::empty());
        assert(ring.contents(n) + values.take(0) =~= ring.contents(n));
        assert(values.skip(0) =~= values);
    } else {
        let expected = spec_request(values.len() as usize);
        let tail = spec_tail_word(ring.at.cons_tail, ring.cons_finished);
        assert(spec_available(n, true, ring.at.prod_head, tail) == spec_available(
            n,
            true,
            ring.at.prod_head,
            ring.at.cons_tail,
        ));
        match spec_reserve(n, true, exact, ring.at.prod_head, tail, expected) {
            Ok((granted, new_head)) => {
                let ready = ring.at.ready(n);
                let taken = values.take(granted as int);
                assert(spec_reserve(
                    n,
                    true,
                    exact,
                    ring.at.prod_head,
                    ring.at.cons_tail,
                    expected,
                ) == Ok::<(u32, u32), Error>((granted, new_head)));
                lemma_producer_claim(n, ring.at, exact, expected, granted, new_head);
                let claimed = ring.at.producer_claimed(new_head);
                lemma_wrap_small(n, ring.at.prod_head + granted - ring.at.prod_head);
                // The claim is returned at once.
                lemma_wrap_wrap(n, ring.at.prod_head + granted, -ring.at.cons_head);
                lemma_wrap_shift(n, ring.at.prod_tail - ring.at.cons_head, granted as int);
                assert(ring.at.prod_head + granted - ring.at.cons_head == ring.at.prod_tail
                    - ring.at.cons_head + granted);
                lemma_wrap_small(n, 0);
                assert(after.at.ready(n) == ready + granted);
                assert(after.at.writing(n) == 0);
                assert(after.at.reading(n) == 0);
                assert forall|i: int| 0 <= i < ready + granted implies (
                #[trigger] after.slots[spec_slot(n, ring.at.cons_head, i)]) == Some(
                    (ring.contents(n) + taken)[i],
                ) by {
                    lemma_slots_apart(n, ring.at.cons_head, i, ready);
                    if i < ready {
                        lemma_wrap_negative(n, i - ready);
                    } else {
                        lemma_wrap_small(n, i - ready);
                    }
                }
                assert(after.contents(n) =~= ring.contents(n) + taken);
                assert(after.quiet(n));
            },
            Err(error) => {},
        }
    }
}

/// A receive takes the values that wait longest, in their order, and changes
/// nothing if it fails. It takes as many values as wait, up to the number
/// asked for; asked for that number or none, it fails where fewer wait. It
/// fails on an empty ring, and for a reader that cannot be counted as a
/// consumer, whose values stay in the ring for the next receive.
pub proof fn lemma_recv<T>(
    n: int,
    ring: RingState<T>,
    exact: bool,
    count: usize,
    registered: Result<(), Error>,
)
    requires
        ring.quiet(n),
    ensures
        ring.recv(n, exact, count, registered).0.quiet(n),
        ring.recv(n, exact, count, registered).1 == ring.recv_outcome(n, exact, count, registered),
        match ring.recv(n, exact, count, registered).1 {
            Ok(values) => values.len() <= count && ring.contents(n) == values + ring.recv(
                n,
                exact,
                count,
                registered,
            ).0.contents(n),
            Err(_) => ring.recv(n, exact, count, registered).0 == ring,
        },
        count > 0 && registered is Err ==> ring.recv(n, exact, count, registered) == (
            ring,
            Err::<Seq<T>, Error>(registered->Err_0),
        ),
        ring.recv(n, exact, count, registered).0.prod_finished == ring.prod_finished,
        ring.recv(n, exact, count, registered).0.cons_finished == ring.cons_finished,
        ring.recv(n, exact, count, registered).0.poisoned == ring.poisoned,
{
    lemma_capacity_bounds(n);
    lemma_quiet_head(n, ring);
    lemma_available(n, ring.at);
    lemma_tail_word(ring.at.prod_tail, ring.prod_finished);
    lemma_tail_word(ring.at.cons_head, false);
    reveal(RingState::recv);
    let (after, outcome) = ring.recv(n, exact, count, registered);
    if count == 0 {
        assert(Seq::<T>::empty() + ring.contents(n) =~= ring.contents(n));
    } else if registered is Err {
    } else {
        let expected = spec_request(count);
        let tail = spec_tail_word(ring.at.prod_tail, ring.prod_finished);
        assert(spec_available(n, false, ring.at.cons_head, tail) == spec_available(
            n,
            false,
            ring.at.cons_head,
            ring.at.prod_tail,
        ));
        match spec_reserve(n, false, exact, ring.at.cons_head, tail, expected) {
            Ok((granted, new_head)) => {
                let ready = ring.at.ready(n);
                let values = outcome->Ok_0;
                // The new head lies `granted` places on, and as many fewer
                // values wait.
                lemma_wrap_wrap(n, ring.at.cons_head + granted, ring.at.prod_tail as int);
                lemma_wrap_shift(n, ring.at.prod_tail - ring.at.cons_head, -(granted as int));
                assert(ring.at.prod_tail - (ring.at.cons_head + granted) == ring.at.prod_tail
                    - ring.at.cons_head + (-(granted as int)));
                lemma_wrap_small(n, 0);
                assert(after.at.ready(n) == ready - granted);
                assert forall|i: int| 0 <= i < ready - granted implies (
                #[trigger] after.slots[spec_slot(n, new_head, i)]) == ring.slots[spec_slot(
                    n,
                    ring.at.cons_head,
                    granted + i,
                )] by {
                    lemma_wrap_wrap(n, ring.at.cons_head + granted, i);
                    assert(ring.at.cons_head + granted + i == ring.at.cons_head + (granted + i));
                    lemma_slots_apart(n, ring.at.cons_head, granted + i, 0);
                    lemma_wrap_small(n, ring.at.cons_head as int);
                    lemma_wrap_small(n, granted + i);
                }
                assert forall|i: int| 0 <= i < ready - granted implies (
                #[trigger] after.slots[spec_slot(n, after.at.cons_head, i)]) is Some by {
                    assert(ring.slots[spec_slot(n, ring.at.cons_head, granted + i)] is Some);
                }
                assert(values =~= ring.contents(n).take(granted as int));
                assert(ring.contents(n) =~= values + after.contents(n));
                assert(after.quiet(n));
            },
            Err(error) => {},
        }
    }
}

/// What can happen to a ring between two quiet states.
pub enum Operation<T> {
    /// A send of `values`, all or none if `exact`.
    Send { exact: bool, values: Seq<T> },
    /// A receive of up to `count` values, that many or none if `exact`, by a
    /// reader for whom counting it as a consumer came to `registered`.
    Recv { exact: bool, count: usize, registered: Result<(), Error> },
    /// The last producer leaves.
    FinishProducers,
    /// The last consumer leaves.
    FinishConsumers,
    /// A participant panics.
    Poison,
}

impl<T> Operation<T> {
    /// Whether the operation can be asked of a channel: the values of a send
    /// fit into a vector.
    pub open spec fn possible(self) -> bool {
        self matches Operation::Send { values, .. } ==> values.len() <= usize::MAX
    }
}

impl<T> RingState<T> {
    /// The ring after `operation`.
    pub open spec fn apply(self, n: int, operation: Operation<T>) -> RingState<T> {
        match operation {
            Operation::Send { exact, values } => self.send(n, exact, values).0,
            Operation::Recv { exact, count, registered } => self.recv(
                n,
                exact,
                count,
                registered,
            ).0,
            Operation::FinishProducers => RingState { prod_finished: true, ..self },
            Operation::FinishConsumers => RingState { cons_finished: true, ..self },
            Operation::Poison => RingState {
                prod_finished: true,
                cons_finished: true,
                poisoned: true,
                ..self
            },
        }
    }

    /// The values that `operation` moves into the ring.
    pub open spec fn accepted(self, n: int, operation: Operation<T>) -> Seq<T> {
        match operation {
            Operation::Send { exact, values } => match self.send(n, exact, values).1 {
                Ok(count) => values.take(count as int),
                Err(_) => Seq::empty(),
            },
            _ => Seq::empty(),
        }
    }

    /// The values that `operation` takes out of the ring.
    pub open spec fn delivered(self, n: int, operation: Operation<T>) -> Seq<T> {
        match operation {
            Operation::Recv { exact, count, registered } => match self.recv(
                n,
                exact,
                count,
                registered,
            ).1 {
                Ok(values) => values,
                Err(_) => Seq::empty(),
            },
            _ => Seq::empty(),
        }
    }

    /// The ring after the operations of `run`, one after the other.
    pub open spec fn after(self, n: int, run: Seq<Operation<T>>) -> RingState<T>
        decreases run.len(),
    {
        if run.len() == 0 {
            self
        } else {
            self.after(n, run.drop_last()).apply(n, run.last())
        }
    }

    /// All values that the sends of `run` moved into the ring, in the order
    /// in which they went in.
    pub open spec fn sent(self, n: int, run: Seq<Operation<T>>) -> Seq<T>
        decreases run.len(),
    {
        if run.len() == 0 {
            Seq::empty()
        } else {
            self.sent(n, run.drop_last()) + self.after(n, run.drop_last()).accepted(n, run.last())
        }
    }

    /// All values that the receives of `run` took out of the ring, in the order
    /// in which they came out.
    pub open spec fn received(self, n: int, run: Seq<Operation<T>>) -> Seq<T>
        decreases run.len(),
    {
        if run.len() == 0 {
            Seq::empty()
        } else {
            self.received(n, run.drop_last()) + self.after(n, run.drop_last()).delivered(
                n,
                run.last(),
            )
        }
    }
}

/// Every operation leaves a quiet ring quiet, keeps a mark that is set, and
/// accounts for the values: those that waited and those that went in are
/// those that came out and those that wait.
pub proof fn lemma_apply<T>(n: int, ring: RingState<T>, operation: Operation<T>)
    requires
        ring.quiet(n),
        operation.possible(),
    ensures
        ring.apply(n, operation).quiet(n),
        ring.contents(n) + ring.accepted(n, operation) == ring.delivered(n, operation)
            + ring.apply(n, operation).contents(n),
        ring.cons_finished ==> ring.apply(n, operation).cons_finished,
        ring.prod_finished ==> ring.apply(n, operation).prod_finished,
        ring.poisoned ==> ring.apply(n, operation).poisoned,
{
    let empty = Seq::<T>::empty();
    assert(ring.contents(n) + empty =~= ring.contents(n));
    assert(empty + ring.contents(n) =~= ring.contents(n));
    match operation {
        Operation::Send { exact, values } => {
            lemma_send(n, ring, exact, values);
            assert(empty + ring.apply(n, operation).contents(n) =~= ring.apply(
                n,
                operation,
            ).contents(n));
        },
        Operation::Recv { exact, count, registered } => {
            lemma_recv(n, ring, exact, count, registered);
        },
        _ => {
            assert(ring.apply(n, operation).contents(n) =~= ring.contents(n));
        },
    }
}

/// Conservation and order. Over any run of operations on a quiet ring, the
/// values that waited at the start followed by all that were sent are the
/// values that were received followed by those that wait at the end: every
/// value comes out once, none is lost, and they come out in the order in which
/// they went in.
pub proof fn lemma_conservation<T>(n: int, ring: RingState<T>, run: Seq<Operation<T>>)
    requires
        ring.quiet(n),
        forall|i: int| 0 <= i < run.len() ==> (#[trigger] run[i]).possible(),
    ensures
        ring.after(n, run).quiet(n),
        ring.contents(n) + ring.sent(n, run) == ring.received(n, run) + ring.after(
            n,
            run,
        ).contents(n),
        ring.cons_finished ==> ring.after(n, run).cons_finished,
        ring.prod_finished ==> ring.after(n, run).prod_finished,
        ring.poisoned ==> ring.after(n, run).poisoned,
    decreases run.len(),
{
    if run.len() == 0 {
        assert(ring.contents(n) + Seq::<T>::empty() =~= Seq::<T>::empty() + ring.contents(n));
    } else {
        let before = run.drop_last();
        let middle = ring.after(n, before);
        assert forall|i: int| 0 <= i < before.len() implies (#[trigger] before[i]).possible() by {
            assert(before[i] == run[i]);
        }
        lemma_conservation(n, ring, before);
        lemma_apply(n, middle, run.last());
        let a = middle.accepted(n, run.last());
        let d = middle.delivered(n, run.last());
        assert(ring.contents(n) + (ring.sent(n, before) + a) =~= (ring.contents(n) + ring.sent(
            n,
            before,
        )) + a);
        assert((ring.received(n, before) + middle.contents(n)) + a =~= ring.received(n, before)
            + (middle.contents(n) + a));
        assert(ring.received(n, before) + (d + ring.after(n, run).contents(n)) =~= (
        ring.received(n, before) + d) + ring.after(n, run).contents(n));
    }
}

/// On a new ring, what was received is the beginning of what was sent, and
/// what is missing at its end waits in the ring.
pub proof fn lemma_received_is_prefix_of_sent<T>(n: int, run: Seq<Operation<T>>)
    requires
        valid_capacity(n),
        forall|i: int| 0 <= i < run.len() ==> (#[trigger] run[i]).possible(),
    ensures
        RingState::<T>::initial(n).sent(n, run) == RingState::<T>::initial(n).received(n, run)
            + RingState::<T>::initial(n).after(n, run).contents(n),
        RingState::<T>::initial(n).after(n, run).contents(n).len() <= n - 1,
{
    let ring = RingState::<T>::initial(n);
    lemma_initial_ring::<T>(n);
    lemma_conservation(n, ring, run);
    lemma_quiet_head(n, ring.after(n, run));
    assert(Seq::<T>::empty() + ring.sent(n, run) =~= ring.sent(n, run));
}

/// Sticky closure. Once a send has failed with `Closed`, every send of a
/// value after it fails with `Closed` or with `Poisoned`, whatever happens in
/// between.
pub proof fn lemma_closed_is_sticky<T>(
    n: int,
    ring: RingState<T>,
    exact: bool,
    values: Seq<T>,
    run: Seq<Operation<T>>,
    later_exact: bool,
    later: Seq<T>,
)
    requires
        ring.quiet(n),
        values.len() <= usize::MAX,
        0 < later.len() <= usize::MAX,
        forall|i: int| 0 <= i < run.len() ==> (#[trigger] run[i]).possible(),
        ring.send(n, exact, values).1 == Err::<usize, Error>(Error::Closed),
    ensures
        ring.send(n, exact, values).0.after(n, run).send(n, later_exact, later).1 == Err::<
            usize,
            Error,
        >(Error::Closed) || ring.send(n, exact, values).0.after(n, run).send(
            n,
            later_exact,
            later,
        ).1 == Err::<usize, Error>(Error::Poisoned),
{
    lemma_send(n, ring, exact, values);
    lemma_quiet_head(n, ring);
    let closed = ring.send(n, exact, values).0;
    assert(closed.cons_finished);
    lemma_conservation(n, closed, run);
    lemma_send(n, closed.after(n, run), later_exact, later);
}

/// Round trip. What is sent whole into an empty ring and fits is received
/// whole and unchanged, and the ring is empty again. This holds wherever the
/// heads stand, also where the values lie across the end of the ring.
pub proof fn lemma_bulk_round_trip<T>(n: int, ring: RingState<T>, values: Seq<T>)
    requires
        ring.quiet(n),
        ring.contents(n).len() == 0,
        !ring.cons_finished,
        values.len() <= n - 1,
    ensures
        ring.send(n, true, values).1 == Ok::<usize, Error>(values.len() as usize),
        ring.send(n, true, values).0.recv(n, true, values.len() as usize, Ok(())).1 == Ok::<
            Seq<T>,
            Error,
        >(values),
        ring.send(n, true, values).0.recv(n, true, values.len() as usize, Ok(())).0.contents(n).len()
            == 0,
{
    lemma_capacity_bounds(n);
    lemma_send(n, ring, true, values);
    let full = ring.send(n, true, values).0;
    assert(values.take(values.len() as int) =~= values);
    assert(ring.contents(n) + values =~= values);
    lemma_recv(n, full, true, values.len() as usize, Ok(()));
    assert(values.take(values.len() as int) =~= values);
}

/// Round trip of one value: the value sent into an empty ring is the value
/// received from it.
pub proof fn lemma_round_trip<T>(n: int, ring: RingState<T>, value: T)
    requires
        ring.quiet(n),
        ring.contents(n).len() == 0,
        !ring.cons_finished,
    ensures
        ring.send(n, true, seq![value]).1 == Ok::<usize, Error>(1),
        ring.send(n, true, seq![value]).0.recv(n, true, 1, Ok(())).1 == Ok::<Seq<T>, Error>(seq![value]),
{
    lemma_capacity_bounds(n);
    lemma_bulk_round_trip(n, ring, seq![value]);
}

/// The capacity. A ring of `n` slots takes `n - 1` values and then reports
/// `Full`, until a value is received.
pub proof fn lemma_capacity<T>(
    n: int,
    ring: RingState<T>,
    values: Seq<T>,
    exact: bool,
    more: Seq<T>,
)
    requires
        ring.quiet(n),
        ring.contents(n).len() == 0,
        !ring.cons_finished,
        values.len() == n - 1,
        0 < more.len() <= usize::MAX,
    ensures
        ring.send(n, true, values).1 == Ok::<usize, Error>((n - 1) as usize),
        ring.send(n, true, values).0.send(n, exact, more).1 == Err::<usize, Error>(Error::Full),
        ring.send(n, true, values).0.recv(n, true, 1, Ok(())).0.send(n, exact, more).1 == Ok::<
            usize,
            Error,
        >(1) || (exact && more.len() > 1 && ring.send(n, true, values).0.recv(n, true, 1, Ok(())).0.send(
            n,
            exact,
            more,
        ).1 == Err::<usize, Error>(Error::NotEnoughSpace)),
{
    lemma_capacity_bounds(n);
    lemma_send(n, ring, true, values);
    let full = ring.send(n, true, values).0;
    assert(values.take(values.len() as int) =~= values);
    assert(ring.contents(n) + values =~= values);
    lemma_send(n, full, exact, more);
    lemma_recv(n, full, true, 1, Ok(()));
    lemma_send(n, full.recv(n, true, 1, Ok(())).0, exact, more);
}

} // verus!
