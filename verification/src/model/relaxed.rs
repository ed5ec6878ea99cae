//! Why the last participant to finish may move a relaxed tail.
//!
//! On a [`RelaxedTailSync`](crate::modes::RelaxedTailSync) side the
//! participants give their claims back in any order. The head counts the
//! claims that were taken and the tail those that came back, both modulo the
//! size of the ring. Who finds that its claim brings the count of the tail up
//! to that of the head moves the tail to the head. Shown here for the
//! producers: that happens exactly when no other claim is out, and all slots
//! up to the head are written then.
use vstd::prelude::*;
use crate::index::lemma_capacity_bounds;
use crate::index::lemma_distinct_slots;
use crate::index::lemma_wrap_small;
use crate::index::lemma_wrap_wrap;
use crate::index::valid_capacity;
use crate::index::wrap;
use crate::model::interleaved::Event;
use crate::model::interleaved::Traffic;
use crate::model::interleaved::lemma_claim;
use crate::model::interleaved::lemma_event;
use crate::model::interleaved::lemma_initial_traffic;
use crate::model::interleaved::lemma_publish_all;
use crate::model::interleaved::lemma_write;
use crate::modes::rts::PosCnt;

verus! {

/// A claim that a producer holds: `entries` places from `start` on.
pub struct Held {
    /// The first place of the claim.
    pub start: nat,
    /// The number of places of the claim.
    pub entries: nat,
}

impl Held {
    /// Whether `place` belongs to the claim.
    pub open spec fn covers(self, place: nat) -> bool {
        self.start <= place < self.start + self.entries
    }
}

/// A ring whose producers keep a relaxed tail.
pub struct Relaxed<T> {
    /// The ring.
    pub ring: Traffic<T>,
    /// What the head of the producers holds.
    pub head: PosCnt,
    /// What the tail of the producers holds.
    pub tail: PosCnt,
    /// The number of claims that producers have taken.
    pub taken: nat,
    /// The number of claims that producers have given back.
    pub returned: nat,
    /// The claims that producers hold, in the order of their places.
    pub held: Seq<Held>,
}

/// A step of a producer on a relaxed side, or of a consumer.
pub enum Action<T> {
    /// A producer asks for room for `values`, for all or none if `exact`, and
    /// claims the places for those that it gets room for.
    Claim { exact: bool, values: Seq<T> },
    /// A producer writes the value of a place that it has claimed.
    Write { place: nat },
    /// The producer that holds the claim `index` has written all its places
    /// and gives the claim back.
    Return { index: nat },
    /// A consumer does `event`, which is none of the events of a producer.
    Consumer { event: Event<T> },
}

impl<T> Relaxed<T> {
    /// A new ring.
    pub open spec fn initial(n: int) -> Relaxed<T> {
        Relaxed {
            ring: Traffic::initial(n),
            head: PosCnt { pos: 0, cnt: 0 },
            tail: PosCnt { pos: 0, cnt: 0 },
            taken: 0,
            returned: 0,
            held: Seq::empty(),
        }
    }

    /// The ring is in order, head and tail hold the positions and the counts
    /// of the claims, the claims that are held lie one after the other between
    /// tail and head, and every place between tail and head that no claim
    /// covers is written.
    pub open spec fn inv(self, n: int) -> bool {
        &&& self.ring.inv(n)
        &&& self.head.pos == self.ring.at.prod_head
        &&& self.tail.pos == self.ring.at.prod_tail
        &&& self.head.cnt == wrap(n, self.taken as int)
        &&& self.tail.cnt == wrap(n, self.returned as int)
        &&& self.returned + self.held.len() == self.taken
        &&& forall|i: int|
            0 <= i < self.held.len() ==> (#[trigger] self.held[i]).entries >= 1
                && self.ring.published <= self.held[i].start && self.held[i].start
                + self.held[i].entries <= self.ring.claimed
        &&& forall|i: int, j: int|
            0 <= i < j < self.held.len() ==> (#[trigger] self.held[i]).start + self.held[i].entries
                <= (#[trigger] self.held[j]).start
        &&& forall|k: nat|
            self.ring.published <= k < self.ring.claimed ==> #[trigger] self.ring.written.contains(
                k,
            ) || exists|i: int| 0 <= i < self.held.len() && (#[trigger] self.held[i]).covers(k)
    }

    /// Whether giving back the claim `index` is a step that the protocol
    /// allows: the claim is held and all its places are written.
    pub open spec fn may_return(self, index: nat) -> bool {
        index < self.held.len() && self.ring.all_written(
            self.held[index as int].start,
            self.held[index as int].start + self.held[index as int].entries,
        )
    }

    /// The ring after `action`. An action that the protocol does not allow
    /// leaves the ring as it is.
    pub open spec fn step(self, n: int, action: Action<T>) -> Relaxed<T> {
        match action {
            Action::Claim { exact, values } => {
                let ring = self.ring.step(n, Event::Claim { exact, values });
                if ring.claimed > self.ring.claimed {
                    Relaxed {
                        ring,
                        head: self.head.spec_claimed(n, ring.at.prod_head),
                        taken: self.taken + 1,
                        held: self.held.push(
                            Held {
                                start: self.ring.claimed,
                                entries: (ring.claimed - self.ring.claimed) as nat,
                            },
                        ),
                        ..self
                    }
                } else {
                    self
                }
            },
            Action::Write { place } => Relaxed {
                ring: self.ring.step(n, Event::Write { place }),
                ..self
            },
            Action::Return { index } => if self.may_return(index) {
                let tail = PosCnt::spec_release(n, self.tail, self.head);
                Relaxed {
                    ring: if tail.cnt == self.head.cnt {
                        Traffic {
                            at: self.ring.at.producer_returned(tail.pos),
                            published: self.ring.claimed,
                            ..self.ring
                        }
                    } else {
                        self.ring
                    },
                    tail,
                    returned: self.returned + 1,
                    held: self.held.remove(index as int),
                    ..self
                }
            } else {
                self
            },
            Action::Consumer { event } => match event {
                Event::Reserve { .. } | Event::Read { .. } | Event::Free { .. } | Event::FreeAll => Relaxed {
                    ring: self.ring.step(n, event),
                    ..self
                },
                _ => self,
            },
        }
    }

    /// The ring after the actions of `run`, one after the other.
    pub open spec fn after(self, n: int, run: Seq<Action<T>>) -> Relaxed<T>
        decreases run.len(),
    {
        if run.len() == 0 {
            self
        } else {
            self.after(n, run.drop_last()).step(n, run.last())
        }
    }
}

/// No more claims are out than there are places between tail and head, which
/// are fewer than the ring has slots.
pub proof fn lemma_held_is_few<T>(n: int, side: Relaxed<T>)
    requires
        side.inv(n),
    ensures
        side.held.len() <= side.ring.claimed - side.ring.published <= n - 1,
{
    if side.held.len() > 0 {
        let last = side.held.len() - 1;
        lemma_held_start(n, side, last);
        assert(side.held[last].entries >= 1);
    }
}

/// The claim `index` starts at least `index` places after the tail.
pub proof fn lemma_held_start<T>(n: int, side: Relaxed<T>, index: int)
    requires
        side.inv(n),
        0 <= index < side.held.len(),
    ensures
        side.held[index].start >= side.ring.published + index,
    decreases index,
{
    if index > 0 {
        lemma_held_start(n, side, index - 1);
        assert(side.held[index - 1].start + side.held[index - 1].entries
            <= side.held[index].start);
    }
}

/// A new ring with a relaxed tail is in order.
pub proof fn lemma_initial_relaxed<T>(n: int)
    requires
        valid_capacity(n),
    ensures
        Relaxed::<T>::initial(n).inv(n),
{
    lemma_initial_traffic::<T>(n);
    lemma_capacity_bounds(n);
    lemma_wrap_small(n, 0);
}

/// The counts of head and tail agree exactly when no claim is out: the count
/// modulo the size of the ring tells as much as the count itself.
pub proof fn lemma_counts_agree<T>(n: int, side: Relaxed<T>)
    requires
        side.inv(n),
    ensures
        side.tail.cnt == side.head.cnt <==> side.held.len() == 0,
        wrap(n, side.tail.cnt + 1) == side.head.cnt <==> side.held.len() == 1,
{
    lemma_capacity_bounds(n);
    lemma_held_is_few(n, side);
    let len = side.held.len() as int;
    if len != 0 {
        lemma_distinct_slots(n, side.returned + len, side.returned as int);
    }
    lemma_wrap_wrap(n, side.returned as int, 1);
    if len != 1 {
        lemma_distinct_slots(n, side.returned + len, (side.returned + 1) as int);
    }
}

/// A producer that takes a claim leaves the side in order.
pub proof fn lemma_relaxed_claim<T>(n: int, side: Relaxed<T>, exact: bool, values: Seq<T>)
    requires
        side.inv(n),
    ensures
        side.step(n, Action::Claim { exact, values }).inv(n),
{
    let after = side.step(n, Action::Claim { exact, values });
    let ring = side.ring.step(n, Event::Claim { exact, values });
    lemma_claim(n, side.ring, exact, values);
    if ring.claimed > side.ring.claimed {
        lemma_capacity_bounds(n);
        lemma_wrap_wrap(n, side.taken as int, 1);
        let new = Held { start: side.ring.claimed, entries: (ring.claimed - side.ring.claimed) as nat };
        assert(after.held[side.held.len() as int] == new);
        assert forall|i: int| 0 <= i < after.held.len() implies (#[trigger] after.held[i]).entries
            >= 1 && after.ring.published <= after.held[i].start && after.held[i].start
            + after.held[i].entries <= after.ring.claimed by {
            if i < side.held.len() {
                assert(after.held[i] == side.held[i]);
            }
        }
        assert forall|i: int, j: int| 0 <= i < j < after.held.len() implies (
        #[trigger] after.held[i]).start + after.held[i].entries <= (
        #[trigger] after.held[j]).start by {
            assert(after.held[i] == side.held[i]);
            if j < side.held.len() {
                assert(after.held[j] == side.held[j]);
            }
        }
        assert forall|k: nat|
            after.ring.published <= k < after.ring.claimed implies #[trigger] after.ring.written.contains(
            k,
        ) || exists|i: int| 0 <= i < after.held.len() && (#[trigger] after.held[i]).covers(k) by {
            if k < side.ring.claimed {
                if !side.ring.written.contains(k) {
                    let i = choose|i: int|
                        0 <= i < side.held.len() && (#[trigger] side.held[i]).covers(k);
                    assert(after.held[i] == side.held[i]);
                    assert(after.held[i].covers(k));
                }
            } else {
                assert(after.held[side.held.len() as int].covers(k));
            }
        }
        assert(after.inv(n));
    }
}

/// A producer that writes a value leaves the side in order.
pub proof fn lemma_relaxed_write<T>(n: int, side: Relaxed<T>, place: nat)
    requires
        side.inv(n),
    ensures
        side.step(n, Action::Write { place }).inv(n),
{
    let after = side.step(n, Action::Write { place });
    lemma_write(n, side.ring, place);
    assert forall|k: nat|
        after.ring.published <= k < after.ring.claimed implies #[trigger] after.ring.written.contains(
        k,
    ) || exists|i: int| 0 <= i < after.held.len() && (#[trigger] after.held[i]).covers(k) by {
        if !side.ring.written.contains(k) {
            let i = choose|i: int| 0 <= i < side.held.len() && (#[trigger] side.held[i]).covers(k);
            assert(after.held[i].covers(k));
        }
    }
}

/// The relaxed tail is safe. A producer that gives its claim back moves the
/// tail to the head exactly when no other claim is out. All places up to the
/// head are written then, so that the step is one that the ring allows, and
/// the side stays in order.
pub proof fn lemma_relaxed_return<T>(n: int, side: Relaxed<T>, index: nat)
    requires
        side.inv(n),
    ensures
        side.step(n, Action::Return { index }).inv(n),
        side.may_return(index) && side.held.len() == 1 ==> side.step(
            n,
            Action::Return { index },
        ).ring == side.ring.step(n, Event::PublishAll) && side.ring.all_written(
            side.ring.published,
            side.ring.claimed,
        ),
        side.may_return(index) && side.held.len() != 1 ==> side.step(
            n,
            Action::Return { index },
        ).ring == side.ring,
{
    let after = side.step(n, Action::Return { index });
    if side.may_return(index) {
        lemma_capacity_bounds(n);
        lemma_counts_agree(n, side);
        lemma_wrap_wrap(n, side.returned as int, 1);
        let claim = side.held[index as int];
        if side.held.len() == 1 {
            assert forall|k: nat| side.ring.published <= k < side.ring.claimed implies (
            #[trigger] side.ring.written.contains(k)) by {
                if !side.ring.written.contains(k) {
                    let i = choose|i: int|
                        0 <= i < side.held.len() && (#[trigger] side.held[i]).covers(k);
                    assert(side.held[i] == claim);
                }
            }
            assert(side.ring.all_written(side.ring.published, side.ring.claimed));
            lemma_wrap_small(0x8000_0000, side.head.pos as int);
            assert(after.tail.pos == side.head.pos);
            lemma_publish_all(n, side.ring);
            assert(after.ring == side.ring.step(n, Event::PublishAll));
            assert(after.held.len() == 0);
            assert(after.inv(n));
        } else {
            assert(after.ring == side.ring);
            assert forall|i: int| 0 <= i < after.held.len() implies (
            #[trigger] after.held[i]).entries >= 1 && after.ring.published <= after.held[i].start
                && after.held[i].start + after.held[i].entries <= after.ring.claimed by {
                if i < index {
                    assert(after.held[i] == side.held[i]);
                } else {
                    assert(after.held[i] == side.held[i + 1]);
                }
            }
            assert forall|i: int, j: int| 0 <= i < j < after.held.len() implies (
            #[trigger] after.held[i]).start + after.held[i].entries <= (
            #[trigger] after.held[j]).start by {
                let a = if i < index {
                    i
                } else {
                    i + 1
                };
                let b = if j < index {
                    j
                } else {
                    j + 1
                };
                assert(after.held[i] == side.held[a]);
                assert(after.held[j] == side.held[b]);
            }
            assert forall|k: nat|
                after.ring.published <= k < after.ring.claimed implies #[trigger] after.ring.written.contains(
                k,
            ) || exists|i: int| 0 <= i < after.held.len() && (#[trigger] after.held[i]).covers(
                k,
            ) by {
                if !side.ring.written.contains(k) {
                    let i = choose|i: int|
                        0 <= i < side.held.len() && (#[trigger] side.held[i]).covers(k);
                    if i < index {
                        assert(after.held[i] == side.held[i]);
                        assert(after.held[i].covers(k));
                    } else if i > index {
                        assert(after.held[i - 1] == side.held[i]);
                        assert(after.held[i - 1].covers(k));
                    }
                }
            }
            assert(after.inv(n));
        }
    }
}

/// A step of a consumer leaves the side of the producers in order.
pub proof fn lemma_relaxed_consumer<T>(n: int, side: Relaxed<T>, event: Event<T>)
    requires
        side.inv(n),
    ensures
        side.step(n, Action::Consumer { event }).inv(n),
{
    let after = side.step(n, Action::Consumer { event });
    lemma_event(n, side.ring, event);
    match event {
        Event::Reserve { .. } | Event::Read { .. } | Event::Free { .. } | Event::FreeAll => {
            assert forall|k: nat|
                after.ring.published <= k < after.ring.claimed implies #[trigger] after.ring.written.contains(
                k,
            ) || exists|i: int| 0 <= i < after.held.len() && (#[trigger] after.held[i]).covers(
                k,
            ) by {
                if !side.ring.written.contains(k) {
                    let i = choose|i: int|
                        0 <= i < side.held.len() && (#[trigger] side.held[i]).covers(k);
                    assert(after.held[i].covers(k));
                }
            }
        },
        _ => {},
    }
}

/// Whatever producers with a relaxed tail and consumers do on a new ring and
/// in whatever order: the ring stays in order, the tail never passes a place
/// that is not written, and the counts of head and tail agree exactly when no
/// claim is out.
pub proof fn lemma_relaxed_run<T>(n: int, run: Seq<Action<T>>)
    requires
        valid_capacity(n),
    ensures
        Relaxed::<T>::initial(n).after(n, run).inv(n),
        Relaxed::<T>::initial(n).after(n, run).ring.all_written(
            0,
            Relaxed::<T>::initial(n).after(n, run).ring.published,
        ),
        Relaxed::<T>::initial(n).after(n, run).tail.pos == wrap(
            n,
            Relaxed::<T>::initial(n).after(n, run).ring.published as int,
        ),
        Relaxed::<T>::initial(n).after(n, run).tail.cnt == Relaxed::<T>::initial(n).after(
            n,
            run,
        ).head.cnt <==> Relaxed::<T>::initial(n).after(n, run).held.len() == 0,
    decreases run.len(),
{
    lemma_initial_relaxed::<T>(n);
    if run.len() > 0 {
        lemma_relaxed_run::<T>(n, run.drop_last());
        let before = Relaxed::<T>::initial(n).after(n, run.drop_last());
        match run.last() {
            Action::Claim { exact, values } => {
                lemma_relaxed_claim(n, before, exact, values);
            },
            Action::Write { place } => {
                lemma_relaxed_write(n, before, place);
            },
            Action::Return { index } => {
                lemma_relaxed_return(n, before, index);
            },
            Action::Consumer { event } => {
                lemma_relaxed_consumer(n, before, event);
            },
        }
    }
    lemma_counts_agree(n, Relaxed::<T>::initial(n).after(n, run));
}

} // verus!
