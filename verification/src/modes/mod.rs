//! Synchronisation modes for the producer side and the consumer side.
//!
//! Each side of the ring keeps a head and a tail. A participant moves the head
//! forward to reserve a range of slots, works on the slots, and then moves the
//! tail past them to give them back. Between the producers' tail and the
//! consumers' head lie the values that wait to be read; between the consumers'
//! tail and the producers' head lie the slots that are free.
//!
//! How the head and the tail of one side are kept in step is the side's mode.
use vstd::prelude::*;
use std::sync::atomic::Ordering;
use crate::Error;
use crate::atomic::load_ordering;
use crate::index::valid_capacity;
use crate::index::wrap;
use crate::index::spec_is_finished;
use crate::index::spec_position;
use crate::index::mask;
use crate::index::advance;
use crate::index::distance;
use crate::index::is_finished_word;
use crate::index::position_of;
use crate::index::lemma_capacity_bounds;
use crate::hint::cold_path;

pub mod hts;
pub mod multi;
pub mod rts;
pub mod single;

pub use hts::HeadTailSync;
pub use multi::Multi;
pub use rts::RelaxedTailSync;
pub use single::Single;

verus! {

/// How often a participant tries again while other threads get in its way,
/// before it gives up. No thread lives to see this many rounds: the bound is
/// there so that every loop of the library is known to end.
pub const PATIENCE: u64 = u64::MAX;

/// The orderings with which a tail can be loaded.
#[derive(Debug, PartialEq, Eq, Structural, Clone, Copy)]
pub enum LoadOrder {
    /// No synchronisation with other accesses.
    Relaxed,
    /// What was written before the value loaded was stored with `Release` is
    /// visible afterwards.
    Acquire,
    /// `Acquire`, and one order of all such accesses that all threads see.
    SeqCst,
}

/// The tail of one side of the ring, as the other side sees it.
///
/// The methods run while handles are dropped, so they return without
/// unwinding. Each has a body here, that of a side whose tail never leaves
/// the first slot; every mode of this library brings its own.
pub trait Tail: Sized {
    /// Reads the tail: the position up to which this side has given its slots
    /// back, with the finished mark in the highest bit.
    fn load_tail(&self, ordering: LoadOrder) -> (tail: u32)
        opens_invariants none
        no_unwind
    {
        0
    }

    /// Marks this side as finished: its head will not move again.
    ///
    /// To be called by the last participant of the side, or when the ring is
    /// poisoned.
    fn mark_finished(&self)
        opens_invariants none
        no_unwind
    {
    }

    /// Whether this side is marked as finished.
    fn is_finished(&self) -> (finished: bool)
        opens_invariants none
        no_unwind
    {
        false
    }
}

/// The head and the tail of one side of the ring.
pub trait ModeInner: Tail + Default {
    /// Moves the head forward to reserve up to `expected` slots.
    ///
    /// `N` is the number of slots of the ring, `IS_PROD` tells whether this is
    /// the producers' side, `EXACT` whether `expected` slots are wanted or
    /// none, and `other` is the other side, whose tail bounds the head.
    ///
    /// What is granted depends on where other threads have left the two
    /// sides. A claim that is granted never holds more than was asked for, and
    /// exactly that if `EXACT`. A side that gives up because other threads
    /// kept moving the head reports `Full` or `Empty`.
    fn move_head<const N: usize, const IS_PROD: bool, const EXACT: bool, Other: Tail>(
        &self,
        other: &Other,
        expected: u32,
    ) -> (claim: Result<Claim, Error>)
        requires
            valid_capacity(N as int),
            expected >= 1,
        ensures
            spec_move_head_allows(N as int, IS_PROD, EXACT, expected, claim),
    ;

    /// Takes a claim back and moves the tail past it.
    ///
    /// On some sides the claims come back in the order in which they were
    /// taken, and a participant waits here for those before it. Like the
    /// methods of [`Tail`] this runs while handles are dropped, and has a body
    /// here that every mode of this library replaces by its own.
    fn update_tail<const N: usize>(&self, claim: Claim)
        requires
            valid_capacity(N as int),
        opens_invariants none
        no_unwind
    {
        let _tail: u32 = claim.new_tail::<N>();
    }
}

/// A synchronisation mode of the senders or of the receivers of a channel.
///
/// - [`Single`]: one participant, which must stay on one thread at a time.
/// - [`Multi`]: several participants race for the head and give their slots
///   back in the order in which they got them.
/// - [`HeadTailSync`]: several participants, of which one at a time holds
///   slots.
/// - [`RelaxedTailSync`]: as `Multi`, but the last participant to finish gives
///   the slots of all back.
pub trait Mode: ModeInner {
    /// The settings of the mode.
    type Settings: Default;

    /// A marker that a handle of this side carries. It can be shared between
    /// threads if a handle of this side can.
    type Sharing;

    /// The mode with the given settings, with head and tail at the first slot.
    fn new_with(settings: Self::Settings) -> Self;
}

/// A mode of a side that several participants can work on at a time: its
/// handles can be shared between threads and more of them can be made.
pub trait Shared: Mode {

}

/// The errors with which reserving `expected` slots can fail.
pub open spec fn spec_move_head_error(is_prod: bool, exact: bool, expected: u32, error: Error) -> bool {
    if is_prod {
        error == Error::Closed || error == Error::Poisoned || error == Error::Full || (exact
            && expected > 1 && error == Error::NotEnoughSpace)
    } else {
        error == Error::Closed || error == Error::Poisoned || error == Error::Empty || (exact
            && expected > 1 && (error == Error::NotEnoughItems || error
            == Error::NotEnoughItemsAndClosed))
    }
}

/// What reserving up to `expected` slots can come to.
pub open spec fn spec_move_head_allows(
    n: int,
    is_prod: bool,
    exact: bool,
    expected: u32,
    claim: Result<Claim, Error>,
) -> bool {
    match claim {
        Ok(claim) => 1 <= claim.spec_entries() <= expected && claim.spec_entries() < n && (exact
            ==> claim.spec_entries() == expected),
        Err(error) => spec_move_head_error(is_prod, exact, expected, error),
    }
}

/// What a side does once it has read its head and the tail of the other side.
pub open spec fn spec_reserve(
    n: int,
    is_prod: bool,
    exact: bool,
    head: u32,
    tail: u32,
    expected: u32,
) -> Result<(u32, u32), Error> {
    match spec_calculate_available(n, is_prod, exact, head, tail, expected) {
        Ok(granted) => Ok((granted, wrap(n, head + granted) as u32)),
        Err(error) => Err(error),
    }
}

/// A reservation of `entries` consecutive slots that begins at `start`.
///
/// A claim made for a producer covers free slots, which may only be written.
/// One made for a consumer covers waiting values, each of which may be read
/// once. A claim is never empty.
#[must_use]
#[derive(Debug)]
pub struct Claim {
    entries: u32,
    start: u32,
}

impl Claim {
    #[verifier::type_invariant]
    spec fn nonempty(self) -> bool {
        self.entries >= 1
    }

    /// The number of slots that the claim covers.
    pub closed spec fn spec_entries(self) -> u32 {
        self.entries
    }

    /// The index of the first slot that the claim covers.
    pub closed spec fn spec_start(self) -> u32 {
        self.start
    }

    /// The claim for `entries` slots from `start` on.
    pub closed spec fn spec_many(entries: u32, start: u32) -> Claim {
        Claim { entries, start }
    }

    /// A claim holds what it was made of.
    pub proof fn lemma_many(entries: u32, start: u32)
        ensures
            Self::spec_many(entries, start).spec_entries() == entries,
            Self::spec_many(entries, start).spec_start() == start,
    {
    }

    /// The index of the first slot after the claim in a ring with `n` slots.
    pub open spec fn spec_new_tail(self, n: int) -> int {
        wrap(n, self.spec_start() + self.spec_entries())
    }

    /// A claim for `entries` slots from `start` on.
    pub fn many(entries: u32, start: u32) -> (claim: Self)
        requires
            entries >= 1,
        ensures
            claim.spec_entries() == entries,
            claim.spec_start() == start,
        opens_invariants none
        no_unwind
    {
        Self { entries, start }
    }

    /// The number of slots in the claim, which is at least one.
    pub fn entries(&self) -> (entries: u32)
        ensures
            entries == self.spec_entries(),
            entries >= 1,
        opens_invariants none
        no_unwind
    {
        proof {
            use_type_invariant(self);
        }
        self.entries
    }

    /// The index of the first slot in the claim.
    pub fn start(&self) -> (start: u32)
        ensures
            start == self.spec_start(),
            self.spec_entries() >= 1,
        opens_invariants none
        no_unwind
    {
        proof {
            use_type_invariant(self);
        }
        self.start
    }

    /// Gives the claim up and tells where the tail has to go.
    pub fn new_tail<const N: usize>(self) -> (tail: u32)
        requires
            valid_capacity(N as int),
        ensures
            tail as int == self.spec_new_tail(N as int),
            tail < N,
        opens_invariants none
        no_unwind
    {
        advance::<N>(self.start, self.entries)
    }
}

/// The number of values that wait between a consumer head and a producer tail.
pub open spec fn spec_initialized_entries(n: int, cons_head: u32, prod_tail: u32) -> int {
    wrap(n, spec_position(prod_tail) - cons_head)
}

/// The number of slots that a producer may still reserve, given its head and
/// the consumer tail. One slot always stays free, so that a full ring can be
/// told from an empty one.
pub open spec fn spec_uninitialized_entries(n: int, prod_head: u32, cons_tail: u32) -> int {
    wrap(n, n - 1 + spec_position(cons_tail) - prod_head)
}

/// What a side finds available opposite its head.
pub open spec fn spec_available(n: int, is_prod: bool, head: u32, tail: u32) -> int {
    if is_prod {
        spec_uninitialized_entries(n, head, tail)
    } else {
        spec_initialized_entries(n, head, tail)
    }
}

/// The number of slots granted to a request for `expected` slots, or the
/// reason why none is granted.
pub open spec fn spec_calculate_available(
    n: int,
    is_prod: bool,
    exact: bool,
    head: u32,
    tail: u32,
    expected: u32,
) -> Result<u32, Error> {
    let available = spec_available(n, is_prod, head, tail);
    if is_prod && spec_is_finished(tail) {
        Err(Error::Closed)
    } else if spec_is_finished(head) {
        Err(Error::Poisoned)
    } else if available == 0 {
        if spec_is_finished(tail) {
            Err(Error::Closed)
        } else if is_prod {
            Err(Error::Full)
        } else {
            Err(Error::Empty)
        }
    } else if exact && expected > available {
        if is_prod {
            Err(Error::NotEnoughSpace)
        } else if spec_is_finished(tail) {
            Err(Error::NotEnoughItemsAndClosed)
        } else {
            Err(Error::NotEnoughItems)
        }
    } else if expected <= available {
        Ok(expected)
    } else {
        Ok(available as u32)
    }
}

/// The number of values that wait between a consumer head and a producer tail.
pub fn initialized_entries<const N: usize>(cons_head: u32, prod_tail: u32) -> (entries: u32)
    requires
        valid_capacity(N as int),
    ensures
        entries as int == spec_initialized_entries(N as int, cons_head, prod_tail),
        entries < N,
    opens_invariants none
    no_unwind
{
    distance::<N>(cons_head, position_of(prod_tail))
}

/// The number of slots that a producer may still reserve.
pub fn uninitialized_entries<const N: usize>(prod_head: u32, cons_tail: u32) -> (entries: u32)
    requires
        valid_capacity(N as int),
    ensures
        entries as int == spec_uninitialized_entries(N as int, prod_head, cons_tail),
        entries < N,
    opens_invariants none
    no_unwind
{
    proof {
        lemma_capacity_bounds(N as int);
    }
    let limit: u32 = mask::<N>() + position_of(cons_tail);
    distance::<N>(prod_head, limit)
}

/// Decides how many slots a request gets.
///
/// A producer that reads a tail of the consumers with the finished mark gets
/// `Closed`, whatever else it reads: as the mark stays on a tail, a channel
/// that was closed for a producer once is closed for it ever after.
///
/// `head` is the head of the side that asks and `tail` the tail of the other
/// side, mark included. `IS_PROD` tells whether a producer asks, `EXACT`
/// whether it wants `expected` slots or none.
pub fn calculate_available<const N: usize, const IS_PROD: bool, const EXACT: bool>(
    head: u32,
    tail: u32,
    expected: u32,
) -> (granted: Result<u32, Error>)
    requires
        valid_capacity(N as int),
        expected >= 1,
    ensures
        granted == spec_calculate_available(N as int, IS_PROD, EXACT, head, tail, expected),
        granted matches Ok(n) ==> 1 <= n <= expected && n < N && (EXACT ==> n == expected),
        granted matches Err(error) ==> spec_move_head_error(IS_PROD, EXACT, expected, error),
        IS_PROD && spec_is_finished(tail) ==> granted == Err::<u32, Error>(Error::Closed),
    opens_invariants none
    no_unwind
{
    let closed = is_finished_word(tail);
    if IS_PROD && closed {
        return Err(Error::Closed);
    }
    if is_finished_word(head) {
        return Err(Error::Poisoned);
    }
    let available: u32 = if IS_PROD {
        uninitialized_entries::<N>(head, tail)
    } else {
        initialized_entries::<N>(head, tail)
    };
    if available == 0 {
        cold_path();
        if closed {
            Err(Error::Closed)
        } else if IS_PROD {
            Err(Error::Full)
        } else {
            Err(Error::Empty)
        }
    } else if EXACT && expected > available {
        cold_path();
        if IS_PROD {
            Err(Error::NotEnoughSpace)
        } else if closed {
            Err(Error::NotEnoughItemsAndClosed)
        } else {
            Err(Error::NotEnoughItems)
        }
    } else if expected <= available {
        Ok(expected)
    } else {
        Ok(available)
    }
}

/// Decides what a side does once it has read its own head and the tail of the
/// other side: the claim that it may take if it can move its head from `head`
/// to the new head given with the claim, or the reason why it takes none.
pub fn reserve<const N: usize, const IS_PROD: bool, const EXACT: bool>(
    head: u32,
    tail: u32,
    expected: u32,
) -> (plan: Result<(Claim, u32), Error>)
    requires
        valid_capacity(N as int),
        expected >= 1,
    ensures
        match spec_reserve(N as int, IS_PROD, EXACT, head, tail, expected) {
            Ok((granted, new_head)) => plan matches Ok((claim, next)) && claim.spec_entries()
                == granted && claim.spec_start() == head && next == new_head,
            Err(error) => plan matches Err(e) && e == error,
        },
        plan matches Ok((claim, next)) ==> next < N && spec_move_head_allows(
            N as int,
            IS_PROD,
            EXACT,
            expected,
            Ok(claim),
        ),
        plan matches Err(error) ==> spec_move_head_error(IS_PROD, EXACT, expected, error),
{
    match calculate_available::<N, IS_PROD, EXACT>(head, tail, expected) {
        Ok(granted) => Ok((Claim::many(granted, head), advance::<N>(head, granted))),
        Err(error) => Err(error),
    }
}

/// The error with which a side gives up after it has lost the race for its
/// head [`PATIENCE`] times: the one that asks the caller to try again.
pub fn busy<const IS_PROD: bool>() -> (error: Error)
    ensures
        error == if IS_PROD {
            Error::Full
        } else {
            Error::Empty
        },
{
    cold_path();
    if IS_PROD {
        Error::Full
    } else {
        Error::Empty
    }
}

/// The ordering of the standard library that `ordering` stands for.
pub fn load_order(ordering: LoadOrder) -> (order: Ordering)
    ensures
        load_ordering(order),
        order == match ordering {
            LoadOrder::Relaxed => Ordering::Relaxed,
            LoadOrder::Acquire => Ordering::Acquire,
            LoadOrder::SeqCst => Ordering::SeqCst,
        },
    opens_invariants none
    no_unwind
{
    match ordering {
        LoadOrder::Relaxed => Ordering::Relaxed,
        LoadOrder::Acquire => Ordering::Acquire,
        LoadOrder::SeqCst => Ordering::SeqCst,
    }
}

} // verus!
