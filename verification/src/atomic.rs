//! The atomic operations of the standard library that the ring is built on.
//!
//! What an atomic holds is shared with other threads, so nothing is known of a
//! value that is read from one. What is stated here is when an operation may
//! be called, that it returns rather than unwinds, and how its result relates
//! to its arguments. That they do not unwind is needed of all of them: they
//! run while handles are dropped.
use vstd::prelude::*;
use std::sync::atomic::AtomicU32;
use std::sync::atomic::AtomicU64;
use std::sync::atomic::Ordering;

verus! {

/// An ordering with which a value can be loaded.
pub open spec fn load_ordering(order: Ordering) -> bool {
    order != Ordering::Release && order != Ordering::AcqRel
}

/// An ordering with which a value can be stored.
pub open spec fn store_ordering(order: Ordering) -> bool {
    order != Ordering::Acquire && order != Ordering::AcqRel
}

/// `AtomicU32::load`: it returns for every ordering but `Release` and `AcqRel`,
/// for which it panics.
#[verifier::external_body]
pub(crate) fn load_u32(atomic: &AtomicU32, order: Ordering) -> (value: u32)
    requires
        load_ordering(order),
    opens_invariants none
    no_unwind
{
    atomic.load(order)
}

/// `AtomicU32::store`: it returns for every ordering but `Acquire` and
/// `AcqRel`, for which it panics.
#[verifier::external_body]
pub(crate) fn store_u32(atomic: &AtomicU32, value: u32, order: Ordering)
    requires
        store_ordering(order),
    opens_invariants none
    no_unwind
{
    atomic.store(value, order);
}

/// `AtomicU32::compare_exchange_weak`: it panics if the ordering for a failure
/// is `Release` or `AcqRel`. Where it reports that `new` was written, the value
/// it found was `current`.
#[verifier::external_body]
pub(crate) fn compare_exchange_weak_u32(
    atomic: &AtomicU32,
    current: u32,
    new: u32,
    success: Ordering,
    failure: Ordering,
) -> (found: Result<u32, u32>)
    requires
        load_ordering(failure),
    ensures
        found matches Ok(previous) ==> previous == current,
    opens_invariants none
    no_unwind
{
    atomic.compare_exchange_weak(current, new, success, failure)
}

/// `AtomicU32::fetch_or`: it returns the value that was there before, for every
/// ordering.
#[verifier::external_body]
pub(crate) fn fetch_or_u32(atomic: &AtomicU32, bits: u32, order: Ordering) -> (previous: u32)
    opens_invariants none
    no_unwind
{
    atomic.fetch_or(bits, order)
}

/// `AtomicU32::fetch_update`: it panics if the ordering for fetching is
/// `Release` or `AcqRel`. It applies `f` to the value it finds until `f`
/// declines or the outcome of `f` could be stored over the value it was
/// computed from. `Ok` holds a value for which `f` gave a new one, which was
/// stored; `Err` holds a value for which `f` gave none.
#[verifier::external_body]
pub(crate) fn fetch_update_u32<F: Fn(u32) -> Option<u32>>(
    atomic: &AtomicU32,
    set_order: Ordering,
    fetch_order: Ordering,
    f: F,
) -> (found: Result<u32, u32>)
    requires
        load_ordering(fetch_order),
        forall|value: u32| #[trigger] f.requires((value,)),
    ensures
        found matches Ok(previous) ==> exists|next: u32| f.ensures((previous,), Some(next)),
        found matches Err(previous) ==> f.ensures((previous,), None),
    opens_invariants none
    no_unwind
{
    atomic.fetch_update(set_order, fetch_order, f)
}

/// `AtomicU64::load`: it returns for every ordering but `Release` and `AcqRel`,
/// for which it panics.
#[verifier::external_body]
pub(crate) fn load_u64(atomic: &AtomicU64, order: Ordering) -> (value: u64)
    requires
        load_ordering(order),
    opens_invariants none
    no_unwind
{
    atomic.load(order)
}

/// `AtomicU64::store`: it returns for every ordering but `Acquire` and
/// `AcqRel`, for which it panics.
#[verifier::external_body]
pub(crate) fn store_u64(atomic: &AtomicU64, value: u64, order: Ordering)
    requires
        store_ordering(order),
    opens_invariants none
    no_unwind
{
    atomic.store(value, order);
}

/// `AtomicU64::compare_exchange_weak`: it panics if the ordering for a failure
/// is `Release` or `AcqRel`. Where it reports that `new` was written, the value
/// it found was `current`.
#[verifier::external_body]
pub(crate) fn compare_exchange_weak_u64(
    atomic: &AtomicU64,
    current: u64,
    new: u64,
    success: Ordering,
    failure: Ordering,
) -> (found: Result<u64, u64>)
    requires
        load_ordering(failure),
    ensures
        found matches Ok(previous) ==> previous == current,
    opens_invariants none
    no_unwind
{
    atomic.compare_exchange_weak(current, new, success, failure)
}

/// `AtomicU64::fetch_or`: it returns the value that was there before, for every
/// ordering.
#[verifier::external_body]
pub(crate) fn fetch_or_u64(atomic: &AtomicU64, bits: u64, order: Ordering) -> (previous: u64)
    opens_invariants none
    no_unwind
{
    atomic.fetch_or(bits, order)
}

/// `std::sync::atomic::fence`: it returns for every ordering but `Relaxed`, for
/// which it panics.
#[verifier::external_body]
pub(crate) fn fence(order: Ordering)
    requires
        order != Ordering::Relaxed,
    opens_invariants none
    no_unwind
{
    std::sync::atomic::fence(order);
}

/// `std::hint::spin_loop`: it tells the processor that the thread waits in a
/// loop, and returns.
#[verifier::external_body]
pub(crate) fn spin_loop()
    opens_invariants none
    no_unwind
{
    std::hint::spin_loop();
}

} // verus!
