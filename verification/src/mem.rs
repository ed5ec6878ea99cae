//! The storage of one slot of the ring.
use vstd::prelude::*;
use std::sync::Mutex;
use std::sync::MutexGuard;

verus! {

/// `std::sync::Mutex`, of which nothing is seen here but that it holds a `T`.
#[verifier::external_type_specification]
#[verifier::external_body]
#[verifier::reject_recursive_types(T)]
pub struct ExMutex<T: ?Sized>(Mutex<T>);

/// `Mutex::new`: a mutex that holds `value`. Nothing is stated of it, as
/// what a mutex holds is shared between threads.
pub assume_specification<T>[ Mutex::<T>::new ](value: T) -> (mutex: Mutex<T>);

/// `std::sync::MutexGuard`, of which nothing is seen here but that it guards
/// a `T`. While one lives, the mutex it came from is locked; the lock is
/// given back when it is dropped.
#[verifier::external_type_specification]
#[verifier::external_body]
#[verifier::reject_recursive_types(T)]
pub struct ExMutexGuard<'a, T: ?Sized + 'a>(MutexGuard<'a, T>);

/// `Mutex::lock`: waits for the lock and returns the guard. It reports it if
/// a thread panicked while it held the lock; the guard is then taken out of
/// the report, with what the mutex holds as it is. It may panic if the thread
/// that calls it holds the lock already: no function of this library returns
/// or calls another while it holds a guard.
#[verifier::external_body]
fn lock<T>(cell: &Mutex<Option<T>>) -> (guard: MutexGuard<'_, Option<T>>)
    opens_invariants none
    no_unwind
{
    cell.lock().unwrap_or_else(|poisoned| poisoned.into_inner())
}

/// `std::mem::replace` on what a guard guards: puts `value` in its place and
/// returns what was there.
#[verifier::external_body]
fn replace<T>(guard: &mut MutexGuard<'_, Option<T>>, value: Option<T>) -> (previous: Option<T>)
    opens_invariants none
    no_unwind
{
    std::mem::replace(&mut **guard, value)
}

/// Puts `value` in place of what the mutex holds, under its lock, and returns
/// what it held.
fn exchange<T>(cell: &Mutex<Option<T>>, value: Option<T>) -> (previous: Option<T>)
    opens_invariants none
    no_unwind
{
    let mut guard = lock(cell);
    replace(&mut guard, value)
}

/// `Index::index` of `Vec`: the element at `index`, which lies within the
/// vector. It panics for an index that does not. Beside what Verus knows of
/// it this says that it opens no invariant, which is asked of all that runs
/// while a handle is dropped.
#[verifier::external_body]
pub(crate) fn element<T>(elements: &Vec<T>, index: usize) -> (element: &T)
    requires
        index < elements@.len(),
    ensures
        *element == elements@[index as int],
    opens_invariants none
    no_unwind
{
    &elements[index]
}

/// A slot that holds a value or none.
///
/// Whether a slot of the ring holds a value follows from where the heads and
/// tails stand. The slot keeps track of it all the same, so that a value is
/// never read twice and never overwritten unseen.
#[verifier::reject_recursive_types(T)]
pub struct MaybeUninit<T> {
    cell: Mutex<Option<T>>,
}

impl<T> MaybeUninit<T> {
    /// A slot without a value.
    pub fn uninit() -> (slot: Self) {
        Self { cell: Mutex::new(None) }
    }

    /// Puts `value` into the slot. A value that the slot held is dropped.
    pub fn write(&self, value: T)
        opens_invariants none
        no_unwind
    {
        let _previous = exchange(&self.cell, Some(value));
    }

    /// Takes the value out of the slot and leaves the slot without one.
    pub fn assume_init_take(&self) -> (value: Option<T>)
        opens_invariants none
        no_unwind
    {
        exchange(&self.cell, None)
    }

    /// Drops the value that the slot holds, if any.
    pub fn assume_init_drop(&self)
        opens_invariants none
        no_unwind
    {
        let _previous = exchange(&self.cell, None);
    }
}

} // verus!
