//! A single-producer single-consumer channel.
use vstd::prelude::*;
use crate::index::valid_capacity;
use crate::modes::Single;
use crate::ring::Ring;

verus! {

/// The receiving half of a bounded single-producer single-consumer channel.
pub type Receiver<const N: usize, T> = crate::consumer::Receiver<N, T, Single, Single>;

/// The sending half of a bounded single-producer single-consumer channel.
pub type Sender<const N: usize, T> = crate::producer::Sender<N, T, Single, Single>;

/// The values that a [`Receiver`] has reserved.
pub type RecvValues<const N: usize, T> = crate::ring::recv_values::RecvValues<N, T, Single, Single>;

/// A single-producer single-consumer channel with `N` slots, which holds up to
/// `N - 1` values of `T`. `N` is a power of two from `2` to `2^31`.
#[must_use]
pub fn bounded<const N: usize, T>() -> (handles: (Sender<N, T>, Receiver<N, T>))
    requires
        valid_capacity(N as int),
    ensures
        handles.0.spec_ring() == handles.1.spec_ring(),
        handles.0.spec_ring().spec_slots() == N,
{
    Ring::new()
}

} // verus!
