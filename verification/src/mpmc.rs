//! A multi-producer multi-consumer channel.
use vstd::prelude::*;
use crate::index::valid_capacity;
use crate::modes::Multi;
use crate::ring::Ring;

verus! {

/// The receiving half of a bounded multi-producer multi-consumer channel.
pub type Receiver<const N: usize, T> = crate::consumer::Receiver<N, T, Multi, Multi>;

/// The sending half of a bounded multi-producer multi-consumer channel.
pub type Sender<const N: usize, T> = crate::producer::Sender<N, T, Multi, Multi>;

/// The values that a [`Receiver`] has reserved.
pub type RecvValues<const N: usize, T> = crate::ring::recv_values::RecvValues<N, T, Multi, Multi>;

/// A multi-producer multi-consumer channel with `N` slots, which holds up to
/// `N - 1` values of `T`. `N` is a power of two from `2` to `2^31`.
#[must_use]
pub fn bounded<const N: usize, T>() -> (handles: (Sender<N, T>, Receiver<N, T>))
    requires
        valid_capacity(N as int),
    ensures
        handles.0.spec_ring() == handles.1.spec_ring(),
        handles.0.spec_ring().spec_slots() == N,
{
    Ring::new()
}

} // verus!
