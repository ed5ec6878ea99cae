//! A channel whose two sides are synchronised as the caller chooses.
use vstd::prelude::*;
use crate::index::valid_capacity;
use crate::modes::Mode;
use crate::ring::Ring;

pub mod modes;

pub use crate::consumer::Receiver;
pub use crate::producer::Sender;
pub use crate::ring::recv_values::RecvValues;

verus! {

/// A channel with `N` slots, which holds up to `N - 1` values of `T`, whose
/// senders are synchronised by `P` and whose receivers by `C`. `N` is a power
/// of two from `2` to `2^31`.
#[must_use]
pub fn bounded<const N: usize, T, P: Mode, C: Mode>() -> (handles: (
    Sender<N, T, P, C>,
    Receiver<N, T, P, C>,
))
    requires
        valid_capacity(N as int),
    ensures
        handles.0.spec_ring() == handles.1.spec_ring(),
        handles.0.spec_ring().spec_slots() == N,
        P::default.ensures((), handles.0.spec_ring().spec_producers()),
        C::default.ensures((), handles.0.spec_ring().spec_consumers()),
{
    Ring::new()
}

} // verus!
