//! Hints to the compiler and to the processor.
use vstd::prelude::*;

verus! {

/// Marks the path on which it is called as unlikely. It does nothing else.
#[inline]
pub fn cold_path()
    opens_invariants none
    no_unwind
{
}

} // verus!
