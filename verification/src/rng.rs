//! The one boundary to the pseudo-random number source: a uniform draw
//! from a half-open integer range.

use vstd::prelude::*;
use rand::Rng;

verus! {

/// Relies on rand's `Rng::gen_range` on the thread-local generator: it
/// returns a uniformly distributed value in `[lo, hi)` and panics when
/// `lo >= hi`, which the precondition rules out. Nothing more is assumed of
/// which value comes back.
#[verifier::external_body]
pub(crate) fn gen_range_u32(lo: u32, hi: u32) -> (r: u32)
    requires
        lo < hi,
    ensures
        lo <= r < hi,
{
    rand::thread_rng().gen_range(lo, hi)
}

} // verus!
