//! The one randomness primitive the simulation draws on.

use rand::Rng;
use vstd::prelude::*;

verus! {

/// Relies on rand's `thread_rng` and `Rng::gen_range` on the nonempty
/// inclusive range `lo..=hi`: the sample lies within the range (an empty
/// range would panic, so the range is required to be nonempty).
#[verifier::external_body]
pub(crate) fn rand_in_range(lo: i64, hi: i64) -> (r: i64)
    requires
        lo <= hi,
    ensures
        lo <= r <= hi,
{
    rand::thread_rng().gen_range(lo..=hi)
}

} // verus!
