//! The single source of randomness: every seeded position, velocity, size,
//! jitter angle and lifetime is drawn through the one wrapper below, so all
//! remaining simulation logic is deterministic in its inputs.

use vstd::prelude::*;

verus! {

/// Relies on rand::Rng::gen_range on rand::thread_rng with a half-open
/// integer range: the sample lies in `[lo, hi)`; the range must be
/// non-empty, since gen_range panics on an empty one.
#[verifier::external_body]
pub(crate) fn rand_range(lo: i64, hi: i64) -> (r: i64)
    requires
        lo < hi,
    ensures
        lo <= r < hi,
{
    rand::Rng::gen_range(&mut rand::thread_rng(), lo..hi)
}

} // verus!
