//! The one random integer draw the simulation needs: spawn placement and the
//! no-target weapon fallback both take uniformly drawn coordinates.

use vstd::prelude::*;

verus! {

/// Relies on rand::random_range: a uniformly drawn integer in the half-open
/// range below `bound`. The draw depends on a process-wide generator, so
/// nothing beyond the range can be said of it.
#[verifier::external_body]
pub fn random_below(bound: i64) -> (r: i64)
    requires
        1 <= bound,
    ensures
        0 <= r < bound,
{
    rand::random_range(0..bound)
}

} // verus!
