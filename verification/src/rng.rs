//! The one call out to the random number generator.

use vstd::prelude::*;
use rand::Rng;
use crate::grid::Coord;

verus! {

/// Relies on rand::Rng::gen_range over the half-open range `lo..hi`:
/// it returns a value of that range, and panics only when the range is
/// empty, which the precondition rules out.
#[verifier::external_body]
pub(crate) fn random_in_range(lo: i32, hi: i32) -> (r: i32)
    requires
        lo < hi,
    ensures
        lo <= r < hi,
{
    rand::thread_rng().gen_range(lo..hi)
}

/// Draws one cell uniformly from the given half-open coordinate ranges.
pub(crate) fn random_cell(left: i32, right: i32, bottom: i32, top: i32) -> (c: Coord)
    requires
        left < right,
        bottom < top,
    ensures
        left <= c.x < right,
        bottom <= c.y < top,
{
    let x = random_in_range(left, right);
    let y = random_in_range(bottom, top);
    Coord { x, y }
}

} // verus!
