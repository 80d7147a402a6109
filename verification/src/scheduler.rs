//! The scheduler: picks the next intermediate height when skipping
//! verification lacks trust. The default policy is the midpoint.

use vstd::prelude::*;
use crate::types::Height;

verus! {

/// The midpoint pivot, strictly between the trusted and the candidate height
/// whenever the gap is at least two.
pub fn midpoint(low: Height, high: Height) -> (r: Height)
    requires
        low < high,
        high - low >= 2,
    ensures
        low < r < high,
        r == low + (high - low) / 2,
{
    low + (high - low) / 2
}

} // verus!
