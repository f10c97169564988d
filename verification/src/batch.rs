//! When the importer writes the rows it has collected.

use vstd::prelude::*;

verus! {

/// The number of rows the importer writes at once.
pub const BATCH_ROWS: usize = 2000;

/// Whether the importer writes the rows it has collected: as soon as there
/// are `BATCH_ROWS` of them, and at the end of a file whatever is left.
pub fn should_flush(collected: usize, at_end: bool) -> (b: bool)
    ensures
        b == (collected >= BATCH_ROWS || (at_end && collected > 0)),
{
    collected >= BATCH_ROWS || (at_end && collected > 0)
}

} // verus!
