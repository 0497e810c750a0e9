//! Colours for the instances of a volume, drawn at random from a palette.

use vstd::prelude::*;

verus! {

/// A number below `bound`, drawn by `fastrand::usize` from the range that
/// starts at zero and ends before `bound`, with the generator of the calling
/// thread. Every call may answer differently; all that is claimed is that the
/// number lies in the range. The range must not be empty: on an empty range
/// `fastrand::usize` panics.
#[verifier::external_body]
fn random_below(bound: usize) -> (pick: usize)
    requires
        bound > 0,
    ensures
        pick < bound,
{
    fastrand::usize(0..bound)
}

/// One place in a palette of `palette_len` colours for each of `count`
/// instances, each drawn at random.
///
/// Where there are instances to colour, the palette must hold a colour.
pub fn pick_colors(count: usize, palette_len: usize) -> (picks: Vec<usize>)
    requires
        count > 0 ==> palette_len > 0,
    ensures
        picks@.len() == count,
        forall|i: int| 0 <= i < count ==> picks@[i] < palette_len,
{
    let mut picks: Vec<usize> = Vec::new();
    for n in 0..count
        invariant
            count > 0 ==> palette_len > 0,
            picks@.len() == n,
            forall|i: int| 0 <= i < n ==> picks@[i] < palette_len,
    {
        picks.push(random_below(palette_len));
    }
    picks
}

} // verus!
