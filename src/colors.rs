use vstd::prelude::*;

verus! {

/// The number of colours that fragments cycle through.
pub const COLOR_COUNT: usize = 12;

/// The colour cycle of fragments, by the position of the producing condition.
pub struct MatchColors;

impl MatchColors {
    /// The slot in the colour cycle of a fragment produced by the `index`-th
    /// condition: the first condition takes the first colour, and the cycle wraps.
    pub fn slot(index: usize) -> (r: usize)
        ensures
            r < COLOR_COUNT,
            r == (if index == 0 { 0 } else { ((index - 1) % 12) as usize }),
    {
        let i = if index == 0 { 0 } else { index - 1 };
        i % COLOR_COUNT
    }
}

} // verus!
