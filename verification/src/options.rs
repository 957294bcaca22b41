use vstd::prelude::*;
use crate::frac::Frac;

verus! {

/// Largest magnitude accepted for the seam split position's numerator and
/// denominator; keeps every gradient coordinate within `Frac`'s bounds.
pub const MAX_SPLIT: i64 = 8192;

/// Per-call options for the transform.
///
/// The three family flags gate the vertical gradients, horizontal
/// gradients, and corners independently. `strict_mode` selects the
/// neighbor-matching policy, `seam_split_position` biases each gradient's
/// midpoint, and `seam_brigtness_balance` rejects neighbor matches whose
/// light/dark ordering disagrees with the seam's own.
#[derive(Clone, Copy, Debug)]
pub struct MlaaOptions {
    pub vertical_gradients: bool,
    pub horizontal_gradients: bool,
    pub corners: bool,
    pub strict_mode: bool,
    pub seam_split_position: Frac,
    pub seam_brigtness_balance: bool,
}

impl MlaaOptions {
    /// The split position is a fraction with components small enough that
    /// the scanner's coordinate arithmetic stays exact in `i64`.
    pub open spec fn wf(self) -> bool {
        &&& 0 < self.seam_split_position.den <= MAX_SPLIT
        &&& -MAX_SPLIT <= self.seam_split_position.num <= MAX_SPLIT
    }
}

impl Default for MlaaOptions {
    /// Every feature family on, strict matching, split position zero,
    /// brightness balance off.
    fn default() -> (r: MlaaOptions)
        ensures
            r.vertical_gradients,
            r.horizontal_gradients,
            r.corners,
            r.strict_mode,
            r.seam_split_position == (Frac { num: 0, den: 1 }),
            !r.seam_brigtness_balance,
            r.wf(),
    {
        MlaaOptions {
            vertical_gradients: true,
            horizontal_gradients: true,
            corners: true,
            strict_mode: true,
            seam_split_position: Frac { num: 0, den: 1 },
            seam_brigtness_balance: false,
        }
    }
}

} // verus!
