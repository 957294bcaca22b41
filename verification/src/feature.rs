use vstd::prelude::*;
use crate::color::Color;
use crate::frac::Frac;

verus! {

/// One antialiasing feature found by the scan.
///
/// A vertical gradient sits in column `x` and blends `colors.0` into
/// `colors.1` from row `y` over `height` rows; a horizontal gradient is the
/// axis-swapped mirror. A corner is a single-pixel blend of its two colors.
/// Fractional coordinates are exact (`Frac`), never rounded.
#[derive(Clone, Copy, PartialEq, Eq, Debug)]
pub enum MlaaFeature {
    VerticalGradient { x: isize, y: Frac, height: Frac, colors: (Color, Color) },
    HorizontalGradient { x: Frac, y: isize, width: Frac, colors: (Color, Color) },
    Corner { x: isize, y: isize, colors: (Color, Color) },
}

impl MlaaFeature {
    /// A feature the painter can render exactly: every fractional
    /// coordinate within `Frac`'s tight bounds. The scan only emits such
    /// features.
    pub open spec fn wf(self) -> bool {
        match self {
            MlaaFeature::VerticalGradient { y, height, .. } => y.bounded() && height.bounded(),
            MlaaFeature::HorizontalGradient { x, width, .. } => x.bounded() && width.bounded(),
            MlaaFeature::Corner { .. } => true,
        }
    }

    /// The two colors a feature blends, first into second.
    pub open spec fn blend_colors(self) -> (Color, Color) {
        match self {
            MlaaFeature::VerticalGradient { colors, .. } => colors,
            MlaaFeature::HorizontalGradient { colors, .. } => colors,
            MlaaFeature::Corner { colors, .. } => colors,
        }
    }

    /// A gradient's fractional center coordinate: its `y` when vertical,
    /// its `x` when horizontal.
    pub open spec fn gradient_center(self) -> Frac
        recommends !(self matches MlaaFeature::Corner { .. }),
    {
        match self {
            MlaaFeature::VerticalGradient { y, .. } => y,
            MlaaFeature::HorizontalGradient { x, .. } => x,
            MlaaFeature::Corner { .. } => arbitrary(),
        }
    }

    /// A gradient's fractional extent: its `height` when vertical, its
    /// `width` when horizontal.
    pub open spec fn gradient_extent(self) -> Frac
        recommends !(self matches MlaaFeature::Corner { .. }),
    {
        match self {
            MlaaFeature::VerticalGradient { height, .. } => height,
            MlaaFeature::HorizontalGradient { width, .. } => width,
            MlaaFeature::Corner { .. } => arbitrary(),
        }
    }

    /// A gradient's fixed integer coordinate: the column of a vertical
    /// gradient, the row of a horizontal one.
    pub open spec fn gradient_lane(self) -> int
        recommends !(self matches MlaaFeature::Corner { .. }),
    {
        match self {
            MlaaFeature::VerticalGradient { x, .. } => x as int,
            MlaaFeature::HorizontalGradient { y, .. } => y as int,
            MlaaFeature::Corner { .. } => arbitrary(),
        }
    }

    /// Runtime check for `wf`, for callers that build features by hand.
    pub fn is_wf(&self) -> (r: bool)
        ensures
            r == self.wf(),
    {
        match self {
            MlaaFeature::VerticalGradient { y, height, .. } => {
                frac_in_bounds(y) && frac_in_bounds(height)
            },
            MlaaFeature::HorizontalGradient { x, width, .. } => {
                frac_in_bounds(x) && frac_in_bounds(width)
            },
            MlaaFeature::Corner { .. } => true,
        }
    }
}

fn frac_in_bounds(f: &Frac) -> (r: bool)
    ensures
        r == f.bounded(),
{
    0 < f.den && f.den <= crate::frac::FRAC_DEN_BOUND
        && -crate::frac::FRAC_NUM_BOUND <= f.num && f.num <= crate::frac::FRAC_NUM_BOUND
}

/// A gradient alone: what `mlaa` emits when only the two gradient families
/// run. Field meaning matches the corresponding `MlaaFeature` variant.
#[derive(Clone, Copy, PartialEq, Eq, Debug)]
pub enum Gradient {
    Vertical { x: isize, y: Frac, height: Frac, colors: (Color, Color) },
    Horizontal { x: Frac, y: isize, width: Frac, colors: (Color, Color) },
}

} // verus!
