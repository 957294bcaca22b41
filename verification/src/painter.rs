use vstd::prelude::*;
use crate::color::Color;
use crate::feature::MlaaFeature;
use crate::frac::{
    Frac, FRAC_NUM_BOUND, lemma_ceil_le, lemma_ceil_ge, lemma_floor_ge, lemma_floor_le,
};

verus! {

/// One pixel write the painter asks for: paint `blend(colors.0, colors.1, t)`
/// at `(x, y)`, with the blend parameter `t` carried as an exact fraction.
/// Blending itself stays with the caller, who chooses the color space.
#[derive(Clone, Copy, PartialEq, Eq, Debug)]
pub struct PixelWrite {
    pub x: isize,
    pub y: isize,
    pub colors: (Color, Color),
    pub t: Frac,
}

/// Ceiling of the exact sum of two fractions.
pub open spec fn sum_ceil(a: Frac, b: Frac) -> int {
    -((-(a.num * b.den + b.num * a.den)) / (a.den * b.den))
}

/// The writes one gradient asks for: every integer position `r` from
/// `floor(center)` up to `ceil(center + extent) - 1`, with blend parameter
/// `t = (0.5 + r - floor(center)) / (ceil(center + extent) - floor(center))`.
pub open spec fn gradient_writes(
    vertical: bool, lane: isize, center: Frac, extent: Frac, colors: (Color, Color),
) -> Seq<PixelWrite> {
    let lo = center.spec_floor();
    let hi = sum_ceil(center, extent);
    let count = if hi > lo { hi - lo } else { 0 };
    Seq::new(count as nat, |i: int| PixelWrite {
        x: if vertical { lane } else { (lo + i) as isize },
        y: if vertical { (lo + i) as isize } else { lane },
        colors,
        t: Frac { num: (2 * i + 1) as i64, den: (2 * (hi - lo)) as i64 },
    })
}

/// Every write one feature asks for, in order: a vertical gradient covers
/// the rows of its span top to bottom, a horizontal one the columns left
/// to right, and a corner is a single half-blend at its pixel.
pub open spec fn painter_spec(f: MlaaFeature) -> Seq<PixelWrite> {
    match f {
        MlaaFeature::VerticalGradient { x, y, height, colors } => {
            gradient_writes(true, x, y, height, colors)
        },
        MlaaFeature::HorizontalGradient { x, y, width, colors } => {
            gradient_writes(false, y, x, width, colors)
        },
        MlaaFeature::Corner { x, y, colors } => {
            seq![PixelWrite { x, y, colors, t: Frac { num: 1, den: 2 } }]
        },
    }
}

/// The span a bounded gradient covers stays small: its first position is
/// within the numerator bound and its past-the-end position within twice
/// the bound, so every coordinate fits the machine integers.
proof fn lemma_span_bounds(center: Frac, extent: Frac)
    requires
        center.bounded(),
        extent.bounded(),
    ensures
        -FRAC_NUM_BOUND <= center.spec_floor() <= FRAC_NUM_BOUND,
        -2 * FRAC_NUM_BOUND - 1 <= sum_ceil(center, extent) <= 2 * FRAC_NUM_BOUND + 1,
{
    let b: int = FRAC_NUM_BOUND as int;
    assert(-b * center.den <= center.num && center.num <= b * center.den) by (nonlinear_arith)
        requires -b <= center.num, center.num <= b, center.den >= 1, b > 0;
    lemma_floor_ge(center, -b);
    lemma_floor_le(center, b);
    let n: int = center.num * extent.den + extent.num * center.den;
    let d: int = center.den * extent.den;
    assert(0 < d && d <= 0x1000_0000
        && -0x1_0000_0000_0000 <= n && n <= 0x1_0000_0000_0000
        && -(2 * b) * d <= n && n <= (2 * b) * d) by (nonlinear_arith)
        requires
            n == center.num * extent.den + extent.num * center.den,
            d == center.den * extent.den,
            -b <= center.num, center.num <= b,
            -b <= extent.num, extent.num <= b,
            1 <= center.den, center.den <= 0x4000,
            1 <= extent.den, extent.den <= 0x4000,
            b == 0x1000_0000;
    let sum = Frac { num: n as i64, den: d as i64 };
    assert(sum.num == n && sum.den == d);
    lemma_ceil_le(sum, 2 * b);
    lemma_ceil_ge(sum, -(2 * b));
    assert(sum.spec_ceil() == sum_ceil(center, extent));
}

/// Paints one gradient span.
fn paint_gradient(
    vertical: bool, lane: isize, center: Frac, extent: Frac, colors: (Color, Color),
) -> (writes: Vec<PixelWrite>)
    requires
        center.bounded(),
        extent.bounded(),
    ensures
        writes@ == gradient_writes(vertical, lane, center, extent, colors),
{
    proof {
        lemma_span_bounds(center, extent);
    }
    let lo: i64 = center.floor();
    let sum: Frac = center.plus(extent);
    let hi: i64 = sum.ceil();
    proof {
        assert(hi == sum_ceil(center, extent));
    }
    let count: i64 = if hi > lo { hi - lo } else { 0 };
    let ghost target = gradient_writes(vertical, lane, center, extent, colors);
    let mut writes: Vec<PixelWrite> = Vec::new();
    let mut i: i64 = 0;
    while i < count
        invariant
            0 <= i <= count,
            count == target.len(),
            lo == center.spec_floor(),
            hi == sum_ceil(center, extent),
            count == (if hi > lo { hi - lo } else { 0 }),
            -FRAC_NUM_BOUND <= lo <= FRAC_NUM_BOUND,
            hi <= 2 * FRAC_NUM_BOUND + 1,
            target == gradient_writes(vertical, lane, center, extent, colors),
            writes@.len() == i,
            forall|k: int| 0 <= k < i ==> #[trigger] writes@[k] == target[k],
        decreases count - i,
    {
        let r: i64 = lo + i;
        let w = PixelWrite {
            x: if vertical { lane } else { r as isize },
            y: if vertical { r as isize } else { lane },
            colors,
            t: Frac { num: 2 * i + 1, den: 2 * count },
        };
        writes.push(w);
        i = i + 1;
    }
    proof {
        assert(writes@ =~= target);
    }
    writes
}

/// Converts one feature into the exact pixel writes that render it. The
/// caller applies its own blend to each write and stores the result.
pub fn mlaa_painter(feature: &MlaaFeature) -> (writes: Vec<PixelWrite>)
    requires
        feature.wf(),
    ensures
        writes@ == painter_spec(*feature),
{
    match feature {
        MlaaFeature::VerticalGradient { x, y, height, colors } => {
            paint_gradient(true, *x, *y, *height, *colors)
        },
        MlaaFeature::HorizontalGradient { x, y, width, colors } => {
            paint_gradient(false, *y, *x, *width, *colors)
        },
        MlaaFeature::Corner { x, y, colors } => {
            let mut writes: Vec<PixelWrite> = Vec::new();
            writes.push(PixelWrite {
                x: *x, y: *y, colors: *colors, t: Frac { num: 1, den: 2 },
            });
            proof {
                assert(writes@ =~= painter_spec(*feature));
            }
            writes
        },
    }
}

/// The coordinate of a write along the axis a gradient is painted on:
/// the row of a vertical gradient's write, the column of a horizontal
/// gradient's.
pub open spec fn write_pos(f: MlaaFeature, w: PixelWrite) -> int {
    if f matches MlaaFeature::VerticalGradient { .. } {
        w.y as int
    } else {
        w.x as int
    }
}

/// The fixed cross coordinate of a write.
pub open spec fn write_lane(f: MlaaFeature, w: PixelWrite) -> int {
    if f matches MlaaFeature::VerticalGradient { .. } {
        w.x as int
    } else {
        w.y as int
    }
}

/// Painter coverage: a gradient of center `c` and extent `h` is painted
/// with exactly `ceil(c + h) - floor(c)` writes (none when that count is
/// not positive), at consecutive positions along its axis starting at
/// `floor(c)`, all in its own lane — no gaps and no duplicate
/// coordinates.
pub proof fn lemma_painter_coverage(f: MlaaFeature)
    requires
        f.wf(),
        !(f matches MlaaFeature::Corner { .. }),
    ensures
        ({
            let ws = painter_spec(f);
            let lo = f.gradient_center().spec_floor();
            let hi = sum_ceil(f.gradient_center(), f.gradient_extent());
            &&& ws.len() == (if hi > lo { hi - lo } else { 0 })
            &&& forall|i: int| 0 <= i < ws.len()
                ==> write_pos(f, #[trigger] ws[i]) == lo + i
                    && write_lane(f, ws[i]) == f.gradient_lane()
            &&& forall|i: int, j: int| 0 <= i < j < ws.len()
                ==> (#[trigger] ws[i]).x != (#[trigger] ws[j]).x || ws[i].y != ws[j].y
        }),
{
    let center = f.gradient_center();
    let extent = f.gradient_extent();
    lemma_span_bounds(center, extent);
    let ws = painter_spec(f);
    let lo = center.spec_floor();
    let hi = sum_ceil(center, extent);
    assert forall|i: int| 0 <= i < ws.len() implies
        write_pos(f, #[trigger] ws[i]) == lo + i
            && write_lane(f, ws[i]) == f.gradient_lane() by {
        assert(-0x3000_0000 <= lo + i <= 0x3000_0000);
    }
    assert forall|i: int, j: int| 0 <= i < j < ws.len() implies
        (#[trigger] ws[i]).x != (#[trigger] ws[j]).x || ws[i].y != ws[j].y by {
        assert(write_pos(f, ws[i]) == lo + i);
        assert(write_pos(f, ws[j]) == lo + j);
    }
}

} // verus!
