use vstd::prelude::*;
use crate::canvas::{Canvas, GridView, MAX_DIM};
use crate::color::Color;

verus! {

/// The two scan directions. A vertical scan walks down the boundary
/// between columns `l` and `l+1`; a horizontal scan walks along the
/// boundary between rows `l` and `l+1`.
#[derive(Clone, Copy, PartialEq, Eq, Structural, Debug)]
pub enum Axis {
    Vertical,
    Horizontal,
}

impl Axis {
    /// Number of scan positions along this axis.
    pub open spec fn primary_bound(self, v: GridView) -> int {
        match self {
            Axis::Vertical => v.height,
            Axis::Horizontal => v.width,
        }
    }

    /// Bound for the cross coordinate (the lane index).
    pub open spec fn cross_bound(self, v: GridView) -> int {
        match self {
            Axis::Vertical => v.width,
            Axis::Horizontal => v.height,
        }
    }
}

/// The pixel pair a scan examines in lane `l` at position `p`: vertical
/// scans pair columns `l` and `l+1` at row `p`, horizontal scans pair rows
/// `l` and `l+1` at column `p`.
pub open spec fn pair_at(v: GridView, axis: Axis, l: int, p: int) -> (Color, Color) {
    match axis {
        Axis::Vertical => (v.pixel(l, p), v.pixel(l + 1, p)),
        Axis::Horizontal => (v.pixel(p, l), v.pixel(p, l + 1)),
    }
}

/// Predicate over a pixel pair, as the run scanner uses it.
#[derive(Clone, Copy, PartialEq, Eq, Structural, Debug)]
pub enum PairPred {
    /// The two pixels of the pair are equal: no seam here.
    Equal,
    /// The pair is exactly these two colors.
    Exact(Color, Color),
    /// The pair is exactly these two colors, which moreover differ.
    ExactDistinct(Color, Color),
}

pub open spec fn pred_holds(pred: PairPred, pair: (Color, Color)) -> bool {
    match pred {
        PairPred::Equal => pair.0 == pair.1,
        PairPred::Exact(a, b) => pair.0 == a && pair.1 == b,
        PairPred::ExactDistinct(a, b) => pair.0 == a && pair.1 == b && a != b,
    }
}

/// Length of the maximal run from position `p` in lane `l` on which `pred`
/// holds of the pixel pair; the run stops at the axis bound.
pub open spec fn run_len(v: GridView, axis: Axis, l: int, p: int, pred: PairPred) -> nat
    decreases axis.primary_bound(v) - p,
{
    if p >= axis.primary_bound(v) || !pred_holds(pred, pair_at(v, axis, l, p)) {
        0
    } else {
        1 + run_len(v, axis, l, p + 1, pred)
    }
}

/// A run starting at or before the axis bound never passes it.
pub proof fn lemma_run_len_within(v: GridView, axis: Axis, l: int, p: int, pred: PairPred)
    requires
        p <= axis.primary_bound(v),
    ensures
        p + run_len(v, axis, l, p, pred) <= axis.primary_bound(v),
    decreases axis.primary_bound(v) - p,
{
    if p < axis.primary_bound(v) && pred_holds(pred, pair_at(v, axis, l, p)) {
        lemma_run_len_within(v, axis, l, p + 1, pred);
    }
}

/// After the maximal run, the predicate fails or the bound is reached.
pub proof fn lemma_run_len_maximal(v: GridView, axis: Axis, l: int, p: int, pred: PairPred)
    ensures
        p + run_len(v, axis, l, p, pred) >= axis.primary_bound(v)
            || !pred_holds(pred, pair_at(v, axis, l, p + run_len(v, axis, l, p, pred))),
    decreases axis.primary_bound(v) - p,
{
    if p < axis.primary_bound(v) && pred_holds(pred, pair_at(v, axis, l, p)) {
        lemma_run_len_maximal(v, axis, l, p + 1, pred);
    }
}

/// Evaluates `pred` on the pair at lane `l`, position `p`.
fn pair_pred_eval(canvas: &Canvas, axis: Axis, l: isize, p: isize, pred: PairPred) -> (r: bool)
    requires
        canvas@.wf(),
        -2 <= l <= MAX_DIM as isize,
        0 <= p <= MAX_DIM as isize,
    ensures
        r == pred_holds(pred, pair_at(canvas@, axis, l as int, p as int)),
{
    let pair: (Color, Color) = match axis {
        Axis::Vertical => (canvas.pixel(l, p), canvas.pixel(l + 1, p)),
        Axis::Horizontal => (canvas.pixel(p, l), canvas.pixel(p, l + 1)),
    };
    match pred {
        PairPred::Equal => pair.0 == pair.1,
        PairPred::Exact(a, b) => pair.0 == a && pair.1 == b,
        PairPred::ExactDistinct(a, b) => pair.0 == a && pair.1 == b && !(a == b),
    }
}

/// The run scanner: length of the maximal run from position `p` in lane
/// `l` on which `pred` holds, stopping at the axis bound.
pub fn run(canvas: &Canvas, axis: Axis, l: isize, p: isize, pred: PairPred) -> (len: isize)
    requires
        canvas@.wf(),
        -2 <= l <= MAX_DIM as isize,
        0 <= p <= MAX_DIM as isize,
    ensures
        len == run_len(canvas@, axis, l as int, p as int, pred),
        0 <= len,
        p + len <= axis.primary_bound(canvas@) || len == 0,
{
    let ghost v = canvas@;
    let bound: isize = match axis {
        Axis::Vertical => canvas.height() as isize,
        Axis::Horizontal => canvas.width() as isize,
    };
    let mut len: isize = 0;
    loop
        invariant_except_break
            canvas@ == v,
            canvas@.wf(),
            -2 <= l <= MAX_DIM as isize,
            0 <= p <= MAX_DIM as isize,
            bound == axis.primary_bound(v),
            0 <= len,
            p + len <= bound || len == 0,
            run_len(v, axis, l as int, p as int, pred)
                == len + run_len(v, axis, l as int, p + len, pred),
        ensures
            canvas@ == v,
            len == run_len(v, axis, l as int, p as int, pred),
            0 <= len,
            p + len <= bound || len == 0,
        decreases bound - p - len,
    {
        if p + len >= bound {
            proof {
                assert(run_len(v, axis, l as int, p + len, pred) == 0);
            }
            break;
        }
        if !pair_pred_eval(canvas, axis, l, p + len, pred) {
            proof {
                assert(run_len(v, axis, l as int, p + len, pred) == 0);
            }
            break;
        }
        proof {
            assert(run_len(v, axis, l as int, p + len, pred)
                == 1 + run_len(v, axis, l as int, p + len + 1, pred));
        }
        len = len + 1;
    }
    len
}

/// Total primary distance a lane scan consumes from position `p`: the
/// preceding equal run, then for each seam its length and the equal run
/// that follows it.
pub open spec fn lane_consumed(v: GridView, axis: Axis, l: int, p: int) -> int
    decreases axis.primary_bound(v) - p,
{
    let e = run_len(v, axis, l, p, PairPred::Equal);
    if p + e >= axis.primary_bound(v) {
        e as int
    } else {
        let seam = pair_at(v, axis, l, p + e);
        let s = run_len(v, axis, l, p + e, PairPred::Exact(seam.0, seam.1));
        proof {
            // a seam starting inside the axis is at least one position long
            // and, like every run, stops at the bound
            assert(pred_holds(PairPred::Exact(seam.0, seam.1), pair_at(v, axis, l, p + e)));
            assert(s >= 1);
            lemma_run_len_within(v, axis, l, p + e, PairPred::Exact(seam.0, seam.1));
        }
        e + s + lane_consumed(v, axis, l, p + e + s)
    }
}

/// Run conservation: from any start position at or before the axis bound,
/// the equal runs and seam lengths a lane scan walks through add up to
/// exactly the remaining positions — nothing is skipped or counted twice.
pub proof fn lemma_run_conservation(v: GridView, axis: Axis, l: int, p: int)
    requires
        p <= axis.primary_bound(v),
    ensures
        p + lane_consumed(v, axis, l, p) == axis.primary_bound(v),
    decreases axis.primary_bound(v) - p,
{
    let bound = axis.primary_bound(v);
    let e = run_len(v, axis, l, p, PairPred::Equal);
    lemma_run_len_within(v, axis, l, p, PairPred::Equal);
    if p + e >= bound {
        // the equal run reaches the bound exactly
    } else {
        let seam = pair_at(v, axis, l, p + e);
        let s = run_len(v, axis, l, p + e, PairPred::Exact(seam.0, seam.1));
        lemma_run_len_within(v, axis, l, p + e, PairPred::Exact(seam.0, seam.1));
        lemma_run_conservation(v, axis, l, p + e + s);
    }
}

} // verus!
