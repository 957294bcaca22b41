use vstd::prelude::*;
use crate::canvas::{Canvas, GridView, MAX_DIM};
use crate::color::Color;
use crate::feature::MlaaFeature;
use crate::frac::Frac;
use crate::options::MlaaOptions;
use crate::runs::{
    Axis, PairPred, pair_at, pred_holds, run_len, run,
    lemma_run_len_within, lemma_run_len_maximal,
};

verus! {

/// Matched run length in the neighbor lane `l + delta` from position `q`
/// (just past the seam), under the configured policy. Strict mode asks the
/// neighbor to reproduce the seam's colors exactly; relaxed mode lets one
/// side change while the shared side stays fixed, and takes the longer of
/// the two candidates.
pub open spec fn neighbor_len(
    v: GridView, o: MlaaOptions, axis: Axis, l: int, q: int, seam: (Color, Color), delta: int,
) -> nat {
    if o.strict_mode {
        run_len(v, axis, l + delta, q, PairPred::Exact(seam.0, seam.1))
    } else {
        let nc = pair_at(v, axis, l + delta, q);
        let n1 = run_len(v, axis, l + delta, q, PairPred::ExactDistinct(nc.0, seam.1));
        let n2 = run_len(v, axis, l + delta, q, PairPred::ExactDistinct(seam.0, nc.1));
        if n1 >= n2 { n1 } else { n2 }
    }
}

/// Whether the brightness-balance option rejects the neighbor at
/// `l + delta`: its light/dark ordering disagrees with the seam's own.
pub open spec fn balance_rejects(
    v: GridView, o: MlaaOptions, axis: Axis, l: int, q: int, seam: (Color, Color), delta: int,
) -> bool {
    let nc = pair_at(v, axis, l + delta, q);
    o.seam_brigtness_balance
        && ((seam.0.brightness < seam.1.brightness) != (nc.0.brightness < nc.1.brightness))
}

/// Whether the neighbor at `l + delta` matches the seam at lane `l`,
/// positions `p .. p + s`: not rejected by brightness balance, and with a
/// positive matched run.
pub open spec fn delta_matches(
    v: GridView, o: MlaaOptions, axis: Axis, l: int, p: int, s: int, seam: (Color, Color), delta: int,
) -> bool {
    &&& !balance_rejects(v, o, axis, l, p + s, seam, delta)
    &&& neighbor_len(v, o, axis, l, p + s, seam, delta) > 0
}

/// The gradient built for a seam at lane `l`, positions `p .. p + s`, from
/// the matched neighbor at `l + delta`:
/// the lane coordinate stays on the changing side (`max(l, l + delta)`),
/// the center sits at `p + s/2 + (s/2) * split`, the extent is
/// `(s + n)/2 - ((s + n)/2) * split`, and the color nearer the axis origin
/// comes first, flipped by which neighbor matched.
pub open spec fn gradient_feature(
    v: GridView, o: MlaaOptions, axis: Axis, l: int, p: int, s: int, seam: (Color, Color), delta: int,
) -> MlaaFeature {
    let n = neighbor_len(v, o, axis, l, p + s, seam, delta);
    let nc = pair_at(v, axis, l + delta, p + s);
    let sp = o.seam_split_position;
    let lane = if delta < 0 { l } else { l + delta };
    let center = Frac {
        num: ((2 * p + s) * sp.den + s * sp.num) as i64,
        den: (2 * sp.den) as i64,
    };
    let extent = Frac {
        num: ((s + n) * (sp.den - sp.num)) as i64,
        den: (2 * sp.den) as i64,
    };
    let colors = if delta < 0 { (seam.0, nc.1) } else { (seam.1, nc.0) };
    match axis {
        Axis::Vertical => MlaaFeature::VerticalGradient {
            x: lane as isize, y: center, height: extent, colors,
        },
        Axis::Horizontal => MlaaFeature::HorizontalGradient {
            x: center, y: lane as isize, width: extent, colors,
        },
    }
}

/// The gradient emitted for one seam, if any: the lane one step before is
/// probed first, then one step after; the first match wins, so a seam
/// blends into at most one neighbor.
pub open spec fn seam_gradient(
    v: GridView, o: MlaaOptions, axis: Axis, l: int, p: int, s: int, seam: (Color, Color),
) -> Option<MlaaFeature> {
    if delta_matches(v, o, axis, l, p, s, seam, -1) {
        Some(gradient_feature(v, o, axis, l, p, s, seam, -1))
    } else if delta_matches(v, o, axis, l, p, s, seam, 1) {
        Some(gradient_feature(v, o, axis, l, p, s, seam, 1))
    } else {
        None
    }
}

/// Features of one lane from scan position `p` on: skip the equal run,
/// then handle the seam it uncovers and continue past it.
pub open spec fn lane_features(
    v: GridView, o: MlaaOptions, axis: Axis, l: int, p: int,
) -> Seq<MlaaFeature>
    decreases axis.primary_bound(v) - p,
{
    let e = run_len(v, axis, l, p, PairPred::Equal);
    if p + e >= axis.primary_bound(v) {
        Seq::empty()
    } else {
        let seam = pair_at(v, axis, l, p + e);
        let s = run_len(v, axis, l, p + e, PairPred::Exact(seam.0, seam.1));
        proof {
            // a seam starting inside the axis is at least one position
            // long, and stops at the bound
            assert(pred_holds(PairPred::Exact(seam.0, seam.1), pair_at(v, axis, l, p + e)));
            assert(s >= 1);
            lemma_run_len_within(v, axis, l, p + e, PairPred::Exact(seam.0, seam.1));
        }
        (match seam_gradient(v, o, axis, l, p + e, s as int, seam) {
            Some(f) => seq![f],
            None => Seq::empty(),
        }) + lane_features(v, o, axis, l, p + e + s)
    }
}

/// Features of every lane from `l` on, in lane order.
pub open spec fn lanes_features(
    v: GridView, o: MlaaOptions, axis: Axis, l: int,
) -> Seq<MlaaFeature>
    decreases axis.cross_bound(v) - l,
{
    if l >= axis.cross_bound(v) {
        Seq::empty()
    } else {
        lane_features(v, o, axis, l, 0) + lanes_features(v, o, axis, l + 1)
    }
}

/// All gradients of one axis, in emission order: lanes from `-1` (the
/// extra lane catches canvas-edge seams) through the last.
pub open spec fn axis_features(v: GridView, o: MlaaOptions, axis: Axis) -> Seq<MlaaFeature> {
    lanes_features(v, o, axis, -1)
}

/// Reads the pixel pair at lane `l`, position `p`.
fn pair_read(canvas: &Canvas, axis: Axis, l: isize, p: isize) -> (c: (Color, Color))
    requires
        canvas@.wf(),
        -2 <= l <= MAX_DIM as isize,
        0 <= p <= MAX_DIM as isize,
    ensures
        c == pair_at(canvas@, axis, l as int, p as int),
{
    match axis {
        Axis::Vertical => (canvas.pixel(l, p), canvas.pixel(l + 1, p)),
        Axis::Horizontal => (canvas.pixel(p, l), canvas.pixel(p, l + 1)),
    }
}

/// Probes the neighbor at `l + delta` for the seam at `p .. p + s` and
/// builds its gradient when it matches.
fn gradient_for_delta(
    canvas: &Canvas, options: &MlaaOptions, axis: Axis,
    l: isize, p: isize, s: isize, seam: (Color, Color), delta: isize,
) -> (g: Option<MlaaFeature>)
    requires
        canvas@.wf(),
        options.wf(),
        delta == -1 || delta == 1,
        -1 <= l,
        l + 1 <= axis.cross_bound(canvas@),
        0 <= p,
        1 <= s,
        p + s <= axis.primary_bound(canvas@),
    ensures
        g == (if delta_matches(canvas@, *options, axis, l as int, p as int, s as int, seam,
                delta as int) {
            Some(gradient_feature(canvas@, *options, axis, l as int, p as int, s as int, seam,
                delta as int))
        } else {
            Option::<MlaaFeature>::None
        }),
{
    let ghost v = canvas@;
    let q = p + s;
    let nc = pair_read(canvas, axis, l + delta, q);
    if options.seam_brigtness_balance {
        let seam_lighter = seam.0.brightness < seam.1.brightness;
        let neighbor_lighter = nc.0.brightness < nc.1.brightness;
        if seam_lighter != neighbor_lighter {
            return None;
        }
    }
    let n = if options.strict_mode {
        run(canvas, axis, l + delta, q, PairPred::Exact(seam.0, seam.1))
    } else {
        let n1 = run(canvas, axis, l + delta, q, PairPred::ExactDistinct(nc.0, seam.1));
        let n2 = run(canvas, axis, l + delta, q, PairPred::ExactDistinct(seam.0, nc.1));
        if n1 >= n2 { n1 } else { n2 }
    };
    proof {
        assert(n == neighbor_len(v, *options, axis, l as int, q as int, seam, delta as int));
    }
    if n > 0 {
        let sp = options.seam_split_position;
        let pi: i64 = p as i64;
        let si: i64 = s as i64;
        let ni: i64 = n as i64;
        proof {
            let pp: int = pi as int;
            let ss: int = si as int;
            let nn: int = ni as int;
            let dd: int = sp.den as int;
            let mm: int = sp.num as int;
            assert(0 <= pp && pp <= 8192 && 1 <= ss && ss <= 8192 && 1 <= nn && nn <= 8192);
            assert(0 <= (2 * pp + ss) * dd && (2 * pp + ss) * dd <= 0xC00_0000)
                by (nonlinear_arith)
                requires 0 <= pp, pp <= 8192, 1 <= ss, ss <= 8192, 0 < dd, dd <= 8192;
            assert(-0x400_0000 <= ss * mm && ss * mm <= 0x400_0000) by (nonlinear_arith)
                requires 1 <= ss, ss <= 8192, -8192 <= mm, mm <= 8192;
            assert(-0x1000_0000 <= (ss + nn) * (dd - mm) && (ss + nn) * (dd - mm) <= 0x1000_0000)
                by (nonlinear_arith)
                requires
                    1 <= ss, ss <= 8192,
                    1 <= nn, nn <= 8192,
                    0 < dd, dd <= 8192,
                    -8192 <= mm, mm <= 8192;
        }
        let center = Frac { num: (2 * pi + si) * sp.den + si * sp.num, den: 2 * sp.den };
        let extent = Frac { num: (si + ni) * (sp.den - sp.num), den: 2 * sp.den };
        let lane: isize = if delta < 0 { l } else { l + delta };
        let colors: (Color, Color) = if delta < 0 { (seam.0, nc.1) } else { (seam.1, nc.0) };
        let feature = match axis {
            Axis::Vertical => MlaaFeature::VerticalGradient {
                x: lane, y: center, height: extent, colors,
            },
            Axis::Horizontal => MlaaFeature::HorizontalGradient {
                x: center, y: lane, width: extent, colors,
            },
        };
        Some(feature)
    } else {
        None
    }
}

/// The gradient for one seam: probe the lane one step before, then one
/// step after; the first match wins.
fn gradient_for_seam(
    canvas: &Canvas, options: &MlaaOptions, axis: Axis,
    l: isize, p: isize, s: isize, seam: (Color, Color),
) -> (g: Option<MlaaFeature>)
    requires
        canvas@.wf(),
        options.wf(),
        -1 <= l,
        l + 1 <= axis.cross_bound(canvas@),
        0 <= p,
        1 <= s,
        p + s <= axis.primary_bound(canvas@),
    ensures
        g == seam_gradient(canvas@, *options, axis, l as int, p as int, s as int, seam),
{
    match gradient_for_delta(canvas, options, axis, l, p, s, seam, -1) {
        Some(f) => Some(f),
        None => gradient_for_delta(canvas, options, axis, l, p, s, seam, 1),
    }
}

/// Scans one lane, appending its features in order.
fn scan_lane(
    canvas: &Canvas, options: &MlaaOptions, axis: Axis, l: isize, out: &mut Vec<MlaaFeature>,
)
    requires
        canvas@.wf(),
        options.wf(),
        -1 <= l,
        l + 1 <= axis.cross_bound(canvas@),
    ensures
        final(out)@ == old(out)@
            + lane_features(canvas@, *options, axis, l as int, 0),
{
    let ghost v = canvas@;
    let ghost o = *options;
    let ghost base = old(out)@;
    let bound: isize = match axis {
        Axis::Vertical => canvas.height() as isize,
        Axis::Horizontal => canvas.width() as isize,
    };
    let mut p: isize = 0;
    let mut e: isize = run(canvas, axis, l, 0, PairPred::Equal);
    while p + e < bound
        invariant
            canvas@ == v,
            canvas@.wf(),
            *options == o,
            options.wf(),
            bound == axis.primary_bound(v),
            -1 <= l,
            l + 1 <= axis.cross_bound(v),
            0 <= p <= bound,
            e == run_len(v, axis, l as int, p as int, PairPred::Equal),
            p + e <= bound,
            out@ + lane_features(v, o, axis, l as int, p as int)
                == base + lane_features(v, o, axis, l as int, 0),
        decreases bound - p,
    {
        let p1 = p + e;
        let seam = pair_read(canvas, axis, l, p1);
        let s = run(canvas, axis, l, p1, PairPred::Exact(seam.0, seam.1));
        proof {
            assert(pred_holds(PairPred::Exact(seam.0, seam.1),
                pair_at(v, axis, l as int, p1 as int)));
            assert(s >= 1);
        }
        let g = gradient_for_seam(canvas, options, axis, l, p1, s, seam);
        let ghost out_before = out@;
        let ghost gseq = match seam_gradient(v, o, axis, l as int, p1 as int, s as int, seam) {
            Some(f) => seq![f],
            None => Seq::<MlaaFeature>::empty(),
        };
        match g {
            Some(f) => out.push(f),
            None => {},
        }
        proof {
            assert(out@ =~= out_before + gseq);
            assert(lane_features(v, o, axis, l as int, p as int)
                == gseq + lane_features(v, o, axis, l as int, p1 + s));
            assert(out@ + lane_features(v, o, axis, l as int, p1 + s)
                =~= base + lane_features(v, o, axis, l as int, 0));
        }
        p = p1 + s;
        e = run(canvas, axis, l, p, PairPred::Equal);
    }
    proof {
        assert(lane_features(v, o, axis, l as int, p as int) =~= Seq::<MlaaFeature>::empty());
        assert(out@ =~= base + lane_features(v, o, axis, l as int, 0));
    }
}

/// Scans every lane of one axis in order, appending all its gradients.
pub fn scan_axis(
    canvas: &Canvas, options: &MlaaOptions, axis: Axis, out: &mut Vec<MlaaFeature>,
)
    requires
        canvas@.wf(),
        options.wf(),
    ensures
        final(out)@ == old(out)@ + axis_features(canvas@, *options, axis),
{
    let ghost v = canvas@;
    let ghost o = *options;
    let ghost base = old(out)@;
    let cross: isize = match axis {
        Axis::Vertical => canvas.width() as isize,
        Axis::Horizontal => canvas.height() as isize,
    };
    let mut l: isize = -1;
    while l < cross
        invariant
            canvas@ == v,
            canvas@.wf(),
            *options == o,
            options.wf(),
            cross == axis.cross_bound(v),
            -1 <= l <= cross,
            out@ + lanes_features(v, o, axis, l as int)
                == base + lanes_features(v, o, axis, -1),
        decreases cross - l,
    {
        let ghost out_before = out@;
        scan_lane(canvas, options, axis, l, out);
        proof {
            assert(lanes_features(v, o, axis, l as int)
                == lane_features(v, o, axis, l as int, 0)
                    + lanes_features(v, o, axis, l + 1));
            assert(out@ + lanes_features(v, o, axis, l + 1)
                =~= base + lanes_features(v, o, axis, -1));
        }
        l = l + 1;
    }
    proof {
        assert(lanes_features(v, o, axis, l as int) =~= Seq::<MlaaFeature>::empty());
        assert(out@ =~= base + axis_features(v, o, axis));
    }
}

/// Whether a feature is the gradient variant belonging to `axis`.
pub open spec fn is_axis_gradient(axis: Axis, f: MlaaFeature) -> bool {
    match axis {
        Axis::Vertical => f matches MlaaFeature::VerticalGradient { .. },
        Axis::Horizontal => f matches MlaaFeature::HorizontalGradient { .. },
    }
}

/// The shape of every gradient an axis scan emits: the variant matching
/// its axis, coordinates within the painter's bounds, and two distinct
/// endpoint colors.
pub open spec fn gradient_props(axis: Axis, f: MlaaFeature) -> bool {
    &&& is_axis_gradient(axis, f)
    &&& f.wf()
    &&& f.blend_colors().0 != f.blend_colors().1
}

/// A gradient built from a matched neighbor has `gradient_props`: in
/// particular its endpoint colors differ, because a positive neighbor run
/// pins the neighbor pair to the seam's colors (strict mode) or to a pair
/// that keeps the shared side and differs internally (relaxed mode).
pub proof fn lemma_gradient_feature_props(
    v: GridView, o: MlaaOptions, axis: Axis, l: int, p: int, s: int, seam: (Color, Color), delta: int,
)
    requires
        v.wf(),
        o.wf(),
        0 <= p,
        1 <= s,
        p + s <= axis.primary_bound(v),
        seam.0 != seam.1,
        delta == -1 || delta == 1,
        delta_matches(v, o, axis, l, p, s, seam, delta),
    ensures
        gradient_props(axis, gradient_feature(v, o, axis, l, p, s, seam, delta)),
{
    let q = p + s;
    let bound = axis.primary_bound(v);
    let nc = pair_at(v, axis, l + delta, q);
    let n = neighbor_len(v, o, axis, l, q, seam, delta) as int;
    if o.strict_mode {
        lemma_run_len_within(v, axis, l + delta, q, PairPred::Exact(seam.0, seam.1));
        // the run is positive, so the neighbor pair is exactly the seam's
        assert(pred_holds(PairPred::Exact(seam.0, seam.1), nc));
    } else {
        lemma_run_len_within(v, axis, l + delta, q, PairPred::ExactDistinct(nc.0, seam.1));
        lemma_run_len_within(v, axis, l + delta, q, PairPred::ExactDistinct(seam.0, nc.1));
        let n1 = run_len(v, axis, l + delta, q, PairPred::ExactDistinct(nc.0, seam.1));
        let n2 = run_len(v, axis, l + delta, q, PairPred::ExactDistinct(seam.0, nc.1));
        if n1 >= n2 {
            assert(pred_holds(PairPred::ExactDistinct(nc.0, seam.1), nc));
        } else {
            assert(pred_holds(PairPred::ExactDistinct(seam.0, nc.1), nc));
        }
    }
    assert(1 <= n && n <= 8192 && p <= 8192 && s <= 8192);
    let sp = o.seam_split_position;
    let dd: int = sp.den as int;
    let mm: int = sp.num as int;
    assert(0 <= (2 * p + s) * dd && (2 * p + s) * dd <= 0xC00_0000) by (nonlinear_arith)
        requires 0 <= p, p <= 8192, 1 <= s, s <= 8192, 0 < dd, dd <= 8192;
    assert(-0x400_0000 <= s * mm && s * mm <= 0x400_0000) by (nonlinear_arith)
        requires 1 <= s, s <= 8192, -8192 <= mm, mm <= 8192;
    assert(-0x1000_0000 <= (s + n) * (dd - mm) && (s + n) * (dd - mm) <= 0x1000_0000)
        by (nonlinear_arith)
        requires
            1 <= s, s <= 8192,
            1 <= n, n <= 8192,
            0 < dd, dd <= 8192,
            -8192 <= mm, mm <= 8192;
}

/// Every feature a lane scan emits has `gradient_props`.
pub proof fn lemma_lane_features_props(v: GridView, o: MlaaOptions, axis: Axis, l: int, p: int)
    requires
        v.wf(),
        o.wf(),
        0 <= p,
    ensures
        forall|i: int| 0 <= i < lane_features(v, o, axis, l, p).len()
            ==> gradient_props(axis, #[trigger] lane_features(v, o, axis, l, p)[i]),
    decreases axis.primary_bound(v) - p,
{
    let fs = lane_features(v, o, axis, l, p);
    let bound = axis.primary_bound(v);
    let e = run_len(v, axis, l, p, PairPred::Equal);
    if p + e >= bound {
        // no seam left: nothing emitted
    } else {
        let p1 = p + e;
        let seam = pair_at(v, axis, l, p1);
        let s = run_len(v, axis, l, p1, PairPred::Exact(seam.0, seam.1));
        lemma_run_len_maximal(v, axis, l, p, PairPred::Equal);
        assert(seam.0 != seam.1);
        assert(1 <= s);
        lemma_run_len_within(v, axis, l, p1, PairPred::Exact(seam.0, seam.1));
        if delta_matches(v, o, axis, l, p1, s as int, seam, -1) {
            lemma_gradient_feature_props(v, o, axis, l, p1, s as int, seam, -1);
        } else if delta_matches(v, o, axis, l, p1, s as int, seam, 1) {
            lemma_gradient_feature_props(v, o, axis, l, p1, s as int, seam, 1);
        }
        lemma_lane_features_props(v, o, axis, l, p1 + s);
        let head = match seam_gradient(v, o, axis, l, p1, s as int, seam) {
            Some(f) => seq![f],
            None => Seq::<MlaaFeature>::empty(),
        };
        let rest = lane_features(v, o, axis, l, p1 + s);
        assert(fs == head + rest);
        assert forall|i: int| 0 <= i < fs.len() implies gradient_props(axis, fs[i]) by {
            if i < head.len() {
                assert(fs[i] == head[i]);
            } else {
                assert(fs[i] == rest[i - head.len()]);
            }
        }
    }
}

/// Every feature an axis scan emits, over all lanes, has `gradient_props`.
pub proof fn lemma_lanes_features_props(v: GridView, o: MlaaOptions, axis: Axis, l: int)
    requires
        v.wf(),
        o.wf(),
    ensures
        forall|i: int| 0 <= i < lanes_features(v, o, axis, l).len()
            ==> gradient_props(axis, #[trigger] lanes_features(v, o, axis, l)[i]),
    decreases axis.cross_bound(v) - l,
{
    let fs = lanes_features(v, o, axis, l);
    if l >= axis.cross_bound(v) {
        // nothing emitted
    } else {
        lemma_lane_features_props(v, o, axis, l, 0);
        lemma_lanes_features_props(v, o, axis, l + 1);
        let head = lane_features(v, o, axis, l, 0);
        let rest = lanes_features(v, o, axis, l + 1);
        assert(fs == head + rest);
        assert forall|i: int| 0 <= i < fs.len() implies gradient_props(axis, fs[i]) by {
            if i < head.len() {
                assert(fs[i] == head[i]);
            } else {
                assert(fs[i] == rest[i - head.len()]);
            }
        }
    }
}

/// Every feature `axis_features` emits has `gradient_props`: it is a
/// gradient of its axis, well-formed, and blends two distinct colors.
pub proof fn lemma_axis_features_props(v: GridView, o: MlaaOptions, axis: Axis)
    requires
        v.wf(),
        o.wf(),
    ensures
        forall|i: int| 0 <= i < axis_features(v, o, axis).len()
            ==> gradient_props(axis, #[trigger] axis_features(v, o, axis)[i]),
{
    lemma_lanes_features_props(v, o, axis, -1);
}

/// With the seam split position exactly one, a gradient's center lands on
/// the far end of its seam (`p + s`) and its extent collapses to zero.
pub proof fn lemma_split_one(
    v: GridView, o: MlaaOptions, axis: Axis, l: int, p: int, s: int, seam: (Color, Color), delta: int,
)
    requires
        v.wf(),
        o.wf(),
        o.seam_split_position.num == o.seam_split_position.den,
        0 <= p,
        1 <= s,
        p + s <= axis.primary_bound(v),
    ensures
        ({
            let f = gradient_feature(v, o, axis, l, p, s, seam, delta);
            f.gradient_center().is_int(p + s) && f.gradient_extent().is_int(0)
        }),
{
    let f = gradient_feature(v, o, axis, l, p, s, seam, delta);
    let sp = o.seam_split_position;
    let dd: int = sp.den as int;
    let n = neighbor_len(v, o, axis, l, p + s, seam, delta) as int;
    assert(0 <= (2 * p + s) * dd + s * dd && (2 * p + s) * dd + s * dd <= 0x1000_0000
        && (2 * p + s) * dd + s * dd == (p + s) * (2 * dd)
        && (s + n) * (dd - dd) == 0) by (nonlinear_arith)
        requires 0 <= p, p <= 8192, 1 <= s, s <= 8192, 0 < dd, dd <= 8192, 0 <= n;
}

} // verus!
