use vstd::prelude::*;
use crate::canvas::{Canvas, GridView};
use crate::color::Color;
use crate::feature::MlaaFeature;

verus! {

/// Equality group of three cells, each compared to the first, as the
/// corner rules state their patterns.
pub open spec fn eq3(a: Color, b: Color, c: Color) -> bool {
    b == a && c == a
}

/// Equality group of four cells.
pub open spec fn eq4(a: Color, b: Color, c: Color, d: Color) -> bool {
    b == a && c == a && d == a
}

/// Equality group of five cells.
pub open spec fn eq5(a: Color, b: Color, c: Color, d: Color, e: Color) -> bool {
    b == a && c == a && d == a && e == a
}

/// A fired corner rule emits one single-pixel corner blending `d` into the
/// center color; a rule that does not fire emits nothing.
pub open spec fn corner_if(fires: bool, x: int, y: int, d: Color, center: Color)
    -> Seq<MlaaFeature> {
    if fires {
        seq![MlaaFeature::Corner { x: x as isize, y: y as isize, colors: (d, center) }]
    } else {
        Seq::empty()
    }
}

/// The corner features at one interior pixel, in rule order.
///
/// The 3x3 neighborhood is labeled `c1..c9` row-major with `c5` the
/// center. Four lighter-on-dark rules run first (the distinguished corner
/// cell at least as bright as the center), then four darker-on-light rules
/// (strictly darker); each is one rotation of the same L-shaped pattern:
/// the center's group uniform, the opposing group uniform, and the
/// distinguished cell distinct from the center.
pub open spec fn corner_features_at(v: GridView, x: int, y: int) -> Seq<MlaaFeature> {
    let c1 = v.pixel(x - 1, y - 1);
    let c2 = v.pixel(x, y - 1);
    let c3 = v.pixel(x + 1, y - 1);
    let c4 = v.pixel(x - 1, y);
    let c5 = v.pixel(x, y);
    let c6 = v.pixel(x + 1, y);
    let c7 = v.pixel(x - 1, y + 1);
    let c8 = v.pixel(x, y + 1);
    let c9 = v.pixel(x + 1, y + 1);
    corner_if(eq3(c5, c6, c8) && eq5(c1, c2, c3, c4, c7) && c1 != c5
            && c1.brightness >= c5.brightness, x, y, c1, c5)
    + corner_if(eq3(c4, c5, c8) && eq5(c1, c2, c3, c6, c9) && c3 != c5
            && c3.brightness >= c5.brightness, x, y, c3, c5)
    + corner_if(eq3(c2, c5, c6) && eq5(c1, c4, c7, c8, c9) && c7 != c5
            && c7.brightness >= c5.brightness, x, y, c7, c5)
    + corner_if(eq3(c2, c5, c4) && eq5(c3, c6, c7, c8, c9) && c9 != c5
            && c9.brightness >= c5.brightness, x, y, c9, c5)
    + corner_if(eq3(c5, c6, c8) && eq4(c2, c3, c4, c7) && c2 != c5
            && c2.brightness < c5.brightness, x, y, c2, c5)
    + corner_if(eq3(c4, c5, c8) && eq4(c1, c2, c6, c9) && c2 != c5
            && c2.brightness < c5.brightness, x, y, c2, c5)
    + corner_if(eq3(c2, c5, c6) && eq4(c1, c4, c8, c9) && c8 != c5
            && c8.brightness < c5.brightness, x, y, c8, c5)
    + corner_if(eq3(c2, c5, c4) && eq4(c3, c6, c7, c8) && c8 != c5
            && c8.brightness < c5.brightness, x, y, c8, c5)
}

/// Corner features of one row from column `x` on.
pub open spec fn corner_row(v: GridView, y: int, x: int) -> Seq<MlaaFeature>
    decreases v.width - 1 - x,
{
    if x >= v.width - 1 {
        Seq::empty()
    } else {
        corner_features_at(v, x, y) + corner_row(v, y, x + 1)
    }
}

/// Corner features of every interior row from `y` on.
pub open spec fn corner_rows(v: GridView, y: int) -> Seq<MlaaFeature>
    decreases v.height - 1 - y,
{
    if y >= v.height - 1 {
        Seq::empty()
    } else {
        corner_row(v, y, 1) + corner_rows(v, y + 1)
    }
}

/// All corner features, row-major over the interior pixels. A canvas
/// narrower or shorter than three pixels has no interior and yields none.
pub open spec fn corner_features(v: GridView) -> Seq<MlaaFeature> {
    corner_rows(v, 1)
}

/// Tests the eight rules at one interior pixel, appending each corner that
/// fires, in rule order.
fn corner_push_at(canvas: &Canvas, x: isize, y: isize, out: &mut Vec<MlaaFeature>)
    requires
        canvas@.wf(),
        1 <= x,
        x + 1 < canvas@.width,
        1 <= y,
        y + 1 < canvas@.height,
    ensures
        final(out)@ == old(out)@ + corner_features_at(canvas@, x as int, y as int),
{
    let ghost v = canvas@;
    let ghost base = old(out)@;
    let c1 = canvas.pixel(x - 1, y - 1);
    let c2 = canvas.pixel(x, y - 1);
    let c3 = canvas.pixel(x + 1, y - 1);
    let c4 = canvas.pixel(x - 1, y);
    let c5 = canvas.pixel(x, y);
    let c6 = canvas.pixel(x + 1, y);
    let c7 = canvas.pixel(x - 1, y + 1);
    let c8 = canvas.pixel(x, y + 1);
    let c9 = canvas.pixel(x + 1, y + 1);
    let ghost xi = x as int;
    let ghost yi = y as int;
    let ghost t1 = corner_if(eq3(c5, c6, c8) && eq5(c1, c2, c3, c4, c7) && c1 != c5
        && c1.brightness >= c5.brightness, xi, yi, c1, c5);
    let ghost t2 = corner_if(eq3(c4, c5, c8) && eq5(c1, c2, c3, c6, c9) && c3 != c5
        && c3.brightness >= c5.brightness, xi, yi, c3, c5);
    let ghost t3 = corner_if(eq3(c2, c5, c6) && eq5(c1, c4, c7, c8, c9) && c7 != c5
        && c7.brightness >= c5.brightness, xi, yi, c7, c5);
    let ghost t4 = corner_if(eq3(c2, c5, c4) && eq5(c3, c6, c7, c8, c9) && c9 != c5
        && c9.brightness >= c5.brightness, xi, yi, c9, c5);
    let ghost t5 = corner_if(eq3(c5, c6, c8) && eq4(c2, c3, c4, c7) && c2 != c5
        && c2.brightness < c5.brightness, xi, yi, c2, c5);
    let ghost t6 = corner_if(eq3(c4, c5, c8) && eq4(c1, c2, c6, c9) && c2 != c5
        && c2.brightness < c5.brightness, xi, yi, c2, c5);
    let ghost t7 = corner_if(eq3(c2, c5, c6) && eq4(c1, c4, c8, c9) && c8 != c5
        && c8.brightness < c5.brightness, xi, yi, c8, c5);
    let ghost t8 = corner_if(eq3(c2, c5, c4) && eq4(c3, c6, c7, c8) && c8 != c5
        && c8.brightness < c5.brightness, xi, yi, c8, c5);

    // Lighter corner on dark base: top-left, top-right, bottom-left,
    // bottom-right.
    if c6 == c5 && c8 == c5 && c2 == c1 && c3 == c1 && c4 == c1 && c7 == c1
        && !(c1 == c5) && c1.brightness >= c5.brightness {
        out.push(MlaaFeature::Corner { x, y, colors: (c1, c5) });
    }
    proof { assert(out@ =~= base + t1); }
    if c5 == c4 && c8 == c4 && c2 == c1 && c3 == c1 && c6 == c1 && c9 == c1
        && !(c3 == c5) && c3.brightness >= c5.brightness {
        out.push(MlaaFeature::Corner { x, y, colors: (c3, c5) });
    }
    proof { assert(out@ =~= base + t1 + t2); }
    if c5 == c2 && c6 == c2 && c4 == c1 && c7 == c1 && c8 == c1 && c9 == c1
        && !(c7 == c5) && c7.brightness >= c5.brightness {
        out.push(MlaaFeature::Corner { x, y, colors: (c7, c5) });
    }
    proof { assert(out@ =~= base + t1 + t2 + t3); }
    if c5 == c2 && c4 == c2 && c6 == c3 && c7 == c3 && c8 == c3 && c9 == c3
        && !(c9 == c5) && c9.brightness >= c5.brightness {
        out.push(MlaaFeature::Corner { x, y, colors: (c9, c5) });
    }
    proof { assert(out@ =~= base + t1 + t2 + t3 + t4); }

    // Darker corner on light base: the same four rotations.
    if c6 == c5 && c8 == c5 && c3 == c2 && c4 == c2 && c7 == c2
        && !(c2 == c5) && c2.brightness < c5.brightness {
        out.push(MlaaFeature::Corner { x, y, colors: (c2, c5) });
    }
    proof { assert(out@ =~= base + t1 + t2 + t3 + t4 + t5); }
    if c5 == c4 && c8 == c4 && c2 == c1 && c6 == c1 && c9 == c1
        && !(c2 == c5) && c2.brightness < c5.brightness {
        out.push(MlaaFeature::Corner { x, y, colors: (c2, c5) });
    }
    proof { assert(out@ =~= base + t1 + t2 + t3 + t4 + t5 + t6); }
    if c5 == c2 && c6 == c2 && c4 == c1 && c8 == c1 && c9 == c1
        && !(c8 == c5) && c8.brightness < c5.brightness {
        out.push(MlaaFeature::Corner { x, y, colors: (c8, c5) });
    }
    proof { assert(out@ =~= base + t1 + t2 + t3 + t4 + t5 + t6 + t7); }
    if c5 == c2 && c4 == c2 && c6 == c3 && c7 == c3 && c8 == c3
        && !(c8 == c5) && c8.brightness < c5.brightness {
        out.push(MlaaFeature::Corner { x, y, colors: (c8, c5) });
    }
    proof {
        assert(out@ =~= base + t1 + t2 + t3 + t4 + t5 + t6 + t7 + t8);
        assert(base + t1 + t2 + t3 + t4 + t5 + t6 + t7 + t8
            =~= base + corner_features_at(v, xi, yi));
    }
}

/// Scans one interior row for corners.
fn corner_scan_row(canvas: &Canvas, y: isize, out: &mut Vec<MlaaFeature>)
    requires
        canvas@.wf(),
        1 <= y,
        y + 1 < canvas@.height,
    ensures
        final(out)@ == old(out)@ + corner_row(canvas@, y as int, 1),
{
    let ghost v = canvas@;
    let ghost base = old(out)@;
    let width = canvas.width();
    let mut x: isize = 1;
    while x + 1 < width as isize
        invariant
            canvas@ == v,
            canvas@.wf(),
            width == v.width,
            1 <= y,
            y + 1 < v.height,
            1 <= x <= v.width + 1,
            out@ + corner_row(v, y as int, x as int) == base + corner_row(v, y as int, 1),
        decreases v.width - x,
    {
        corner_push_at(canvas, x, y, out);
        proof {
            assert(corner_row(v, y as int, x as int)
                == corner_features_at(v, x as int, y as int)
                    + corner_row(v, y as int, x + 1));
            assert(out@ + corner_row(v, y as int, x + 1)
                =~= base + corner_row(v, y as int, 1));
        }
        x = x + 1;
    }
    proof {
        assert(corner_row(v, y as int, x as int) =~= Seq::<MlaaFeature>::empty());
        assert(out@ =~= base + corner_row(v, y as int, 1));
    }
}

/// Scans every interior pixel for corners, row-major.
pub fn corner_scan(canvas: &Canvas, out: &mut Vec<MlaaFeature>)
    requires
        canvas@.wf(),
    ensures
        final(out)@ == old(out)@ + corner_features(canvas@),
{
    let ghost v = canvas@;
    let ghost base = old(out)@;
    let height = canvas.height();
    let mut y: isize = 1;
    while y + 1 < height as isize
        invariant
            canvas@ == v,
            canvas@.wf(),
            height == v.height,
            1 <= y <= v.height + 1,
            out@ + corner_rows(v, y as int) == base + corner_rows(v, 1),
        decreases v.height - y,
    {
        corner_scan_row(canvas, y, out);
        proof {
            assert(corner_rows(v, y as int)
                == corner_row(v, y as int, 1) + corner_rows(v, y + 1));
            assert(out@ + corner_rows(v, y + 1) =~= base + corner_rows(v, 1));
        }
        y = y + 1;
    }
    proof {
        assert(corner_rows(v, y as int) =~= Seq::<MlaaFeature>::empty());
        assert(out@ =~= base + corner_features(v));
    }
}

/// The shape of every emitted corner: the `Corner` variant, well-formed,
/// blending two distinct colors.
pub open spec fn corner_props(f: MlaaFeature) -> bool {
    &&& f matches MlaaFeature::Corner { .. }
    &&& f.wf()
    &&& f.blend_colors().0 != f.blend_colors().1
}

/// Each rule fires only when its distinguished cell differs from the
/// center, so every corner at one pixel has `corner_props`.
pub proof fn lemma_corner_features_at_props(v: GridView, x: int, y: int)
    ensures
        forall|i: int| 0 <= i < corner_features_at(v, x, y).len()
            ==> corner_props(#[trigger] corner_features_at(v, x, y)[i]),
{
}

/// Every corner of one row has `corner_props`.
pub proof fn lemma_corner_row_props(v: GridView, y: int, x: int)
    ensures
        forall|i: int| 0 <= i < corner_row(v, y, x).len()
            ==> corner_props(#[trigger] corner_row(v, y, x)[i]),
    decreases v.width - 1 - x,
{
    if x >= v.width - 1 {
        // nothing emitted
    } else {
        lemma_corner_features_at_props(v, x, y);
        lemma_corner_row_props(v, y, x + 1);
        let fs = corner_row(v, y, x);
        let head = corner_features_at(v, x, y);
        let rest = corner_row(v, y, x + 1);
        assert(fs == head + rest);
        assert forall|i: int| 0 <= i < fs.len() implies corner_props(fs[i]) by {
            if i < head.len() {
                assert(fs[i] == head[i]);
            } else {
                assert(fs[i] == rest[i - head.len()]);
            }
        }
    }
}

/// Every corner the detector emits has `corner_props`.
pub proof fn lemma_corner_features_props(v: GridView)
    ensures
        forall|i: int| 0 <= i < corner_features(v).len()
            ==> corner_props(#[trigger] corner_features(v)[i]),
{
    lemma_corner_rows_props(v, 1);
}

proof fn lemma_corner_rows_props(v: GridView, y: int)
    ensures
        forall|i: int| 0 <= i < corner_rows(v, y).len()
            ==> corner_props(#[trigger] corner_rows(v, y)[i]),
    decreases v.height - 1 - y,
{
    if y >= v.height - 1 {
        // nothing emitted
    } else {
        lemma_corner_row_props(v, y, 1);
        lemma_corner_rows_props(v, y + 1);
        let fs = corner_rows(v, y);
        let head = corner_row(v, y, 1);
        let rest = corner_rows(v, y + 1);
        assert(fs == head + rest);
        assert forall|i: int| 0 <= i < fs.len() implies corner_props(fs[i]) by {
            if i < head.len() {
                assert(fs[i] == head[i]);
            } else {
                assert(fs[i] == rest[i - head.len()]);
            }
        }
    }
}

} // verus!
