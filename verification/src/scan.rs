use vstd::prelude::*;
use crate::canvas::{Canvas, GridView};
use crate::corners::{corner_features, corner_scan, corner_props, lemma_corner_features_props};
use crate::feature::{Gradient, MlaaFeature};
use crate::frac::Frac;
use crate::options::{MlaaOptions, MAX_SPLIT};
use crate::runs::Axis;
use crate::seams::{
    axis_features, scan_axis, gradient_props, lemma_axis_features_props,
};

verus! {

/// Every feature of one scan, in emission order: vertical gradients lane
/// by lane, then horizontal gradients, then corners row-major — each
/// family only when its option is on.
pub open spec fn features_spec(v: GridView, o: MlaaOptions) -> Seq<MlaaFeature> {
    (if o.vertical_gradients {
        axis_features(v, o, Axis::Vertical)
    } else {
        Seq::empty()
    }) + (if o.horizontal_gradients {
        axis_features(v, o, Axis::Horizontal)
    } else {
        Seq::empty()
    }) + (if o.corners {
        corner_features(v)
    } else {
        Seq::empty()
    })
}

/// What is known of every feature the scan emits: gradients carry the
/// variant of their axis, every coordinate is within the painter's
/// bounds, and the two blended colors always differ.
pub open spec fn feature_props(v: GridView, o: MlaaOptions, f: MlaaFeature) -> bool {
    ||| o.vertical_gradients && gradient_props(Axis::Vertical, f)
    ||| o.horizontal_gradients && gradient_props(Axis::Horizontal, f)
    ||| o.corners && corner_props(f)
}

/// Every feature of a scan satisfies `feature_props`; in particular every
/// feature is well-formed and — gradient or corner — blends two distinct
/// colors, so no zero-delta gradient is ever emitted.
pub proof fn lemma_features_props(v: GridView, o: MlaaOptions)
    requires
        v.wf(),
        o.wf(),
    ensures
        forall|i: int| 0 <= i < features_spec(v, o).len()
            ==> feature_props(v, o, #[trigger] features_spec(v, o)[i]),
{
    lemma_axis_features_props(v, o, Axis::Vertical);
    lemma_axis_features_props(v, o, Axis::Horizontal);
    lemma_corner_features_props(v);
    let fs = features_spec(v, o);
    let s1 = if o.vertical_gradients {
        axis_features(v, o, Axis::Vertical)
    } else {
        Seq::<MlaaFeature>::empty()
    };
    let s2 = if o.horizontal_gradients {
        axis_features(v, o, Axis::Horizontal)
    } else {
        Seq::<MlaaFeature>::empty()
    };
    let s3 = if o.corners { corner_features(v) } else { Seq::<MlaaFeature>::empty() };
    assert(fs == s1 + s2 + s3);
    assert forall|i: int| 0 <= i < fs.len() implies feature_props(v, o, fs[i]) by {
        if i < s1.len() {
            assert(fs[i] == s1[i]);
        } else if i < s1.len() + s2.len() {
            assert(fs[i] == s2[i - s1.len()]);
        } else {
            assert(fs[i] == s3[i - s1.len() - s2.len()]);
        }
    }
}

/// No zero-delta blends: every feature the scan emits, gradient or
/// corner, blends two distinct colors.
pub proof fn lemma_no_zero_delta(v: GridView, o: MlaaOptions)
    requires
        v.wf(),
        o.wf(),
    ensures
        forall|i: int| 0 <= i < features_spec(v, o).len()
            ==> #[trigger] features_spec(v, o)[i].blend_colors().0
                != features_spec(v, o)[i].blend_colors().1,
{
    lemma_features_props(v, o);
}

/// Determinism: the features of a scan are a function of the canvas view
/// and the options alone, so equal inputs give the identical sequence.
pub proof fn lemma_scan_deterministic(
    v1: GridView, o1: MlaaOptions, v2: GridView, o2: MlaaOptions,
)
    requires
        v1 == v2,
        o1 == o2,
    ensures
        features_spec(v1, o1) == features_spec(v2, o2),
{
}

/// Re-scan idempotence: the scan reads the canvas and never writes it, so
/// any two results of scanning the same canvas with the same options —
/// in particular a first and a second scan — are identical.
pub proof fn lemma_rescan_identical(
    r1: Seq<MlaaFeature>, r2: Seq<MlaaFeature>, v: GridView, o: MlaaOptions,
)
    requires
        r1 == features_spec(v, o),
        r2 == features_spec(v, o),
    ensures
        r1 == r2,
{
}

/// Runs the whole transform: seam detection and gradient construction on
/// both axes, then corner detection, each gated by its option, and
/// returns every feature in emission order.
pub fn mlaa_features(canvas: &Canvas, options: &MlaaOptions) -> (features: Vec<MlaaFeature>)
    requires
        canvas@.wf(),
        options.wf(),
    ensures
        features@ == features_spec(canvas@, *options),
        forall|i: int| 0 <= i < features@.len() ==> #[trigger] features@[i].wf(),
{
    let ghost v = canvas@;
    let ghost o = *options;
    let ghost s1 = if o.vertical_gradients {
        axis_features(v, o, Axis::Vertical)
    } else {
        Seq::<MlaaFeature>::empty()
    };
    let ghost s2 = if o.horizontal_gradients {
        axis_features(v, o, Axis::Horizontal)
    } else {
        Seq::<MlaaFeature>::empty()
    };
    let ghost s3 = if o.corners { corner_features(v) } else { Seq::<MlaaFeature>::empty() };
    let mut features: Vec<MlaaFeature> = Vec::new();
    if options.vertical_gradients {
        scan_axis(canvas, options, Axis::Vertical, &mut features);
    }
    proof { assert(features@ =~= s1); }
    if options.horizontal_gradients {
        scan_axis(canvas, options, Axis::Horizontal, &mut features);
    }
    proof { assert(features@ =~= s1 + s2); }
    if options.corners {
        corner_scan(canvas, &mut features);
    }
    proof {
        assert(features@ =~= s1 + s2 + s3);
        assert(features@ == features_spec(v, o));
        lemma_features_props(v, o);
    }
    features
}

/// The options the gradients-only entry point scans with: both gradient
/// families, strict matching, no corners, no brightness balance.
pub open spec fn gradients_only(split: Frac) -> MlaaOptions {
    MlaaOptions {
        vertical_gradients: true,
        horizontal_gradients: true,
        corners: false,
        strict_mode: true,
        seam_split_position: split,
        seam_brigtness_balance: false,
    }
}

/// The gradient a gradient feature denotes.
pub open spec fn feature_gradient(f: MlaaFeature) -> Gradient
    recommends
        !(f matches MlaaFeature::Corner { .. }),
{
    match f {
        MlaaFeature::VerticalGradient { x, y, height, colors } => Gradient::Vertical {
            x, y, height, colors,
        },
        MlaaFeature::HorizontalGradient { x, y, width, colors } => Gradient::Horizontal {
            x, y, width, colors,
        },
        MlaaFeature::Corner { .. } => arbitrary(),
    }
}

/// Gradients alone: scans both axes in strict mode with no corners and no
/// brightness balance, and returns each feature as a `Gradient`.
pub fn mlaa(canvas: &Canvas, seam_split_position: Frac) -> (gradients: Vec<Gradient>)
    requires
        canvas@.wf(),
        0 < seam_split_position.den <= MAX_SPLIT,
        -MAX_SPLIT <= seam_split_position.num <= MAX_SPLIT,
    ensures
        gradients@.len() == features_spec(canvas@, gradients_only(seam_split_position)).len(),
        forall|i: int| 0 <= i < gradients@.len() ==> #[trigger] gradients@[i]
            == feature_gradient(features_spec(canvas@, gradients_only(seam_split_position))[i]),
{
    let ghost v = canvas@;
    let options = MlaaOptions {
        vertical_gradients: true,
        horizontal_gradients: true,
        corners: false,
        strict_mode: true,
        seam_split_position,
        seam_brigtness_balance: false,
    };
    let ghost o = *&options;
    proof {
        assert(o == gradients_only(seam_split_position));
        lemma_features_props(v, o);
    }
    let features = mlaa_features(canvas, &options);
    let ghost fs = features_spec(v, o);
    let mut gradients: Vec<Gradient> = Vec::new();
    let mut i: usize = 0;
    while i < features.len()
        invariant
            features@ == fs,
            forall|k: int| 0 <= k < fs.len() ==> feature_props(v, o, #[trigger] fs[k]),
            !o.corners,
            0 <= i <= features@.len(),
            gradients@.len() == i,
            forall|k: int| 0 <= k < i ==> #[trigger] gradients@[k] == feature_gradient(fs[k]),
        decreases features@.len() - i,
    {
        let g = match &features[i] {
            MlaaFeature::VerticalGradient { x, y, height, colors } => Gradient::Vertical {
                x: *x, y: *y, height: *height, colors: *colors,
            },
            MlaaFeature::HorizontalGradient { x, y, width, colors } => Gradient::Horizontal {
                x: *x, y: *y, width: *width, colors: *colors,
            },
            MlaaFeature::Corner { .. } => {
                proof {
                    // a gradients-only scan emits no corner: its props say
                    // the feature is one axis's gradient variant
                    assert(feature_props(v, o, fs[i as int]));
                    assert(false);
                }
                vstd::pervasive::unreached()
            },
        };
        gradients.push(g);
        i = i + 1;
    }
    gradients
}

} // verus!
