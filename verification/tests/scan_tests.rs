use mlaa::runs::{run, Axis, PairPred};
use mlaa::scan::{mlaa, mlaa_features};
use mlaa::{Canvas, Color, Frac, Gradient, MlaaFeature, MlaaOptions};

fn c(value: u32, brightness: u32) -> Color {
    Color { value, brightness }
}

fn canvas_of(rows: Vec<Vec<Color>>, outside: Color) -> Canvas {
    let h = rows.len();
    let w = if h > 0 { rows[0].len() } else { 0 };
    let mut cells: Vec<Color> = Vec::new();
    for row in rows {
        assert_eq!(row.len(), w);
        for px in row {
            cells.push(px);
        }
    }
    Canvas::new(w, h, cells, outside).unwrap()
}

fn all_on(split: Frac) -> MlaaOptions {
    MlaaOptions {
        vertical_gradients: true,
        horizontal_gradients: true,
        corners: true,
        strict_mode: true,
        seam_split_position: split,
        seam_brigtness_balance: false,
    }
}

/// The canvas with one vertical seam (rows 0..2 of the column-0/1
/// boundary) continued by the column-1/2 boundary on rows 2..4.
fn staircase(a: Color, b: Color, outside: Color) -> Canvas {
    canvas_of(
        vec![
            vec![a, b, b],
            vec![a, b, b],
            vec![a, a, b],
            vec![a, a, b],
        ],
        outside,
    )
}

#[test]
fn two_by_two_has_seam_but_no_features() {
    let a = c(1, 10);
    let b = c(2, 20);
    let o = c(0, 0);
    let canvas = canvas_of(vec![vec![a, a], vec![b, b]], o);
    // the horizontal seam between rows 0 and 1 spans the full width
    let seam_len = run(&canvas, Axis::Horizontal, 0, 0, PairPred::Exact(a, b));
    assert_eq!(seam_len, 2);
    // but no neighbor beyond the edge matches, and the canvas is too
    // small for corners: no features at all
    let features = mlaa_features(&canvas, &all_on(Frac { num: 0, den: 1 }));
    assert!(features.is_empty());
}

#[test]
fn staircase_emits_one_vertical_gradient() {
    let a = c(1, 10);
    let b = c(2, 20);
    let canvas = staircase(a, b, c(0, 0));
    let features = mlaa_features(&canvas, &all_on(Frac { num: 0, den: 1 }));
    assert_eq!(
        features,
        vec![MlaaFeature::VerticalGradient {
            x: 1,
            y: Frac { num: 2, den: 2 },
            height: Frac { num: 4, den: 2 },
            colors: (b, a),
        }]
    );
}

#[test]
fn transposed_staircase_emits_the_mirrored_horizontal_gradient() {
    let a = c(1, 10);
    let b = c(2, 20);
    let canvas = canvas_of(
        vec![
            vec![a, a, a, a],
            vec![b, b, a, a],
            vec![b, b, b, b],
        ],
        c(0, 0),
    );
    let features = mlaa_features(&canvas, &all_on(Frac { num: 0, den: 1 }));
    assert_eq!(
        features,
        vec![MlaaFeature::HorizontalGradient {
            x: Frac { num: 2, den: 2 },
            y: 1,
            width: Frac { num: 4, den: 2 },
            colors: (b, a),
        }]
    );
}

#[test]
fn left_neighbor_is_probed_first_and_flips_the_colors() {
    let a = c(1, 10);
    let b = c(2, 20);
    // the seam on the column-1/2 boundary continues on the column-0/1
    // boundary below it: the neighbor one lane before matches
    let canvas = canvas_of(
        vec![
            vec![a, a, b],
            vec![a, a, b],
            vec![a, b, b],
            vec![a, b, b],
        ],
        c(0, 0),
    );
    let features = mlaa_features(&canvas, &all_on(Frac { num: 0, den: 1 }));
    assert_eq!(
        features,
        vec![MlaaFeature::VerticalGradient {
            x: 1,
            y: Frac { num: 2, den: 2 },
            height: Frac { num: 4, den: 2 },
            colors: (a, b),
        }]
    );
}

#[test]
fn split_position_one_collapses_extent_to_seam_end() {
    let a = c(1, 10);
    let b = c(2, 20);
    let canvas = staircase(a, b, c(0, 0));
    let features = mlaa_features(&canvas, &all_on(Frac { num: 1, den: 1 }));
    // center lands on the seam's far end (row 2) and the extent is zero
    assert_eq!(
        features,
        vec![MlaaFeature::VerticalGradient {
            x: 1,
            y: Frac { num: 4, den: 2 },
            height: Frac { num: 0, den: 2 },
            colors: (b, a),
        }]
    );
}

#[test]
fn relaxed_mode_matches_where_strict_does_not() {
    let a = c(1, 10);
    let b = c(2, 20);
    let d = c(3, 30);
    let canvas = canvas_of(
        vec![
            vec![a, b, b],
            vec![a, b, b],
            vec![d, d, b],
            vec![d, d, b],
        ],
        c(0, 0),
    );
    let mut options = all_on(Frac { num: 0, den: 1 });
    options.corners = false;

    // strict: the neighbor pair (d, b) does not reproduce (a, b)
    let strict = mlaa_features(&canvas, &options);
    assert!(strict.is_empty());

    // relaxed: one side may change while the shared side stays fixed
    options.strict_mode = false;
    let relaxed = mlaa_features(&canvas, &options);
    assert_eq!(
        relaxed,
        vec![MlaaFeature::VerticalGradient {
            x: 1,
            y: Frac { num: 2, den: 2 },
            height: Frac { num: 4, den: 2 },
            colors: (b, d),
        }]
    );
}

#[test]
fn brightness_balance_rejects_disagreeing_neighbor() {
    let a = c(1, 10);
    let b = c(2, 20);
    // the neighbor's outer color is brighter than the shared side, so the
    // neighbor pair's light/dark ordering disagrees with the seam's
    let d_bright = c(3, 30);
    let canvas = canvas_of(
        vec![
            vec![a, b, b],
            vec![a, b, b],
            vec![d_bright, d_bright, b],
            vec![d_bright, d_bright, b],
        ],
        c(0, 0),
    );
    let mut options = all_on(Frac { num: 0, den: 1 });
    options.corners = false;
    options.strict_mode = false;
    options.seam_brigtness_balance = true;
    assert!(mlaa_features(&canvas, &options).is_empty());

    // a darker outer color agrees with the seam's ordering and passes
    let d_dark = c(3, 5);
    let canvas2 = canvas_of(
        vec![
            vec![a, b, b],
            vec![a, b, b],
            vec![d_dark, d_dark, b],
            vec![d_dark, d_dark, b],
        ],
        c(0, 0),
    );
    let features = mlaa_features(&canvas2, &options);
    assert_eq!(features.len(), 1);
    match &features[0] {
        MlaaFeature::VerticalGradient { colors, .. } => assert_eq!(*colors, (b, d_dark)),
        other => panic!("expected a vertical gradient, got {:?}", other),
    }
}

#[test]
fn repeated_scans_are_identical() {
    let a = c(1, 10);
    let b = c(2, 20);
    let canvas = staircase(a, b, c(0, 0));
    let options = all_on(Frac { num: 1, den: 2 });
    let first = mlaa_features(&canvas, &options);
    let second = mlaa_features(&canvas, &options);
    assert_eq!(first, second);
    // an identically built canvas scans to the same sequence as well
    let rebuilt = staircase(a, b, c(0, 0));
    let third = mlaa_features(&rebuilt, &options);
    assert_eq!(first, third);
}

#[test]
fn emitted_gradients_never_blend_equal_colors() {
    let a = c(1, 10);
    let b = c(2, 20);
    let d = c(3, 5);
    let canvas = canvas_of(
        vec![
            vec![a, b, b, d],
            vec![a, b, b, d],
            vec![d, d, b, d],
            vec![a, d, b, b],
        ],
        c(0, 0),
    );
    for strict in [true, false] {
        let mut options = all_on(Frac { num: 0, den: 1 });
        options.strict_mode = strict;
        for f in mlaa_features(&canvas, &options) {
            let (first, second) = match f {
                MlaaFeature::VerticalGradient { colors, .. } => colors,
                MlaaFeature::HorizontalGradient { colors, .. } => colors,
                MlaaFeature::Corner { colors, .. } => colors,
            };
            assert_ne!(first, second);
        }
    }
}

#[test]
fn empty_and_single_pixel_canvases_yield_nothing() {
    let o = c(0, 0);
    let empty = canvas_of(vec![], o);
    assert!(mlaa_features(&empty, &all_on(Frac { num: 0, den: 1 })).is_empty());
    let single = canvas_of(vec![vec![c(1, 10)]], o);
    assert!(mlaa_features(&single, &all_on(Frac { num: 0, den: 1 })).is_empty());
}

#[test]
fn disabled_families_emit_nothing() {
    let a = c(1, 10);
    let b = c(2, 20);
    let canvas = staircase(a, b, c(0, 0));
    let options = MlaaOptions {
        vertical_gradients: false,
        horizontal_gradients: false,
        corners: false,
        strict_mode: true,
        seam_split_position: Frac { num: 0, den: 1 },
        seam_brigtness_balance: false,
    };
    assert!(mlaa_features(&canvas, &options).is_empty());
}

#[test]
fn options_default_matches_documented_values() {
    let options = MlaaOptions::default();
    assert!(options.vertical_gradients);
    assert!(options.horizontal_gradients);
    assert!(options.corners);
    assert!(options.strict_mode);
    assert_eq!(options.seam_split_position, Frac { num: 0, den: 1 });
    assert!(!options.seam_brigtness_balance);
}

#[test]
fn gradients_only_entry_point_mirrors_full_scan() {
    let a = c(1, 10);
    let b = c(2, 20);
    let canvas = staircase(a, b, c(0, 0));
    let gradients = mlaa(&canvas, Frac { num: 0, den: 1 });
    assert_eq!(
        gradients,
        vec![Gradient::Vertical {
            x: 1,
            y: Frac { num: 2, den: 2 },
            height: Frac { num: 4, den: 2 },
            colors: (b, a),
        }]
    );
}

#[test]
fn run_lengths_partition_a_full_column() {
    let a = c(1, 10);
    let b = c(2, 20);
    let canvas = staircase(a, b, c(0, 0));
    // column boundary 0: an empty equal run, the seam, then the equal
    // run to the bottom; together they cover the full height
    let e0 = run(&canvas, Axis::Vertical, 0, 0, PairPred::Equal);
    assert_eq!(e0, 0);
    let s = run(&canvas, Axis::Vertical, 0, e0, PairPred::Exact(a, b));
    assert_eq!(s, 2);
    let e1 = run(&canvas, Axis::Vertical, 0, e0 + s, PairPred::Equal);
    assert_eq!(e1, 2);
    assert_eq!(e0 + s + e1, canvas.height() as isize);
}
