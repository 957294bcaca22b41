use mlaa::{Canvas, Color, Frac, MlaaFeature};

fn c(value: u32, brightness: u32) -> Color {
    Color { value, brightness }
}

#[test]
fn floor_rounds_toward_negative_infinity() {
    assert_eq!(Frac { num: 7, den: 2 }.floor(), 3);
    assert_eq!(Frac { num: 6, den: 2 }.floor(), 3);
    assert_eq!(Frac { num: -7, den: 2 }.floor(), -4);
    assert_eq!(Frac { num: -6, den: 2 }.floor(), -3);
    assert_eq!(Frac { num: 0, den: 5 }.floor(), 0);
}

#[test]
fn ceil_rounds_toward_positive_infinity() {
    assert_eq!(Frac { num: 7, den: 2 }.ceil(), 4);
    assert_eq!(Frac { num: 6, den: 2 }.ceil(), 3);
    assert_eq!(Frac { num: -7, den: 2 }.ceil(), -3);
    assert_eq!(Frac { num: -6, den: 2 }.ceil(), -3);
}

#[test]
fn plus_is_exact_cross_multiplication() {
    let s = Frac { num: 1, den: 2 }.plus(Frac { num: 1, den: 3 });
    assert_eq!(s, Frac { num: 5, den: 6 });
    let z = Frac { num: 3, den: 4 }.plus(Frac { num: -3, den: 4 });
    assert_eq!(z, Frac { num: 0, den: 16 });
}

#[test]
fn canvas_rejects_mismatched_cells_and_oversized_sides() {
    let a = c(1, 10);
    assert!(Canvas::new(2, 2, vec![a, a, a], a).is_none());
    assert!(Canvas::new(8193, 1, vec![], a).is_none());
    assert!(Canvas::new(2, 2, vec![a, a, a, a], a).is_some());
}

#[test]
fn out_of_bounds_reads_answer_with_the_sentinel() {
    let a = c(1, 10);
    let b = c(2, 20);
    let sentinel = c(9, 0);
    let canvas = Canvas::new(2, 1, vec![a, b], sentinel).unwrap();
    assert_eq!(canvas.pixel(0, 0), a);
    assert_eq!(canvas.pixel(1, 0), b);
    assert_eq!(canvas.pixel(-1, 0), sentinel);
    assert_eq!(canvas.pixel(2, 0), sentinel);
    assert_eq!(canvas.pixel(0, -1), sentinel);
    assert_eq!(canvas.pixel(0, 1), sentinel);
}

#[test]
fn feature_well_formedness_check_tracks_the_bounds() {
    let a = c(1, 10);
    let b = c(2, 20);
    let good = MlaaFeature::VerticalGradient {
        x: 0,
        y: Frac { num: 3, den: 2 },
        height: Frac { num: 1, den: 2 },
        colors: (a, b),
    };
    assert!(good.is_wf());
    let bad_den = MlaaFeature::VerticalGradient {
        x: 0,
        y: Frac { num: 3, den: 0 },
        height: Frac { num: 1, den: 2 },
        colors: (a, b),
    };
    assert!(!bad_den.is_wf());
    let corner = MlaaFeature::Corner { x: 0, y: 0, colors: (a, b) };
    assert!(corner.is_wf());
}
