use mlaa::{Color, Frac, MlaaFeature, PixelWrite};
use mlaa::painter::mlaa_painter;

fn c(value: u32, brightness: u32) -> Color {
    Color { value, brightness }
}

#[test]
fn corner_paints_one_half_blend() {
    let a = c(1, 10);
    let b = c(2, 20);
    let feature = MlaaFeature::Corner { x: 3, y: 5, colors: (a, b) };
    let writes = mlaa_painter(&feature);
    assert_eq!(
        writes,
        vec![PixelWrite { x: 3, y: 5, colors: (a, b), t: Frac { num: 1, den: 2 } }]
    );
}

#[test]
fn integer_span_paints_each_row_once() {
    let a = c(1, 10);
    let b = c(2, 20);
    // center 1, extent 2: rows 1 and 2, blend parameters 1/4 and 3/4
    let feature = MlaaFeature::VerticalGradient {
        x: 7,
        y: Frac { num: 2, den: 2 },
        height: Frac { num: 4, den: 2 },
        colors: (a, b),
    };
    let writes = mlaa_painter(&feature);
    assert_eq!(
        writes,
        vec![
            PixelWrite { x: 7, y: 1, colors: (a, b), t: Frac { num: 1, den: 4 } },
            PixelWrite { x: 7, y: 2, colors: (a, b), t: Frac { num: 3, den: 4 } },
        ]
    );
}

#[test]
fn fractional_span_rounds_outward() {
    let a = c(1, 10);
    let b = c(2, 20);
    // center 1/2, extent 1: the span [0.5, 1.5) covers rows 0 and 1
    let feature = MlaaFeature::VerticalGradient {
        x: 0,
        y: Frac { num: 1, den: 2 },
        height: Frac { num: 1, den: 1 },
        colors: (a, b),
    };
    let writes = mlaa_painter(&feature);
    assert_eq!(writes.len(), 2);
    assert_eq!((writes[0].x, writes[0].y), (0, 0));
    assert_eq!((writes[1].x, writes[1].y), (0, 1));
    assert_eq!(writes[0].t, Frac { num: 1, den: 4 });
    assert_eq!(writes[1].t, Frac { num: 3, den: 4 });
}

#[test]
fn horizontal_gradient_paints_columns() {
    let a = c(1, 10);
    let b = c(2, 20);
    let feature = MlaaFeature::HorizontalGradient {
        x: Frac { num: 6, den: 2 },
        y: 4,
        width: Frac { num: 2, den: 2 },
        colors: (a, b),
    };
    let writes = mlaa_painter(&feature);
    assert_eq!(
        writes,
        vec![PixelWrite { x: 3, y: 4, colors: (a, b), t: Frac { num: 1, den: 2 } }]
    );
}

#[test]
fn nonpositive_extent_paints_nothing_or_the_straddled_pixel() {
    let a = c(1, 10);
    let b = c(2, 20);
    // zero extent at an integer position: the span is empty
    let at_integer = MlaaFeature::VerticalGradient {
        x: 0,
        y: Frac { num: 4, den: 2 },
        height: Frac { num: 0, den: 2 },
        colors: (a, b),
    };
    assert!(mlaa_painter(&at_integer).is_empty());
    // a negative extent paints nothing
    let negative = MlaaFeature::VerticalGradient {
        x: 0,
        y: Frac { num: 1, den: 1 },
        height: Frac { num: -1, den: 1 },
        colors: (a, b),
    };
    assert!(mlaa_painter(&negative).is_empty());
    // zero extent at a fractional position still covers the one pixel it
    // straddles
    let straddling = MlaaFeature::VerticalGradient {
        x: 0,
        y: Frac { num: 1, den: 2 },
        height: Frac { num: 0, den: 2 },
        colors: (a, b),
    };
    let writes = mlaa_painter(&straddling);
    assert_eq!(writes.len(), 1);
    assert_eq!((writes[0].x, writes[0].y), (0, 0));
}

#[test]
fn coverage_count_is_ceil_of_end_minus_floor_of_start() {
    let a = c(1, 10);
    let b = c(2, 20);
    // center 3/2, extent 7/3: span [1.5, 23/6); floor(1.5) = 1,
    // ceil(23/6) = 4, so exactly 3 writes at rows 1, 2, 3
    let feature = MlaaFeature::VerticalGradient {
        x: 2,
        y: Frac { num: 3, den: 2 },
        height: Frac { num: 7, den: 3 },
        colors: (a, b),
    };
    let writes = mlaa_painter(&feature);
    assert_eq!(writes.len(), 3);
    for (i, w) in writes.iter().enumerate() {
        assert_eq!(w.x, 2);
        assert_eq!(w.y, 1 + i as isize);
        assert_eq!(w.t, Frac { num: 2 * i as i64 + 1, den: 6 });
    }
}
