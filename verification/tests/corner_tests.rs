use mlaa::{Canvas, Color, Frac, MlaaFeature, MlaaOptions};
use mlaa::scan::mlaa_features;

fn c(value: u32, brightness: u32) -> Color {
    Color { value, brightness }
}

fn canvas_of(rows: Vec<Vec<Color>>, outside: Color) -> Canvas {
    let h = rows.len();
    let w = if h > 0 { rows[0].len() } else { 0 };
    let mut cells: Vec<Color> = Vec::new();
    for row in rows {
        assert_eq!(row.len(), w);
        for px in row {
            cells.push(px);
        }
    }
    Canvas::new(w, h, cells, outside).unwrap()
}

fn corners_only() -> MlaaOptions {
    MlaaOptions {
        vertical_gradients: false,
        horizontal_gradients: false,
        corners: true,
        strict_mode: true,
        seam_split_position: Frac { num: 0, den: 1 },
        seam_brigtness_balance: false,
    }
}

#[test]
fn light_box_on_dark_background_gets_four_corners() {
    let dark = c(1, 0);
    let light = c(2, 100);
    let canvas = canvas_of(
        vec![
            vec![dark, dark, dark, dark],
            vec![dark, light, light, dark],
            vec![dark, light, light, dark],
            vec![dark, dark, dark, dark],
        ],
        c(0, 0),
    );
    let features = mlaa_features(&canvas, &corners_only());
    // one corner per diagonal of the box, each blending the background
    // into the foreground
    assert_eq!(
        features,
        vec![
            MlaaFeature::Corner { x: 1, y: 1, colors: (dark, light) },
            MlaaFeature::Corner { x: 2, y: 1, colors: (dark, light) },
            MlaaFeature::Corner { x: 1, y: 2, colors: (dark, light) },
            MlaaFeature::Corner { x: 2, y: 2, colors: (dark, light) },
        ]
    );
}

#[test]
fn dark_box_on_light_background_gets_four_corners_too() {
    let light = c(1, 100);
    let dark = c(2, 0);
    let canvas = canvas_of(
        vec![
            vec![light, light, light, light],
            vec![light, dark, dark, light],
            vec![light, dark, dark, light],
            vec![light, light, light, light],
        ],
        c(0, 0),
    );
    let features = mlaa_features(&canvas, &corners_only());
    assert_eq!(
        features,
        vec![
            MlaaFeature::Corner { x: 1, y: 1, colors: (light, dark) },
            MlaaFeature::Corner { x: 2, y: 1, colors: (light, dark) },
            MlaaFeature::Corner { x: 1, y: 2, colors: (light, dark) },
            MlaaFeature::Corner { x: 2, y: 2, colors: (light, dark) },
        ]
    );
}

#[test]
fn canvases_narrower_than_three_pixels_get_no_corners() {
    let a = c(1, 10);
    let b = c(2, 20);
    let canvas = canvas_of(vec![vec![a, b], vec![b, a]], c(0, 0));
    assert!(mlaa_features(&canvas, &corners_only()).is_empty());
    let tall = canvas_of(vec![vec![a], vec![b], vec![a], vec![b]], c(0, 0));
    assert!(mlaa_features(&tall, &corners_only()).is_empty());
}

#[test]
fn uniform_canvas_gets_no_corners() {
    let a = c(1, 10);
    let canvas = canvas_of(
        vec![
            vec![a, a, a],
            vec![a, a, a],
            vec![a, a, a],
        ],
        c(0, 0),
    );
    assert!(mlaa_features(&canvas, &corners_only()).is_empty());
}

#[test]
fn wrapped_corner_fires_the_rule_for_its_brightness_direction() {
    // one region wraps the other's top-left corner on two sides:
    //   W W W
    //   W I I      W: wrapping color, I: inner color
    //   W I I
    let rows = |w: Color, i: Color| {
        vec![
            vec![w, w, w],
            vec![w, i, i],
            vec![w, i, i],
        ]
    };

    // a lighter wrap fires the lighter-on-dark rule
    let light = c(1, 100);
    let dark = c(2, 0);
    let features = mlaa_features(&canvas_of(rows(light, dark), c(0, 0)), &corners_only());
    assert_eq!(
        features,
        vec![MlaaFeature::Corner { x: 1, y: 1, colors: (light, dark) }]
    );

    // a darker wrap fires the darker-on-light rule at the same pixel
    let dim = c(3, 0);
    let bright = c(4, 100);
    let features = mlaa_features(&canvas_of(rows(dim, bright), c(0, 0)), &corners_only());
    assert_eq!(
        features,
        vec![MlaaFeature::Corner { x: 1, y: 1, colors: (dim, bright) }]
    );
}
