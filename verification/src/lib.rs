pub mod canvas;
pub mod color;
pub mod corners;
pub mod feature;
pub mod frac;
pub mod options;
pub mod painter;
pub mod runs;
pub mod scan;
pub mod seams;

pub use canvas::Canvas;
pub use color::Color;
pub use feature::{Gradient, MlaaFeature};
pub use frac::Frac;
pub use options::MlaaOptions;
pub use painter::{mlaa_painter, PixelWrite};
pub use scan::{mlaa, mlaa_features};
