use vstd::prelude::*;
use crate::color::Color;

verus! {

/// Largest canvas side the transform accepts; keeps every coordinate
/// product the scanner and painter form inside `i64`.
pub const MAX_DIM: usize = 8192;

/// The mathematical view of a canvas: a `width x height` grid of colors in
/// row-major order, with a sentinel answering every read outside the
/// rectangle.
pub ghost struct GridView {
    pub width: int,
    pub height: int,
    pub cells: Seq<Color>,
    pub outside: Color,
}

impl GridView {
    pub open spec fn wf(self) -> bool {
        &&& 0 <= self.width <= MAX_DIM
        &&& 0 <= self.height <= MAX_DIM
        &&& self.cells.len() == self.width * self.height
    }

    pub open spec fn in_bounds(self, x: int, y: int) -> bool {
        0 <= x < self.width && 0 <= y < self.height
    }

    /// The color at signed coordinates. Outside the rectangle — including
    /// the one-pixel ring the seam scan probes — every read answers with
    /// the sentinel.
    pub open spec fn pixel(self, x: int, y: int) -> Color {
        if self.in_bounds(x, y) {
            self.cells[y * self.width + x]
        } else {
            self.outside
        }
    }
}

/// A frozen grid of colors plus the sentinel color for out-of-bounds reads,
/// standing in for the pixel accessor a caller would otherwise supply.
pub struct Canvas {
    width: usize,
    height: usize,
    cells: Vec<Color>,
    outside: Color,
}

impl View for Canvas {
    type V = GridView;

    closed spec fn view(&self) -> GridView {
        GridView {
            width: self.width as int,
            height: self.height as int,
            cells: self.cells@,
            outside: self.outside,
        }
    }
}

impl Canvas {
    /// Builds a canvas from row-major cells. Returns `None` exactly when a
    /// side exceeds `MAX_DIM` or the cell count does not match the sides.
    pub fn new(width: usize, height: usize, cells: Vec<Color>, outside: Color) -> (r: Option<Canvas>)
        ensures
            match r {
                Some(c) => {
                    &&& c@.wf()
                    &&& c@.width == width
                    &&& c@.height == height
                    &&& c@.cells == cells@
                    &&& c@.outside == outside
                },
                None => width > MAX_DIM || height > MAX_DIM || cells@.len() != width * height,
            },
    {
        if width <= MAX_DIM && height <= MAX_DIM {
            proof {
                assert(width * height <= 0x400_0000) by (nonlinear_arith)
                    requires width <= 8192, height <= 8192;
            }
            if cells.len() == width * height {
                Some(Canvas { width, height, cells, outside })
            } else {
                None
            }
        } else {
            None
        }
    }

    pub fn width(&self) -> (w: usize)
        ensures
            w == self@.width,
    {
        self.width
    }

    pub fn height(&self) -> (h: usize)
        ensures
            h == self@.height,
    {
        self.height
    }

    /// The color at signed coordinates, the sentinel outside the rectangle.
    pub fn pixel(&self, x: isize, y: isize) -> (c: Color)
        requires
            self@.wf(),
        ensures
            c == self@.pixel(x as int, y as int),
    {
        if x >= 0 && y >= 0 && (x as usize) < self.width && (y as usize) < self.height {
            proof {
                let xi = x as int;
                let yi = y as int;
                let w = self.width as int;
                let h = self.height as int;
                assert(yi * w + xi < w * h && 0 <= yi * w && yi * w + xi < 0x400_0000)
                    by (nonlinear_arith)
                    requires 0 <= xi && xi < w && 0 <= yi && yi < h && w <= 8192 && h <= 8192;
            }
            let idx: usize = (y as usize) * self.width + (x as usize);
            self.cells[idx]
        } else {
            self.outside
        }
    }
}

} // verus!
