use vstd::prelude::*;

use crate::color::Color;

verus! {

/// Largest accepted canvas side length, in pixels. Keeps the pixel count
/// (and the encoded file size) comfortably inside `u32`/`usize` arithmetic.
pub const MAX_DIM: u32 = 32768;

/// The errors a drawing operation can report. Geometric clipping is never
/// an error: a shape partly off the canvas is partially drawn.
#[derive(Clone, Copy, PartialEq, Eq, Structural, Debug)]
pub enum DrawError {
    /// Zero or absurdly large canvas dimensions.
    InvalidDimensions,
    /// A pixel address outside the canvas; the write is skipped.
    OutOfBounds,
    /// Degenerate shape geometry (a zero radius); the shape is skipped.
    InvalidShape,
}

/// Accepted canvas dimensions: both sides positive and at most `MAX_DIM`.
pub open spec fn valid_dims(width: u32, height: u32) -> bool {
    1 <= width <= MAX_DIM && 1 <= height <= MAX_DIM
}

/// A mutable pixel buffer: `width * height` RGB pixels stored row-major,
/// row `y == 0` at the top.
pub struct Canvas {
    pub width: u32,
    pub height: u32,
    pub pixels: Vec<Color>,
}

impl Canvas {
    /// Well-formedness: dimensions are valid and the store holds exactly
    /// one color per coordinate.
    pub open spec fn wf(self) -> bool {
        &&& valid_dims(self.width, self.height)
        &&& self.pixels@.len() == self.width * self.height
    }

    /// Whether `(x, y)` addresses a pixel of this canvas.
    pub open spec fn in_bounds(self, x: int, y: int) -> bool {
        0 <= x < self.width && 0 <= y < self.height
    }

    /// The color stored at `(x, y)`.
    pub open spec fn spec_pixel(self, x: int, y: int) -> Color {
        self.pixels@[y * self.width + x]
    }

    /// Builds a canvas with every pixel set to `fill` (the default
    /// background, black, when no fill color is supplied). Rejects zero or
    /// oversized dimensions with `InvalidDimensions`.
    pub fn clear(width: u32, height: u32, fill: Option<Color>) -> (r: Result<Canvas, DrawError>)
        ensures
            match r {
                Ok(c) => {
                    &&& valid_dims(width, height)
                    &&& c.wf()
                    &&& c.width == width
                    &&& c.height == height
                    &&& forall|x: int, y: int|
                        c.in_bounds(x, y) ==> c.spec_pixel(x, y) == spec_fill_color(fill)
                },
                Err(e) => e == DrawError::InvalidDimensions && !valid_dims(width, height),
            },
    {
        if width == 0 || height == 0 || width > MAX_DIM || height > MAX_DIM {
            return Err(DrawError::InvalidDimensions);
        }
        let color = match fill {
            Some(c) => c,
            None => Color { r: 0, g: 0, b: 0 },
        };
        proof {
            assert((width as int) * (height as int) <= 0x4000_0000) by (nonlinear_arith)
                requires
                    width <= 32768,
                    height <= 32768,
            ;
        }
        let total: usize = (width as usize) * (height as usize);
        let mut pixels: Vec<Color> = Vec::new();
        let mut i: usize = 0;
        while i < total
            invariant
                i <= total,
                total == width * height,
                pixels@.len() == i,
                forall|k: int| 0 <= k < i ==> pixels@[k] == color,
            decreases total - i,
        {
            pixels.push(color);
            i = i + 1;
        }
        let c = Canvas { width, height, pixels };
        proof {
            assert forall|x: int, y: int| c.in_bounds(x, y) implies c.spec_pixel(x, y) == color by {
                lemma_pixel_index_in_range(width as int, height as int, x, y);
            }
        }
        Ok(c)
    }

    /// Builds a canvas cleared to the default background (black).
    /// Fails only on zero or absurd dimensions, with `InvalidDimensions`.
    pub fn new(width: u32, height: u32) -> (r: Result<Canvas, DrawError>)
        ensures
            match r {
                Ok(c) => {
                    &&& valid_dims(width, height)
                    &&& c.wf()
                    &&& c.width == width
                    &&& c.height == height
                    &&& forall|x: int, y: int|
                        c.in_bounds(x, y) ==> c.spec_pixel(x, y) == (Color { r: 0, g: 0, b: 0 })
                },
                Err(e) => e == DrawError::InvalidDimensions && !valid_dims(width, height),
            },
    {
        Canvas::clear(width, height, None)
    }

    /// Writes one pixel. In bounds: exactly the addressed pixel changes.
    /// Out of bounds: reports `OutOfBounds` and changes nothing.
    pub fn set_pixel(&mut self, x: u32, y: u32, color: Color) -> (r: Result<(), DrawError>)
        requires
            old(self).wf(),
        ensures
            final(self).wf(),
            final(self).width == old(self).width,
            final(self).height == old(self).height,
            match r {
                Ok(()) => {
                    &&& old(self).in_bounds(x as int, y as int)
                    &&& final(self).spec_pixel(x as int, y as int) == color
                    &&& forall|xi: int, yi: int|
                        old(self).in_bounds(xi, yi) && (xi != x || yi != y)
                            ==> final(self).spec_pixel(xi, yi) == old(self).spec_pixel(xi, yi)
                },
                Err(e) => {
                    &&& e == DrawError::OutOfBounds
                    &&& !old(self).in_bounds(x as int, y as int)
                    &&& *final(self) == *old(self)
                },
            },
    {
        if x >= self.width || y >= self.height {
            return Err(DrawError::OutOfBounds);
        }
        proof {
            assert((y as int) * (self.width as int) + (x as int) < 0x4000_0000)
                by (nonlinear_arith)
                requires
                    self.width <= 32768,
                    self.height <= 32768,
                    x < self.width,
                    y < self.height,
            ;
            lemma_pixel_index_in_range(
                self.width as int,
                self.height as int,
                x as int,
                y as int,
            );
        }
        let idx: usize = (y as usize) * (self.width as usize) + (x as usize);
        self.pixels.set(idx, color);
        proof {
            assert forall|xi: int, yi: int|
                old(self).in_bounds(xi, yi) && (xi != x || yi != y) implies self.spec_pixel(
                xi,
                yi,
            ) == old(self).spec_pixel(xi, yi) by {
                lemma_pixel_index_in_range(
                    self.width as int,
                    self.height as int,
                    xi,
                    yi,
                );
                if yi * self.width + xi == y * self.width + x {
                    lemma_pixel_index_injective(
                        self.width as int,
                        xi,
                        yi,
                        x as int,
                        y as int,
                    );
                }
            }
        }
        Ok(())
    }

    /// Reads one pixel; `None` when `(x, y)` is out of bounds.
    pub fn get_pixel(&self, x: u32, y: u32) -> (r: Option<Color>)
        requires
            self.wf(),
        ensures
            match r {
                Some(c) => self.in_bounds(x as int, y as int) && c == self.spec_pixel(
                    x as int,
                    y as int,
                ),
                None => !self.in_bounds(x as int, y as int),
            },
    {
        if x >= self.width || y >= self.height {
            return None;
        }
        proof {
            assert((y as int) * (self.width as int) + (x as int) < 0x4000_0000)
                by (nonlinear_arith)
                requires
                    self.width <= 32768,
                    self.height <= 32768,
                    x < self.width,
                    y < self.height,
            ;
            lemma_pixel_index_in_range(
                self.width as int,
                self.height as int,
                x as int,
                y as int,
            );
        }
        let idx: usize = (y as usize) * (self.width as usize) + (x as usize);
        Some(self.pixels[idx])
    }

    /// The canvas dimensions, `(width, height)`.
    pub fn get_dimensions(&self) -> (r: (u32, u32))
        ensures
            r == (self.width, self.height),
    {
        (self.width, self.height)
    }
}

/// The fill color `clear` uses: the caller's, or black by default.
pub open spec fn spec_fill_color(fill: Option<Color>) -> Color {
    match fill {
        Some(c) => c,
        None => Color { r: 0, g: 0, b: 0 },
    }
}

/// A row-major pixel index stays inside the store.
pub proof fn lemma_pixel_index_in_range(w: int, h: int, x: int, y: int)
    by (nonlinear_arith)
    requires
        0 < w,
        0 < h,
        0 <= x < w,
        0 <= y < h,
    ensures
        0 <= y * w + x < w * h,
{
}

/// Row-major pixel indexing is injective over in-bounds coordinates.
pub proof fn lemma_pixel_index_injective(w: int, x1: int, y1: int, x2: int, y2: int)
    by (nonlinear_arith)
    requires
        0 < w,
        0 <= x1 < w,
        0 <= x2 < w,
        0 <= y1,
        0 <= y2,
        y1 * w + x1 == y2 * w + x2,
    ensures
        x1 == x2,
        y1 == y2,
{
}

} // verus!
