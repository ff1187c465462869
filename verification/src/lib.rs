use vstd::prelude::*;

pub mod bmp_io;
pub mod canvas;
pub mod codec;
pub mod color;
pub mod geometry;
pub mod raster;
pub mod trig;

pub use canvas::Canvas;
pub use canvas::DrawError;
pub use canvas::MAX_DIM;
pub use color::Color;
pub use raster::BmpGenerator;

verus! {

} // verus!
