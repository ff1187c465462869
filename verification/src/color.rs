use vstd::prelude::*;

verus! {

/// An RGB color: three channel bytes, no alpha. Writes are fully opaque;
/// no blending is ever performed.
#[derive(Clone, Copy, PartialEq, Eq, Structural, Debug)]
pub struct Color {
    pub r: u8,
    pub g: u8,
    pub b: u8,
}

impl Color {
    /// Builds a color from its three channel bytes.
    pub fn rgb(r: u8, g: u8, b: u8) -> (c: Color)
        ensures
            c == (Color { r, g, b }),
    {
        Color { r, g, b }
    }
}

/// The fixed stripe palette: red, green, blue, yellow, cyan, magenta,
/// black, white, in that cyclic order.
pub open spec fn spec_palette(i: int) -> Color {
    if i == 0 {
        Color { r: 255, g: 0, b: 0 }
    } else if i == 1 {
        Color { r: 0, g: 255, b: 0 }
    } else if i == 2 {
        Color { r: 0, g: 0, b: 255 }
    } else if i == 3 {
        Color { r: 255, g: 255, b: 0 }
    } else if i == 4 {
        Color { r: 0, g: 255, b: 255 }
    } else if i == 5 {
        Color { r: 255, g: 0, b: 255 }
    } else if i == 6 {
        Color { r: 0, g: 0, b: 0 }
    } else {
        Color { r: 255, g: 255, b: 255 }
    }
}

/// The `i`-th color of the fixed 8-color stripe palette.
pub fn palette_color(i: u32) -> (c: Color)
    requires
        i < 8,
    ensures
        c == spec_palette(i as int),
{
    match i {
        0 => Color { r: 255, g: 0, b: 0 },
        1 => Color { r: 0, g: 255, b: 0 },
        2 => Color { r: 0, g: 0, b: 255 },
        3 => Color { r: 255, g: 255, b: 0 },
        4 => Color { r: 0, g: 255, b: 255 },
        5 => Color { r: 255, g: 0, b: 255 },
        6 => Color { r: 0, g: 0, b: 0 },
        _ => Color { r: 255, g: 255, b: 255 },
    }
}

} // verus!
