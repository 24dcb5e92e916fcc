//! Glyph metrics and glyph shapes of the console font: the 6-by-10
//! monospaced font of the `embedded_graphics` crate.
//!
//! A glyph is rendered once into an off-screen probe display and read back
//! pixel by pixel; everything the console then does with those pixels —
//! placement, wrapping, scrolling, encoding — is verified code.

use vstd::prelude::*;

use embedded_graphics::Drawable;
use embedded_graphics::geometry::Point;
use embedded_graphics::mock_display::MockDisplay;
use embedded_graphics::mono_font::MonoTextStyle;
use embedded_graphics::mono_font::ascii::FONT_6X10;
use embedded_graphics::pixelcolor::Rgb888;
use embedded_graphics::pixelcolor::RgbColor;
use embedded_graphics::text::{Baseline, Text};

verus! {

/// Width of one glyph cell in pixels.
pub const FONT_WIDTH: u32 = 6;

/// Height of one glyph cell in pixels.
pub const FONT_HEIGHT: u32 = 10;

/// Whether the font's glyph for `c` lights the cell pixel `(x, y)`, with
/// `(0, 0)` the cell's top-left corner. What the name denotes is fixed by
/// the font's bitmap data and depends on the arguments alone.
pub uninterp spec fn glyph_lit(c: char, x: int, y: int) -> bool;

/// Relies on `embedded_graphics`' `FONT_6X10`: its character cell measures
/// 6 by 10 pixels.
#[verifier::external_body]
pub(crate) fn font_cell_size() -> (r: (u32, u32))
    ensures
        r.0 == FONT_WIDTH,
        r.1 == FONT_HEIGHT,
{
    let size = FONT_6X10.character_size;
    (size.width, size.height)
}

/// Relies on `embedded_graphics`' text renderer with `FONT_6X10`: draws the
/// single character `c` into an off-screen probe display, cell anchored at
/// the origin, and reports whether the cell pixel `(x, y)` came out lit.
/// The rendering depends on the font's bitmap data and `c` alone.
#[verifier::external_body]
pub(crate) fn glyph_pixel_lit(c: char, x: u32, y: u32) -> (lit: bool)
    requires
        x < FONT_WIDTH,
        y < FONT_HEIGHT,
    ensures
        lit == glyph_lit(c, x as int, y as int),
{
    let mut probe = MockDisplay::<Rgb888>::new();
    probe.set_allow_overdraw(true);
    let style = MonoTextStyle::new(&FONT_6X10, Rgb888::WHITE);
    let mut buf = [0u8; 4];
    let text = Text::with_baseline(c.encode_utf8(&mut buf), Point::zero(), style, Baseline::Top);
    let _ = text.draw(&mut probe);
    probe.get_pixel(Point::new(x as i32, y as i32)).is_some()
}

} // verus!
