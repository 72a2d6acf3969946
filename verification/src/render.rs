//! Where the lit pixels go in the host window, and how colours split.
use vstd::prelude::*;

use crate::config::Config;

verus! {

/// A filled rectangle in window coordinates.
#[derive(Debug, Clone, Copy, PartialEq, Eq, Structural)]
pub struct PixelRect {
    pub x: i32,
    pub y: i32,
    pub width: u32,
    pub height: u32,
}

/// The red, green, blue and alpha bytes of an RGBA colour, red in the top byte.
pub fn rgba_components(color: u32) -> (rgba: (u8, u8, u8, u8))
    ensures
        rgba.0 == color / 0x1000000,
        rgba.1 == color / 0x10000 % 256,
        rgba.2 == color / 0x100 % 256,
        rgba.3 == color % 256,
        rgba.0 * 0x1000000 + rgba.1 * 0x10000 + rgba.2 * 0x100 + rgba.3 == color,
{
    assert(((color >> 24) & 0xFF) == color / 0x1000000) by (bit_vector);
    assert(((color >> 16) & 0xFF) == color / 0x10000 % 256) by (bit_vector);
    assert(((color >> 8) & 0xFF) == color / 0x100 % 256) by (bit_vector);
    assert((color & 0xFF) == color % 256) by (bit_vector);
    let r: u8 = ((color >> 24) & 0xFF) as u8;
    let g: u8 = ((color >> 16) & 0xFF) as u8;
    let b: u8 = ((color >> 8) & 0xFF) as u8;
    let a: u8 = (color & 0xFF) as u8;
    assert((color / 0x1000000) * 0x1000000 + (color / 0x10000 % 256) * 0x10000 + (color / 0x100
        % 256) * 0x100 + color % 256 == color) by (nonlinear_arith);
    (r, g, b, a)
}

/// The rectangle that shows screen pixel `index` on a screen `width` pixels
/// wide, each pixel `scale` window pixels square.
pub open spec fn pixel_rect(index: int, width: int, scale: u32) -> PixelRect {
    PixelRect {
        x: (((index % width) as u32) * scale) as i32,
        y: (((index / width) as u32) * scale) as i32,
        width: scale,
        height: scale,
    }
}

/// The rectangles of the lit pixels among `display`, in index order.
pub open spec fn lit_rects(display: Seq<bool>, width: int, scale: u32) -> Seq<PixelRect>
    decreases display.len(),
{
    if display.len() == 0 {
        Seq::empty()
    } else {
        let before = lit_rects(display.drop_last(), width, scale);
        if display.last() {
            before.push(pixel_rect(display.len() - 1, width, scale))
        } else {
            before
        }
    }
}

/// The window scale of pixel `index` fits in 32 bits in both directions.
pub open spec fn rect_fits(index: int, width: int, scale: u32) -> bool {
    &&& ((index % width) as u32) * scale <= u32::MAX
    &&& ((index / width) as u32) * scale <= u32::MAX
}

/// The rectangles to fill to show `display` with `config`: one per lit
/// pixel, in index order.
pub fn lit_pixel_rects(display: &[bool], config: &Config) -> (rects: Vec<PixelRect>)
    requires
        config.screen_width > 0 || forall|k: int| 0 <= k < display@.len() ==> !display@[k],
        forall|k: int|
            0 <= k < display@.len() && #[trigger] display@[k] ==> rect_fits(
                k,
                config.screen_width as int,
                config.scale,
            ),
    ensures
        rects@ == lit_rects(display@, config.screen_width as int, config.scale),
{
    let width = config.screen_width;
    let scale = config.scale;
    let mut rects: Vec<PixelRect> = Vec::new();
    let mut k: usize = 0;
    while k < display.len()
        invariant
            k <= display@.len(),
            width == config.screen_width,
            scale == config.scale,
            width > 0 || forall|j: int| 0 <= j < display@.len() ==> !display@[j],
            forall|j: int|
                0 <= j < display@.len() && #[trigger] display@[j] ==> rect_fits(
                    j,
                    width as int,
                    scale,
                ),
            rects@ == lit_rects(display@.take(k as int), width as int, scale),
        decreases display@.len() - k,
    {
        assert(display@.take(k as int + 1).drop_last() =~= display@.take(k as int));
        if display[k] {
            assert(rect_fits(k as int, width as int, scale));
            let x = (k % width) as u32;
            let y = (k / width) as u32;
            rects.push(PixelRect { x: (x * scale) as i32, y: (y * scale) as i32, width: scale, height: scale });
        }
        k = k + 1;
    }
    assert(display@.take(display@.len() as int) =~= display@);
    rects
}

} // verus!
