//! Rendered glyph bitmaps, their pixel formats and the per-glyph metrics
//! that the atlas keeps.

use vstd::prelude::*;

verus! {

/// How the pixels of a rendered bitmap are stored.
#[derive(Clone, Copy, Debug, PartialEq, Eq, Structural)]
pub enum PixelMode {
    /// No pixel storage is defined.
    Undefined,
    Mono,
    Gray,
    Gray2,
    Gray4,
    Lcd,
    LcdV,
    Bgra,
}

/// Bits taken by one pixel in each mode.
pub open spec fn pixel_bits(m: PixelMode) -> u32 {
    match m {
        PixelMode::Undefined => 0,
        PixelMode::Mono => 1,
        PixelMode::Gray => 8,
        PixelMode::Gray2 => 2,
        PixelMode::Gray4 => 4,
        PixelMode::Lcd => 8,
        PixelMode::LcdV => 8,
        PixelMode::Bgra => 32,
    }
}

/// Whole bytes taken by one texel; zero for the sub-byte modes.
pub open spec fn bytes_per_texel(m: PixelMode) -> nat {
    (pixel_bits(m) / 8) as nat
}

/// A pixel format that knows how many bits one pixel takes.
pub trait PixelBitSize {
    spec fn spec_bit_size(&self) -> u32;

    fn get_size(&self) -> (r: u32)
        ensures
            r == self.spec_bit_size(),
    ;
}

impl PixelBitSize for PixelMode {
    open spec fn spec_bit_size(&self) -> u32 {
        pixel_bits(*self)
    }

    fn get_size(&self) -> (r: u32) {
        match self {
            PixelMode::Undefined => 0,
            PixelMode::Mono => 1,
            PixelMode::Gray => 8,
            PixelMode::Gray2 => 2,
            PixelMode::Gray4 => 4,
            PixelMode::Lcd => 8,
            PixelMode::LcdV => 8,
            PixelMode::Bgra => 32,
        }
    }
}

/// One glyph as the rasterizer hands it over: `rows` rows of `pitch` bytes
/// each, back to back in `buffer`, and the metrics that place it.
pub struct GlyphBitmap {
    pub buffer: Vec<u8>,
    pub rows: i32,
    pub width: i32,
    pub pitch: i32,
    /// Horizontal offset from the pen origin to the left ink edge.
    pub left: i32,
    /// Vertical offset from the baseline up to the top ink edge.
    pub top: i32,
    /// Pen advance in 1/64 pixel units.
    pub advance: i64,
    pub pixel_mode: PixelMode,
}

/// Metrics of one glyph, and where its pixels start.
#[derive(Clone, Copy, Debug, PartialEq, Eq, Structural)]
pub struct GlyphDesc {
    /// In a linear store, the byte offset of the glyph's pixels; in a packed
    /// atlas, the glyph's first column.
    pub x_start: usize,
    pub h: i32,
    pub w: i32,
    /// Bytes per row of the glyph's bitmap.
    pub pitch: i32,
    pub bearing_x: i32,
    pub bearing_y: i32,
    /// Pen advance in 1/64 pixel units.
    pub advance: i64,
}

impl GlyphDesc {
    /// The metrics of a rendered glyph whose pixels start at `x_start`.
    pub open spec fn of_bitmap(g: GlyphBitmap, x_start: int) -> GlyphDesc {
        GlyphDesc {
            x_start: x_start as usize,
            h: g.rows,
            w: g.width,
            pitch: g.pitch,
            bearing_x: g.left,
            bearing_y: g.top,
            advance: g.advance,
        }
    }

    pub fn from_bitmap(g: &GlyphBitmap, x_start: usize) -> (r: GlyphDesc)
        ensures
            r == GlyphDesc::of_bitmap(*g, x_start as int),
    {
        GlyphDesc {
            x_start,
            h: g.rows,
            w: g.width,
            pitch: g.pitch,
            bearing_x: g.left,
            bearing_y: g.top,
            advance: g.advance,
        }
    }
}

} // verus!
