//! Raw image data and its pixel formats.

use vstd::prelude::*;

verus! {

/// How the pixels of an image are stored.
#[derive(Debug, Clone, Copy, PartialEq, Eq, Structural)]
pub enum PixelFormat {
    /// One 8-bit gray channel.
    G8,
    /// Four 8-bit channels: red, green, blue, alpha.
    RGBA8,
}

/// Bytes taken by one pixel of the format.
pub open spec fn format_bytes(f: PixelFormat) -> u32 {
    match f {
        PixelFormat::G8 => 1,
        PixelFormat::RGBA8 => 4,
    }
}

impl PixelFormat {
    /// Channels per pixel.
    pub fn depth(&self) -> (r: u32)
        ensures
            r == format_bytes(*self),
    {
        match self {
            PixelFormat::G8 => 1,
            PixelFormat::RGBA8 => 4,
        }
    }

    /// Bytes per pixel.
    pub fn bytes(&self) -> (r: u32)
        ensures
            r == format_bytes(*self),
    {
        match self {
            PixelFormat::G8 => 1,
            PixelFormat::RGBA8 => 4,
        }
    }
}

/// Borrowed pixel data with its width, height and depth.
pub struct RawImage<'a> {
    pub bytes: &'a [u8],
    pub dim: (u32, u32, u32),
    pub pixel_format: PixelFormat,
}

impl<'a> RawImage<'a> {
    /// An image of `dim.0` by `dim.1` pixels, its depth taken from the format.
    pub fn new(bytes: &'a [u8], dim: (u32, u32), pixel_format: PixelFormat) -> (r: RawImage<'a>)
        ensures
            r.bytes@ == bytes@,
            r.dim == (dim.0, dim.1, format_bytes(pixel_format)),
            r.pixel_format == pixel_format,
    {
        RawImage { bytes, dim: (dim.0, dim.1, pixel_format.depth()), pixel_format }
    }

    /// Bytes in one row of the image.
    pub fn bytes_per_row(&self) -> (r: u32)
        requires
            format_bytes(self.pixel_format) * self.dim.0 <= u32::MAX,
        ensures
            r == format_bytes(self.pixel_format) * self.dim.0,
    {
        self.pixel_format.bytes() * self.dim.0
    }
}

} // verus!
