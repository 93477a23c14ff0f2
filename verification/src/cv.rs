//! Image buffers.
use vstd::prelude::*;

verus! {

/// How the pixels of an image are laid out.
#[allow(non_camel_case_types)]
#[derive(Clone, Copy, Debug, PartialEq, Eq, Structural)]
pub enum PixelFormat {
    _32_ARGB,
    _32_BGRA,
    _420V,
    _420F,
}

/// An image: its size in pixels and the layout of its pixels.
#[derive(Clone, Copy, Debug, PartialEq, Eq, Structural)]
pub struct ImageBuf {
    pub width: usize,
    pub height: usize,
    pub pixel_format: PixelFormat,
}

impl ImageBuf {
    /// An image of `width` by `height` pixels.
    #[inline]
    pub fn new(width: usize, height: usize, pixel_format: PixelFormat) -> (image: ImageBuf)
        ensures
            image == (ImageBuf { width, height, pixel_format }),
    {
        ImageBuf { width, height, pixel_format }
    }
}

} // verus!
