//! Upload-ready texture data: a flat RGBA8 pixel buffer with its size and
//! wrap modes, ready to hand to the rendering collaborator.

use vstd::prelude::*;

verus! {

/// How texel coordinates outside the unit square are wrapped.
#[derive(Clone, Copy, Debug, PartialEq, Eq)]
pub enum WrapMode {
    Edge,
    Mirror,
    Repeat,
}

/// A decoded texture: `width * height` texels of four bytes each, in raster
/// order, together with the two wrap modes.
#[derive(Clone, Debug, PartialEq)]
pub struct Texture {
    pub width: usize,
    pub height: usize,
    pub rgba: Vec<u8>,
    pub wrap_u: WrapMode,
    pub wrap_v: WrapMode,
}

impl Texture {
    /// Packs the given RGBA8 bytes and wrap modes, unmodified.
    pub fn new(width: usize, height: usize, data: &[u8], wrap_u: &WrapMode, wrap_v: &WrapMode) -> (r:
        Texture)
        ensures
            r.width == width,
            r.height == height,
            r.rgba@ == data@,
            r.wrap_u == *wrap_u,
            r.wrap_v == *wrap_v,
    {
        Texture { width, height, rgba: vstd::slice::slice_to_vec(data), wrap_u: *wrap_u, wrap_v: *wrap_v }
    }
}

} // verus!
