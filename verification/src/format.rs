//! The storage formats.

use crate::image::{
    Float, Format, Sealed, Sint, Uint, CL_FLOAT, CL_HALF_FLOAT, CL_R, CL_RG, CL_RGBA, CL_SIGNED_INT16, CL_SIGNED_INT32, CL_SIGNED_INT8, CL_SNORM_INT16, CL_SNORM_INT8, CL_UNORM_INT16, CL_UNORM_INT8, CL_UNSIGNED_INT16, CL_UNSIGNED_INT32, CL_UNSIGNED_INT8,
};
use vstd::prelude::*;

verus! {

/// `CL_RGBA` with `CL_UNSIGNED_INT8`: 4 bytes per pixel.
#[derive(Clone, Copy, Debug)]
pub struct R8G8B8A8Uint;

impl Sealed for R8G8B8A8Uint {

}

impl Format for R8G8B8A8Uint {
    type SampledFamily = Uint;

    open spec fn order() -> u32 {
        CL_RGBA
    }

    open spec fn ctype() -> u32 {
        CL_UNSIGNED_INT8
    }

    open spec fn pixel_bytes() -> usize {
        4
    }

    fn channel_order() -> (r: u32) {
        CL_RGBA
    }

    fn channel_type() -> (r: u32) {
        CL_UNSIGNED_INT8
    }

    fn pixel_size() -> (r: usize) {
        4
    }
}

/// `CL_RGBA` with `CL_SIGNED_INT8`: 4 bytes per pixel.
#[derive(Clone, Copy, Debug)]
pub struct R8G8B8A8Sint;

impl Sealed for R8G8B8A8Sint {

}

impl Format for R8G8B8A8Sint {
    type SampledFamily = Sint;

    open spec fn order() -> u32 {
        CL_RGBA
    }

    open spec fn ctype() -> u32 {
        CL_SIGNED_INT8
    }

    open spec fn pixel_bytes() -> usize {
        4
    }

    fn channel_order() -> (r: u32) {
        CL_RGBA
    }

    fn channel_type() -> (r: u32) {
        CL_SIGNED_INT8
    }

    fn pixel_size() -> (r: usize) {
        4
    }
}

/// `CL_RGBA` with `CL_UNORM_INT8`: 4 bytes per pixel.
#[derive(Clone, Copy, Debug)]
pub struct R8G8B8A8Unorm;

impl Sealed for R8G8B8A8Unorm {

}

impl Format for R8G8B8A8Unorm {
    type SampledFamily = Float;

    open spec fn order() -> u32 {
        CL_RGBA
    }

    open spec fn ctype() -> u32 {
        CL_UNORM_INT8
    }

    open spec fn pixel_bytes() -> usize {
        4
    }

    fn channel_order() -> (r: u32) {
        CL_RGBA
    }

    fn channel_type() -> (r: u32) {
        CL_UNORM_INT8
    }

    fn pixel_size() -> (r: usize) {
        4
    }
}

/// `CL_RGBA` with `CL_SNORM_INT8`: 4 bytes per pixel.
#[derive(Clone, Copy, Debug)]
pub struct R8G8B8A8Snorm;

impl Sealed for R8G8B8A8Snorm {

}

impl Format for R8G8B8A8Snorm {
    type SampledFamily = Float;

    open spec fn order() -> u32 {
        CL_RGBA
    }

    open spec fn ctype() -> u32 {
        CL_SNORM_INT8
    }

    open spec fn pixel_bytes() -> usize {
        4
    }

    fn channel_order() -> (r: u32) {
        CL_RGBA
    }

    fn channel_type() -> (r: u32) {
        CL_SNORM_INT8
    }

    fn pixel_size() -> (r: usize) {
        4
    }
}

/// `CL_RGBA` with `CL_UNSIGNED_INT16`: 8 bytes per pixel.
#[derive(Clone, Copy, Debug)]
pub struct R16G16B16A16Uint;

impl Sealed for R16G16B16A16Uint {

}

impl Format for R16G16B16A16Uint {
    type SampledFamily = Uint;

    open spec fn order() -> u32 {
        CL_RGBA
    }

    open spec fn ctype() -> u32 {
        CL_UNSIGNED_INT16
    }

    open spec fn pixel_bytes() -> usize {
        8
    }

    fn channel_order() -> (r: u32) {
        CL_RGBA
    }

    fn channel_type() -> (r: u32) {
        CL_UNSIGNED_INT16
    }

    fn pixel_size() -> (r: usize) {
        8
    }
}

/// `CL_RGBA` with `CL_SIGNED_INT16`: 8 bytes per pixel.
#[derive(Clone, Copy, Debug)]
pub struct R16G16B16A16Sint;

impl Sealed for R16G16B16A16Sint {

}

impl Format for R16G16B16A16Sint {
    type SampledFamily = Sint;

    open spec fn order() -> u32 {
        CL_RGBA
    }

    open spec fn ctype() -> u32 {
        CL_SIGNED_INT16
    }

    open spec fn pixel_bytes() -> usize {
        8
    }

    fn channel_order() -> (r: u32) {
        CL_RGBA
    }

    fn channel_type() -> (r: u32) {
        CL_SIGNED_INT16
    }

    fn pixel_size() -> (r: usize) {
        8
    }
}

/// `CL_RGBA` with `CL_UNORM_INT16`: 8 bytes per pixel.
#[derive(Clone, Copy, Debug)]
pub struct R16G16B16A16Unorm;

impl Sealed for R16G16B16A16Unorm {

}

impl Format for R16G16B16A16Unorm {
    type SampledFamily = Float;

    open spec fn order() -> u32 {
        CL_RGBA
    }

    open spec fn ctype() -> u32 {
        CL_UNORM_INT16
    }

    open spec fn pixel_bytes() -> usize {
        8
    }

    fn channel_order() -> (r: u32) {
        CL_RGBA
    }

    fn channel_type() -> (r: u32) {
        CL_UNORM_INT16
    }

    fn pixel_size() -> (r: usize) {
        8
    }
}

/// `CL_RGBA` with `CL_SNORM_INT16`: 8 bytes per pixel.
#[derive(Clone, Copy, Debug)]
pub struct R16G16B16A16Snorm;

impl Sealed for R16G16B16A16Snorm {

}

impl Format for R16G16B16A16Snorm {
    type SampledFamily = Float;

    open spec fn order() -> u32 {
        CL_RGBA
    }

    open spec fn ctype() -> u32 {
        CL_SNORM_INT16
    }

    open spec fn pixel_bytes() -> usize {
        8
    }

    fn channel_order() -> (r: u32) {
        CL_RGBA
    }

    fn channel_type() -> (r: u32) {
        CL_SNORM_INT16
    }

    fn pixel_size() -> (r: usize) {
        8
    }
}

/// `CL_RGBA` with `CL_HALF_FLOAT`: 8 bytes per pixel.
#[derive(Clone, Copy, Debug)]
pub struct R16G16B16A16Float;

impl Sealed for R16G16B16A16Float {

}

impl Format for R16G16B16A16Float {
    type SampledFamily = Float;

    open spec fn order() -> u32 {
        CL_RGBA
    }

    open spec fn ctype() -> u32 {
        CL_HALF_FLOAT
    }

    open spec fn pixel_bytes() -> usize {
        8
    }

    fn channel_order() -> (r: u32) {
        CL_RGBA
    }

    fn channel_type() -> (r: u32) {
        CL_HALF_FLOAT
    }

    fn pixel_size() -> (r: usize) {
        8
    }
}

/// `CL_RGBA` with `CL_FLOAT`: 16 bytes per pixel.
#[derive(Clone, Copy, Debug)]
pub struct R32G32B32A32Float;

impl Sealed for R32G32B32A32Float {

}

impl Format for R32G32B32A32Float {
    type SampledFamily = Float;

    open spec fn order() -> u32 {
        CL_RGBA
    }

    open spec fn ctype() -> u32 {
        CL_FLOAT
    }

    open spec fn pixel_bytes() -> usize {
        16
    }

    fn channel_order() -> (r: u32) {
        CL_RGBA
    }

    fn channel_type() -> (r: u32) {
        CL_FLOAT
    }

    fn pixel_size() -> (r: usize) {
        16
    }
}

/// `CL_RGBA` with `CL_UNSIGNED_INT32`: 16 bytes per pixel.
#[derive(Clone, Copy, Debug)]
pub struct R32G32B32A32Uint;

impl Sealed for R32G32B32A32Uint {

}

impl Format for R32G32B32A32Uint {
    type SampledFamily = Uint;

    open spec fn order() -> u32 {
        CL_RGBA
    }

    open spec fn ctype() -> u32 {
        CL_UNSIGNED_INT32
    }

    open spec fn pixel_bytes() -> usize {
        16
    }

    fn channel_order() -> (r: u32) {
        CL_RGBA
    }

    fn channel_type() -> (r: u32) {
        CL_UNSIGNED_INT32
    }

    fn pixel_size() -> (r: usize) {
        16
    }
}

/// `CL_RGBA` with `CL_SIGNED_INT32`: 16 bytes per pixel.
#[derive(Clone, Copy, Debug)]
pub struct R32G32B32A32Sint;

impl Sealed for R32G32B32A32Sint {

}

impl Format for R32G32B32A32Sint {
    type SampledFamily = Sint;

    open spec fn order() -> u32 {
        CL_RGBA
    }

    open spec fn ctype() -> u32 {
        CL_SIGNED_INT32
    }

    open spec fn pixel_bytes() -> usize {
        16
    }

    fn channel_order() -> (r: u32) {
        CL_RGBA
    }

    fn channel_type() -> (r: u32) {
        CL_SIGNED_INT32
    }

    fn pixel_size() -> (r: usize) {
        16
    }
}

/// `CL_R` with `CL_FLOAT`: 4 bytes per pixel.
#[derive(Clone, Copy, Debug)]
pub struct R32Float;

impl Sealed for R32Float {

}

impl Format for R32Float {
    type SampledFamily = Float;

    open spec fn order() -> u32 {
        CL_R
    }

    open spec fn ctype() -> u32 {
        CL_FLOAT
    }

    open spec fn pixel_bytes() -> usize {
        4
    }

    fn channel_order() -> (r: u32) {
        CL_R
    }

    fn channel_type() -> (r: u32) {
        CL_FLOAT
    }

    fn pixel_size() -> (r: usize) {
        4
    }
}

/// `CL_R` with `CL_UNSIGNED_INT32`: 4 bytes per pixel.
#[derive(Clone, Copy, Debug)]
pub struct R32Uint;

impl Sealed for R32Uint {

}

impl Format for R32Uint {
    type SampledFamily = Uint;

    open spec fn order() -> u32 {
        CL_R
    }

    open spec fn ctype() -> u32 {
        CL_UNSIGNED_INT32
    }

    open spec fn pixel_bytes() -> usize {
        4
    }

    fn channel_order() -> (r: u32) {
        CL_R
    }

    fn channel_type() -> (r: u32) {
        CL_UNSIGNED_INT32
    }

    fn pixel_size() -> (r: usize) {
        4
    }
}

/// `CL_R` with `CL_SIGNED_INT32`: 4 bytes per pixel.
#[derive(Clone, Copy, Debug)]
pub struct R32Sint;

impl Sealed for R32Sint {

}

impl Format for R32Sint {
    type SampledFamily = Sint;

    open spec fn order() -> u32 {
        CL_R
    }

    open spec fn ctype() -> u32 {
        CL_SIGNED_INT32
    }

    open spec fn pixel_bytes() -> usize {
        4
    }

    fn channel_order() -> (r: u32) {
        CL_R
    }

    fn channel_type() -> (r: u32) {
        CL_SIGNED_INT32
    }

    fn pixel_size() -> (r: usize) {
        4
    }
}

/// `CL_R` with `CL_HALF_FLOAT`: 2 bytes per pixel.
#[derive(Clone, Copy, Debug)]
pub struct R16Float;

impl Sealed for R16Float {

}

impl Format for R16Float {
    type SampledFamily = Float;

    open spec fn order() -> u32 {
        CL_R
    }

    open spec fn ctype() -> u32 {
        CL_HALF_FLOAT
    }

    open spec fn pixel_bytes() -> usize {
        2
    }

    fn channel_order() -> (r: u32) {
        CL_R
    }

    fn channel_type() -> (r: u32) {
        CL_HALF_FLOAT
    }

    fn pixel_size() -> (r: usize) {
        2
    }
}

/// `CL_R` with `CL_UNORM_INT8`: 1 bytes per pixel.
#[derive(Clone, Copy, Debug)]
pub struct R8Unorm;

impl Sealed for R8Unorm {

}

impl Format for R8Unorm {
    type SampledFamily = Float;

    open spec fn order() -> u32 {
        CL_R
    }

    open spec fn ctype() -> u32 {
        CL_UNORM_INT8
    }

    open spec fn pixel_bytes() -> usize {
        1
    }

    fn channel_order() -> (r: u32) {
        CL_R
    }

    fn channel_type() -> (r: u32) {
        CL_UNORM_INT8
    }

    fn pixel_size() -> (r: usize) {
        1
    }
}

/// `CL_RG` with `CL_FLOAT`: 8 bytes per pixel.
#[derive(Clone, Copy, Debug)]
pub struct R32G32Float;

impl Sealed for R32G32Float {

}

impl Format for R32G32Float {
    type SampledFamily = Float;

    open spec fn order() -> u32 {
        CL_RG
    }

    open spec fn ctype() -> u32 {
        CL_FLOAT
    }

    open spec fn pixel_bytes() -> usize {
        8
    }

    fn channel_order() -> (r: u32) {
        CL_RG
    }

    fn channel_type() -> (r: u32) {
        CL_FLOAT
    }

    fn pixel_size() -> (r: usize) {
        8
    }
}

/// `CL_RG` with `CL_UNSIGNED_INT32`: 8 bytes per pixel.
#[derive(Clone, Copy, Debug)]
pub struct R32G32Uint;

impl Sealed for R32G32Uint {

}

impl Format for R32G32Uint {
    type SampledFamily = Uint;

    open spec fn order() -> u32 {
        CL_RG
    }

    open spec fn ctype() -> u32 {
        CL_UNSIGNED_INT32
    }

    open spec fn pixel_bytes() -> usize {
        8
    }

    fn channel_order() -> (r: u32) {
        CL_RG
    }

    fn channel_type() -> (r: u32) {
        CL_UNSIGNED_INT32
    }

    fn pixel_size() -> (r: usize) {
        8
    }
}

/// A short name.
pub type Rgba32Float = R32G32B32A32Float;

} // verus!
