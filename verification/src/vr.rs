//! The part of the OpenVR overlay interface that the overlay manager speaks.
//!
//! Every floating-point number of the interface is carried as its IEEE 754
//! single-precision bit pattern: the manager stores and hands out such numbers,
//! it never computes with them.
use vstd::prelude::*;

verus! {

/// The handle by which a client names an overlay.
#[allow(non_camel_case_types)]
pub type VROverlayHandle_t = u64;

/// The number of a tracked device.
#[allow(non_camel_case_types)]
pub type TrackedDeviceIndex_t = u32;

/// The bit pattern of `1.0`.
pub const ONE_BITS: u32 = 0x3f80_0000;

/// The bit pattern of `0.0`.
pub const ZERO_BITS: u32 = 0;

/// The bit pattern of `-0.5`.
pub const MINUS_HALF_BITS: u32 = 0xbf00_0000;

/// What an overlay request is answered.
#[derive(Clone, Copy, Debug, PartialEq, Eq, Structural)]
pub enum EVROverlayError {
    /// The request was carried out.
    NoError,
    /// No overlay answers to the handle or key.
    UnknownOverlay,
    /// A pointer that must not be null was null.
    InvalidParameter,
}

/// The coordinate space in which an absolute overlay transform is given.
#[derive(Clone, Copy, Debug, PartialEq, Eq, Structural)]
pub enum ETrackingUniverseOrigin {
    Seated,
    Standing,
    RawAndUncalibrated,
}

/// The graphics interface that a texture belongs to.
#[derive(Clone, Copy, Debug, PartialEq, Eq, Structural)]
pub enum ETextureType {
    Invalid,
    DirectX,
    OpenGL,
    Vulkan,
    IOSurface,
    DirectX12,
    DXGISharedHandle,
    Metal,
}

/// The color space of a texture.
#[derive(Clone, Copy, Debug, PartialEq, Eq, Structural)]
pub enum EColorSpace {
    Auto,
    Gamma,
    Linear,
}

/// The eye that a view belongs to.
#[derive(Clone, Copy, Debug, PartialEq, Eq, Structural)]
pub enum EVREye {
    Left,
    Right,
}

impl EVREye {
    /// The number of the eye's layer in an image array.
    pub open spec fn spec_array_index(self) -> u32 {
        match self {
            EVREye::Left => 0,
            EVREye::Right => 1,
        }
    }

    /// The number of the eye's layer in an image array.
    pub fn array_index(self) -> (index: u32)
        ensures
            index == self.spec_array_index(),
    {
        match self {
            EVREye::Left => 0,
            EVREye::Right => 1,
        }
    }
}

/// The part of a texture that an overlay shows, as bit patterns.
#[allow(non_snake_case)]
#[allow(non_camel_case_types)]
#[derive(Clone, Copy, Debug, PartialEq, Eq, Structural)]
pub struct VRTextureBounds_t {
    pub uMin: u32,
    pub vMin: u32,
    pub uMax: u32,
    pub vMax: u32,
}

/// A row-major matrix of three rows and four columns, as bit patterns.
#[allow(non_camel_case_types)]
#[derive(Clone, Copy, Debug, PartialEq, Eq)]
pub struct HmdMatrix34_t {
    pub m: [[u32; 4]; 3],
}

/// A texture that a client hands over, without the pointer to its pixels.
#[allow(non_snake_case)]
#[allow(non_camel_case_types)]
#[derive(Clone, Copy, Debug, PartialEq, Eq, Structural)]
pub struct Texture_t {
    pub eType: ETextureType,
    pub eColorSpace: EColorSpace,
}

} // verus!
