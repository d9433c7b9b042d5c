//! The values that the overlay manager exchanges with an OpenXR session.
use crate::vr::{ETrackingUniverseOrigin, HmdMatrix34_t};
use vstd::prelude::*;

verus! {

/// The layer flag that blends a layer by the alpha channel of its texture.
pub const BLEND_TEXTURE_SOURCE_ALPHA: u64 = 2;

/// A size in pixels.
#[derive(Clone, Copy, Debug, PartialEq, Eq, Structural)]
pub struct Extent2Di {
    pub width: i32,
    pub height: i32,
}

/// A position in pixels.
#[derive(Clone, Copy, Debug, PartialEq, Eq, Structural)]
pub struct Offset2Di {
    pub x: i32,
    pub y: i32,
}

/// A rectangle of pixels.
#[derive(Clone, Copy, Debug, PartialEq, Eq, Structural)]
pub struct Rect2Di {
    pub offset: Offset2Di,
    pub extent: Extent2Di,
}

/// A vector, as bit patterns.
#[derive(Clone, Copy, Debug, PartialEq, Eq, Structural)]
pub struct Vector3f {
    pub x: u32,
    pub y: u32,
    pub z: u32,
}

/// A rotation, as bit patterns.
#[derive(Clone, Copy, Debug, PartialEq, Eq, Structural)]
pub struct Quaternionf {
    pub x: u32,
    pub y: u32,
    pub z: u32,
    pub w: u32,
}

/// A position and an orientation.
#[derive(Clone, Copy, Debug, PartialEq, Eq, Structural)]
pub struct Posef {
    pub position: Vector3f,
    pub orientation: Quaternionf,
}

/// Which eyes see a layer.
#[derive(Clone, Copy, Debug, PartialEq, Eq, Structural)]
pub enum EyeVisibility {
    Both,
    Left,
    Right,
}

/// Where a layer stands in its space.
#[derive(Clone, Copy, Debug, PartialEq, Eq)]
pub enum LayerPose {
    /// The pose that this transform describes.
    Transform(HmdMatrix34_t),
    /// This pose.
    Fixed(Posef),
}

/// The image that a layer shows.
#[derive(Clone, Copy, Debug, PartialEq, Eq, Structural)]
pub struct SwapchainSubImage {
    pub swapchain: u64,
    pub image_array_index: u32,
    pub image_rect: Rect2Di,
}

/// A quad layer, ready to be submitted.
///
/// `space` is the origin of the space that the pose is given in. `width` is the
/// width of the quad in meters, as a bit pattern; the quad has the proportions of
/// `sub_image.image_rect.extent`.
#[derive(Clone, Copy, Debug, PartialEq, Eq)]
pub struct CompositionLayerQuad {
    pub space: ETrackingUniverseOrigin,
    pub layer_flags: u64,
    pub eye_visibility: EyeVisibility,
    pub sub_image: SwapchainSubImage,
    pub pose: LayerPose,
    pub width: u32,
}

} // verus!
