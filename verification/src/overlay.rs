//! An overlay.
use crate::vr::{
    ETrackingUniverseOrigin, EVREye, HmdMatrix34_t, VRTextureBounds_t, MINUS_HALF_BITS, ONE_BITS,
    ZERO_BITS,
};
use crate::xr::{
    CompositionLayerQuad, Extent2Di, EyeVisibility, LayerPose, Offset2Di, Posef, Quaternionf,
    Rect2Di, SwapchainSubImage, Vector3f, BLEND_TEXTURE_SOURCE_ALPHA,
};
use vstd::prelude::*;

verus! {

/// A frame that waits to be shown.
#[derive(Clone, Copy, Debug, PartialEq, Eq, Structural)]
pub struct FrameData {
    /// The part of the swapchain image that holds the frame.
    pub rect: Rect2Di,
}

/// An overlay.
pub struct Overlay {
    /// The key by which clients find the overlay.
    pub key: Vec<u8>,
    /// The name of the overlay.
    pub name: Vec<u8>,
    /// The opacity, as a bit pattern.
    pub alpha: u32,
    /// The width in meters, as a bit pattern.
    pub width: u32,
    /// Whether the overlay is to be shown.
    pub visible: bool,
    /// The part of the texture to show.
    pub bounds: VRTextureBounds_t,
    /// Where the overlay stands, if a client has said so.
    pub transform: Option<(ETrackingUniverseOrigin, HmdMatrix34_t)>,
    /// The number of the compositor that draws the overlay, once there is one.
    pub compositor: Option<u64>,
    /// The frame that was drawn last, until it is handed on.
    pub last_frame: Option<FrameData>,
}

/// The texture bounds that take in the whole texture.
pub open spec fn full_bounds() -> VRTextureBounds_t {
    VRTextureBounds_t { uMin: ZERO_BITS, vMin: ZERO_BITS, uMax: ONE_BITS, vMax: ONE_BITS }
}

/// The pose of an overlay without a transform: half a meter ahead of the origin.
pub open spec fn default_pose() -> Posef {
    Posef {
        position: Vector3f { x: ZERO_BITS, y: ZERO_BITS, z: MINUS_HALF_BITS },
        orientation: Quaternionf { x: ZERO_BITS, y: ZERO_BITS, z: ZERO_BITS, w: ONE_BITS },
    }
}

/// The rectangle of the given size in the corner of an image.
pub open spec fn corner_rect(extent: Extent2Di) -> Rect2Di {
    Rect2Di { offset: Offset2Di { x: 0, y: 0 }, extent }
}

impl Overlay {
    /// The state of an overlay on which nothing but the key and the name is set:
    /// opaque, one meter wide, hidden, with the whole texture to show, and without
    /// transform, compositor and frame.
    pub open spec fn is_new(self, key: Seq<u8>, name: Seq<u8>) -> bool {
        &&& self.key@ == key
        &&& self.name@ == name
        &&& self.alpha == ONE_BITS
        &&& self.width == ONE_BITS
        &&& !self.visible
        &&& self.bounds == full_bounds()
        &&& self.transform is None
        &&& self.compositor is None
        &&& self.last_frame is None
    }

    /// Whether the overlay has a frame to show, and is to show it.
    pub open spec fn is_shown(self) -> bool {
        self.visible && self.last_frame is Some
    }

    /// The overlay after its frame, if it is to be shown, was handed on.
    pub open spec fn frame_taken(self) -> Overlay {
        if self.visible {
            Overlay { last_frame: None, ..self }
        } else {
            self
        }
    }

    /// The layer that shows the frame of the overlay.
    pub open spec fn spec_layer(
        self,
        rect: Rect2Di,
        swapchain: u64,
        current_origin: ETrackingUniverseOrigin,
    ) -> CompositionLayerQuad {
        CompositionLayerQuad {
            space: match self.transform {
                Some((origin, _)) => origin,
                None => current_origin,
            },
            layer_flags: BLEND_TEXTURE_SOURCE_ALPHA,
            eye_visibility: EyeVisibility::Both,
            sub_image: SwapchainSubImage {
                swapchain,
                image_array_index: EVREye::Left.spec_array_index(),
                image_rect: rect,
            },
            pose: match self.transform {
                Some((_, transform)) => LayerPose::Transform(transform),
                None => LayerPose::Fixed(default_pose()),
            },
            width: self.width,
        }
    }

    /// A new overlay.
    pub fn new(key: Vec<u8>, name: Vec<u8>) -> (overlay: Self)
        ensures
            overlay.is_new(key@, name@),
            overlay.key@ == key@,
            overlay.name@ == name@,
            overlay.alpha == 0x3f80_0000,
            overlay.width == 0x3f80_0000,
            !overlay.visible,
            overlay.bounds.uMin == 0,
            overlay.bounds.vMin == 0,
            overlay.bounds.uMax == 0x3f80_0000,
            overlay.bounds.vMax == 0x3f80_0000,
            overlay.transform is None,
            overlay.compositor is None,
            overlay.last_frame is None,
    {
        Overlay {
            key,
            name,
            alpha: ONE_BITS,
            width: ONE_BITS,
            visible: false,
            bounds: VRTextureBounds_t {
                uMin: ZERO_BITS,
                vMin: ZERO_BITS,
                uMax: ONE_BITS,
                vMax: ONE_BITS,
            },
            transform: None,
            compositor: None,
            last_frame: None,
        }
    }

    /// The layer that shows the frame of the overlay.
    pub fn layer(
        &self,
        rect: Rect2Di,
        swapchain: u64,
        current_origin: ETrackingUniverseOrigin,
    ) -> (layer: CompositionLayerQuad)
        ensures
            layer == self.spec_layer(rect, swapchain, current_origin),
            layer.width == self.width,
            layer.layer_flags == 2,
            layer.eye_visibility == EyeVisibility::Both,
            layer.sub_image.swapchain == swapchain,
            layer.sub_image.image_array_index == 0,
            layer.sub_image.image_rect == rect,
            self.transform matches Some((origin, matrix)) ==> layer.space == origin && layer.pose
                == LayerPose::Transform(matrix),
            self.transform is None ==> layer.space == current_origin && layer.pose
                == LayerPose::Fixed(
                (Posef {
                    position: Vector3f { x: 0, y: 0, z: 0xbf00_0000 },
                    orientation: Quaternionf { x: 0, y: 0, z: 0, w: 0x3f80_0000 },
                }),
            ),
    {
        let (space, pose) = match self.transform {
            Some((origin, transform)) => (origin, LayerPose::Transform(transform)),
            None => {
                let position = Vector3f { x: ZERO_BITS, y: ZERO_BITS, z: MINUS_HALF_BITS };
                let orientation = Quaternionf {
                    x: ZERO_BITS,
                    y: ZERO_BITS,
                    z: ZERO_BITS,
                    w: ONE_BITS,
                };
                (current_origin, LayerPose::Fixed(Posef { position, orientation }))
            },
        };
        CompositionLayerQuad {
            space,
            layer_flags: BLEND_TEXTURE_SOURCE_ALPHA,
            eye_visibility: EyeVisibility::Both,
            sub_image: SwapchainSubImage {
                swapchain,
                image_array_index: EVREye::Left.array_index(),
                image_rect: rect,
            },
            pose,
            width: self.width,
        }
    }
}

} // verus!
