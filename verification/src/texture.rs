//! Putting a texture onto an overlay.
//!
//! Drawing is done by a compositor, and the images to draw into belong to a
//! swapchain of the session. Neither is at hand here. So an upload is a
//! conversation: [`Overlay::set_texture`] says what is to be done next, its caller
//! does it, and comes back with the reply.
use crate::handle::lemma_canonical;
use crate::overlay::{corner_rect, FrameData, Overlay};
use crate::session::SessionData;
use crate::slots::{admitted, slots_with_swapchain, swapchain_of};
use crate::vr::{EColorSpace, ETextureType, Texture_t, VROverlayHandle_t, VRTextureBounds_t};
use crate::xr::{Extent2Di, Offset2Di, Rect2Di};
use vstd::prelude::*;

verus! {

/// What is to be done next in an upload.
#[derive(Clone, Copy, Debug, PartialEq, Eq, Structural)]
pub enum TextureStage {
    /// Nothing yet: the upload has not begun.
    Begin,
    /// Make a compositor for the texture.
    CreateCompositor,
    /// Make a swapchain for the texture, and give its images to the compositor.
    CreateSwapchain { compositor: u64, bounds: VRTextureBounds_t, color_space: EColorSpace },
    /// Acquire an image of the swapchain.
    AcquireImage { compositor: u64, swapchain: u64 },
    /// Wait, for as long as it takes, until the acquired image can be written.
    WaitImage { compositor: u64, swapchain: u64, image: u32 },
    /// Let the compositor draw the texture into the acquired image.
    CopyTexture {
        compositor: u64,
        swapchain: u64,
        image: u32,
        bounds: VRTextureBounds_t,
        alpha: u32,
    },
    /// Release the acquired image, into which a frame of the given size was drawn.
    ReleaseImage { swapchain: u64, extent: Extent2Di },
    /// Nothing more: the frame is ready to be shown.
    Done,
}

/// The reply to what was to be done.
#[derive(Clone, Copy, Debug, PartialEq, Eq, Structural)]
pub enum TextureReply {
    /// Begin the upload.
    Start,
    /// The compositor with this number was made.
    Compositor(u64),
    /// The swapchain with this number was made.
    Swapchain(u64),
    /// The image with this number was acquired.
    Image(u32),
    /// The image can be written.
    Ready,
    /// A frame of this size was drawn.
    Drawn(Extent2Di),
    /// The image was released.
    Released,
}

impl TextureStage {
    /// Whether a reply is one to this stage.
    pub open spec fn takes(self, reply: TextureReply) -> bool {
        match self {
            TextureStage::Begin => reply is Start,
            TextureStage::CreateCompositor => reply is Compositor,
            TextureStage::CreateSwapchain { .. } => reply is Swapchain,
            TextureStage::AcquireImage { .. } => reply is Image,
            TextureStage::WaitImage { .. } => reply is Ready,
            TextureStage::CopyTexture { .. } => reply is Drawn,
            TextureStage::ReleaseImage { .. } => reply is Released,
            TextureStage::Done => false,
        }
    }
}

/// An overlay in an upload, with the swapchains of the session.
pub struct TextureUpload {
    pub overlay: Overlay,
    pub swapchains: Map<int, (u32, u64)>,
    pub stage: TextureStage,
}

/// The stage that follows when the overlay has a compositor: a swapchain is made
/// where the session has none for the overlay.
pub open spec fn swapchain_stage(
    overlay: Overlay,
    swapchains: Map<int, (u32, u64)>,
    key: VROverlayHandle_t,
    texture: Texture_t,
    compositor: u64,
) -> TextureStage {
    match swapchain_of(swapchains, key) {
        Some(swapchain) => TextureStage::AcquireImage { compositor, swapchain },
        None => TextureStage::CreateSwapchain {
            compositor,
            bounds: overlay.bounds,
            color_space: texture.eColorSpace,
        },
    }
}

/// One step of an upload for the overlay with the handle `key`.
pub open spec fn texture_step(
    upload: TextureUpload,
    key: VROverlayHandle_t,
    texture: Texture_t,
    reply: TextureReply,
) -> TextureUpload {
    let overlay = upload.overlay;
    let swapchains = upload.swapchains;
    match (upload.stage, reply) {
        (TextureStage::Begin, _) => match overlay.compositor {
            Some(compositor) => TextureUpload {
                stage: swapchain_stage(overlay, swapchains, key, texture, compositor),
                ..upload
            },
            None => TextureUpload { stage: TextureStage::CreateCompositor, ..upload },
        },
        (TextureStage::CreateCompositor, TextureReply::Compositor(made)) => {
            let compositor = match overlay.compositor {
                Some(compositor) => compositor,
                None => made,
            };
            TextureUpload {
                overlay: Overlay { compositor: Some(compositor), ..overlay },
                stage: swapchain_stage(overlay, swapchains, key, texture, compositor),
                ..upload
            }
        },
        (TextureStage::CreateSwapchain { compositor, .. }, TextureReply::Swapchain(made)) => {
            let swapchain = match swapchain_of(swapchains, key) {
                Some(swapchain) => swapchain,
                None => made,
            };
            TextureUpload {
                swapchains: slots_with_swapchain(swapchains, key, made),
                stage: TextureStage::AcquireImage { compositor, swapchain },
                ..upload
            }
        },
        (TextureStage::AcquireImage { compositor, swapchain }, TextureReply::Image(image)) =>
            TextureUpload {
                stage: TextureStage::WaitImage { compositor, swapchain, image },
                ..upload
            },
        (TextureStage::WaitImage { compositor, swapchain, image }, _) => TextureUpload {
            stage: TextureStage::CopyTexture {
                compositor,
                swapchain,
                image,
                bounds: overlay.bounds,
                alpha: overlay.alpha,
            },
            ..upload
        },
        (TextureStage::CopyTexture { swapchain, .. }, TextureReply::Drawn(extent)) =>
            TextureUpload {
                stage: TextureStage::ReleaseImage { swapchain, extent },
                ..upload
            },
        (TextureStage::ReleaseImage { extent, .. }, _) => TextureUpload {
            overlay: Overlay {
                last_frame: Some(FrameData { rect: corner_rect(extent) }),
                ..overlay
            },
            stage: TextureStage::Done,
            ..upload
        },
        _ => upload,
    }
}

impl Overlay {
    /// Goes one step further in putting a texture onto this overlay, whose handle
    /// is `key`: takes the reply to the present stage, and gives the next stage.
    ///
    /// The texture has to be a Vulkan texture, and the session must not know a
    /// later overlay in the slot of this one.
    pub fn set_texture(
        &mut self,
        key: VROverlayHandle_t,
        session_data: &mut SessionData,
        texture: Texture_t,
        stage: TextureStage,
        reply: TextureReply,
    ) -> (next: TextureStage)
        requires
            texture.eType == ETextureType::Vulkan,
            admitted(old(session_data).overlay_data@, key),
            stage.takes(reply),
        ensures
            (TextureUpload {
                overlay: *final(self),
                swapchains: final(session_data).overlay_data@,
                stage: next,
            }) == texture_step(
                TextureUpload {
                    overlay: *old(self),
                    swapchains: old(session_data).overlay_data@,
                    stage,
                },
                key,
                texture,
                reply,
            ),
            final(session_data).current_origin == old(session_data).current_origin,
            final(self).key == old(self).key,
            final(self).name == old(self).name,
            final(self).alpha == old(self).alpha,
            final(self).width == old(self).width,
            final(self).visible == old(self).visible,
            final(self).bounds == old(self).bounds,
            final(self).transform == old(self).transform,
            old(self).compositor is Some ==> final(self).compositor == old(self).compositor,
            !(stage is ReleaseImage) ==> final(self).last_frame == old(self).last_frame,
            stage matches TextureStage::ReleaseImage { extent, .. } ==> final(self).last_frame
                == Some(
                (FrameData { rect: (Rect2Di { offset: (Offset2Di { x: 0, y: 0 }), extent }) }),
            ),
            next matches TextureStage::CreateSwapchain { compositor, bounds, color_space } ==> {
                &&& final(self).compositor == Some(compositor)
                &&& bounds == old(self).bounds
                &&& color_space == texture.eColorSpace
            },
            next matches TextureStage::CopyTexture { bounds, alpha, .. } ==> {
                &&& bounds == old(self).bounds
                &&& alpha == old(self).alpha
            },
            next matches TextureStage::AcquireImage { swapchain, .. } ==> swapchain_of(
                final(session_data).overlay_data@,
                key,
            ) == Some(swapchain),
    {
        proof {
            lemma_canonical(key);
        }
        match (stage, reply) {
            (TextureStage::Begin, _) => match self.compositor {
                Some(compositor) => self.choose_swapchain(key, session_data, texture, compositor),
                None => TextureStage::CreateCompositor,
            },
            (TextureStage::CreateCompositor, TextureReply::Compositor(made)) => {
                let compositor = match self.compositor {
                    Some(compositor) => compositor,
                    None => made,
                };
                self.compositor = Some(compositor);
                self.choose_swapchain(key, session_data, texture, compositor)
            },
            (TextureStage::CreateSwapchain { compositor, .. }, TextureReply::Swapchain(made)) => {
                match session_data.overlay_data.or_insert(key, made) {
                    Some(swapchain) => TextureStage::AcquireImage { compositor, swapchain },
                    None => stage,
                }
            },
            (TextureStage::AcquireImage { compositor, swapchain }, TextureReply::Image(image)) => {
                TextureStage::WaitImage { compositor, swapchain, image }
            },
            (TextureStage::WaitImage { compositor, swapchain, image }, _) => {
                TextureStage::CopyTexture {
                    compositor,
                    swapchain,
                    image,
                    bounds: self.bounds,
                    alpha: self.alpha,
                }
            },
            (TextureStage::CopyTexture { swapchain, .. }, TextureReply::Drawn(extent)) => {
                TextureStage::ReleaseImage { swapchain, extent }
            },
            (TextureStage::ReleaseImage { extent, .. }, _) => {
                let rect = Rect2Di { offset: Offset2Di { x: 0, y: 0 }, extent };
                self.last_frame = Some(FrameData { rect });
                TextureStage::Done
            },
            _ => stage,
        }
    }

    /// The stage that follows when the overlay has a compositor.
    fn choose_swapchain(
        &self,
        key: VROverlayHandle_t,
        session_data: &mut SessionData,
        texture: Texture_t,
        compositor: u64,
    ) -> (next: TextureStage)
        requires
            admitted(old(session_data).overlay_data@, key),
        ensures
            next == swapchain_stage(
                *self,
                old(session_data).overlay_data@,
                key,
                texture,
                compositor,
            ),
            final(session_data).overlay_data@ == old(session_data).overlay_data@,
            final(session_data).current_origin == old(session_data).current_origin,
            swapchain_of(old(session_data).overlay_data@, key) matches Some(swapchain) ==> next
                == (TextureStage::AcquireImage { compositor, swapchain }),
            swapchain_of(old(session_data).overlay_data@, key) is None ==> {
                &&& next matches TextureStage::CreateSwapchain {
                    compositor: asked,
                    bounds,
                    color_space,
                }
                &&& asked == compositor
                &&& bounds == self.bounds
                &&& color_space == texture.eColorSpace
            },
    {
        match session_data.overlay_data.entry(key) {
            Some(Some(swapchain)) => TextureStage::AcquireImage { compositor, swapchain },
            _ => TextureStage::CreateSwapchain {
                compositor,
                bounds: self.bounds,
                color_space: texture.eColorSpace,
            },
        }
    }
}

} // verus!
