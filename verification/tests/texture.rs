use overlay::overlay::{FrameData, Overlay};
use overlay::session::SessionData;
use overlay::texture::{TextureReply, TextureStage};
use overlay::vr::{
    EColorSpace, ETextureType, ETrackingUniverseOrigin, Texture_t, VRTextureBounds_t,
};
use overlay::xr::{Extent2Di, Offset2Di, Rect2Di};

const KEY: u64 = 0x1_0000_0001;
const LATER_KEY: u64 = 0x3_0000_0001;
const ONE: u32 = 0x3f80_0000;

fn texture() -> Texture_t {
    Texture_t { eType: ETextureType::Vulkan, eColorSpace: EColorSpace::Gamma }
}

fn whole() -> VRTextureBounds_t {
    VRTextureBounds_t { uMin: 0, vMin: 0, uMax: ONE, vMax: ONE }
}

fn overlay() -> Overlay {
    Overlay::new(b"key".to_vec(), b"name".to_vec())
}

fn reply_to(stage: TextureStage, compositor: u64, swapchain: u64) -> TextureReply {
    match stage {
        TextureStage::Begin => TextureReply::Start,
        TextureStage::CreateCompositor => TextureReply::Compositor(compositor),
        TextureStage::CreateSwapchain { .. } => TextureReply::Swapchain(swapchain),
        TextureStage::AcquireImage { .. } => TextureReply::Image(2),
        TextureStage::WaitImage { .. } => TextureReply::Ready,
        TextureStage::CopyTexture { .. } => {
            TextureReply::Drawn(Extent2Di { width: 640, height: 480 })
        }
        _ => TextureReply::Released,
    }
}

fn upload(
    overlay: &mut Overlay,
    key: u64,
    session: &mut SessionData,
    compositor: u64,
    swapchain: u64,
) -> Vec<TextureStage> {
    let mut stages = vec![];
    let mut stage = TextureStage::Begin;
    while stage != TextureStage::Done {
        let reply = reply_to(stage, compositor, swapchain);
        stage = overlay.set_texture(key, session, texture(), stage, reply);
        stages.push(stage);
    }
    stages
}

#[test]
fn a_new_overlay_has_its_defaults() {
    let overlay = overlay();
    assert_eq!(overlay.key, b"key".to_vec());
    assert_eq!(overlay.name, b"name".to_vec());
    assert_eq!(overlay.alpha, 1.0f32.to_bits());
    assert_eq!(overlay.width, 1.0f32.to_bits());
    assert!(!overlay.visible);
    assert_eq!(overlay.bounds, whole());
    assert_eq!(overlay.transform, None);
    assert_eq!(overlay.compositor, None);
    assert_eq!(overlay.last_frame, None);
}

#[test]
fn the_first_upload_makes_compositor_and_swapchain() {
    let mut overlay = overlay();
    let mut session = SessionData::new(ETrackingUniverseOrigin::Seated);
    let stages = upload(&mut overlay, KEY, &mut session, 7, 70);
    assert_eq!(
        stages,
        vec![
            TextureStage::CreateCompositor,
            TextureStage::CreateSwapchain {
                compositor: 7,
                bounds: whole(),
                color_space: EColorSpace::Gamma,
            },
            TextureStage::AcquireImage { compositor: 7, swapchain: 70 },
            TextureStage::WaitImage { compositor: 7, swapchain: 70, image: 2 },
            TextureStage::CopyTexture {
                compositor: 7,
                swapchain: 70,
                image: 2,
                bounds: whole(),
                alpha: ONE,
            },
            TextureStage::ReleaseImage {
                swapchain: 70,
                extent: Extent2Di { width: 640, height: 480 },
            },
            TextureStage::Done,
        ]
    );
    assert_eq!(overlay.compositor, Some(7));
    assert_eq!(session.overlay_data.swapchain(KEY), Some(70));
    assert_eq!(
        overlay.last_frame,
        Some(FrameData {
            rect: Rect2Di {
                offset: Offset2Di { x: 0, y: 0 },
                extent: Extent2Di { width: 640, height: 480 },
            },
        })
    );
}

#[test]
fn a_later_upload_uses_what_is_there() {
    let mut overlay = overlay();
    let mut session = SessionData::new(ETrackingUniverseOrigin::Seated);
    upload(&mut overlay, KEY, &mut session, 7, 70);
    let stages = upload(&mut overlay, KEY, &mut session, 8, 80);
    assert_eq!(stages.len(), 5);
    assert_eq!(stages[0], TextureStage::AcquireImage { compositor: 7, swapchain: 70 });
    assert_eq!(overlay.compositor, Some(7));
    assert_eq!(session.overlay_data.swapchain(KEY), Some(70));
}

#[test]
fn a_new_session_needs_a_new_swapchain() {
    let mut overlay = overlay();
    let mut first = SessionData::new(ETrackingUniverseOrigin::Seated);
    upload(&mut overlay, KEY, &mut first, 7, 70);
    let mut second = SessionData::new(ETrackingUniverseOrigin::Seated);
    let stages = upload(&mut overlay, KEY, &mut second, 8, 80);
    assert_eq!(
        stages[0],
        TextureStage::CreateSwapchain {
            compositor: 7,
            bounds: whole(),
            color_space: EColorSpace::Gamma,
        }
    );
    assert_eq!(second.overlay_data.swapchain(KEY), Some(80));
    assert_eq!(first.overlay_data.swapchain(KEY), Some(70));
}

#[test]
fn a_later_overlay_takes_the_slot_over() {
    let mut session = SessionData::new(ETrackingUniverseOrigin::Seated);
    upload(&mut overlay(), KEY, &mut session, 7, 70);
    assert_eq!(session.overlay_data.entry(LATER_KEY), Some(None));
    upload(&mut overlay(), LATER_KEY, &mut session, 8, 80);
    assert_eq!(session.overlay_data.swapchain(LATER_KEY), Some(80));
    assert_eq!(session.overlay_data.swapchain(KEY), None);
    assert_eq!(session.overlay_data.entry(KEY), None);
    assert_eq!(session.overlay_data.entry(LATER_KEY), Some(Some(80)));
}

#[test]
fn bounds_and_alpha_are_those_of_the_overlay() {
    let mut overlay = overlay();
    let part = VRTextureBounds_t { uMin: 1, vMin: 2, uMax: 3, vMax: 4 };
    overlay.bounds = part;
    overlay.alpha = 0.25f32.to_bits();
    let mut session = SessionData::new(ETrackingUniverseOrigin::Seated);
    let stages = upload(&mut overlay, KEY, &mut session, 7, 70);
    assert_eq!(
        stages[4],
        TextureStage::CopyTexture {
            compositor: 7,
            swapchain: 70,
            image: 2,
            bounds: part,
            alpha: 0.25f32.to_bits(),
        }
    );
}
