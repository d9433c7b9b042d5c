use overlay::session::SessionData;
use overlay::texture::{TextureReply, TextureStage};
use overlay::vr::{
    EColorSpace, ETextureType, ETrackingUniverseOrigin, EVROverlayError, HmdMatrix34_t, Texture_t,
    VRTextureBounds_t,
};
use overlay::xr::{
    CompositionLayerQuad, Extent2Di, EyeVisibility, LayerPose, Offset2Di, Posef, Quaternionf,
    Rect2Di, SwapchainSubImage, Vector3f,
};
use overlay::OverlayMan;

const NO_ERROR: EVROverlayError = EVROverlayError::NoError;
const UNKNOWN: EVROverlayError = EVROverlayError::UnknownOverlay;
const INVALID: EVROverlayError = EVROverlayError::InvalidParameter;

fn create(man: &mut OverlayMan, key: &[u8]) -> u64 {
    let mut handle = 0;
    assert!(man.has_room());
    assert_eq!(man.CreateOverlay(key, b"name", Some(&mut handle)), NO_ERROR);
    handle
}

fn find(man: &OverlayMan, key: &[u8]) -> Option<u64> {
    let mut handle = 99;
    match man.FindOverlay(key, Some(&mut handle)) {
        EVROverlayError::NoError => Some(handle),
        error => {
            assert_eq!(error, UNKNOWN);
            assert_eq!(handle, 99);
            None
        }
    }
}

fn vulkan() -> Texture_t {
    Texture_t { eType: ETextureType::Vulkan, eColorSpace: EColorSpace::Auto }
}

fn upload(man: &mut OverlayMan, handle: u64, session: &mut SessionData, swapchain: u64) {
    let mut stage = TextureStage::Begin;
    while stage != TextureStage::Done {
        let reply = match stage {
            TextureStage::Begin => TextureReply::Start,
            TextureStage::CreateCompositor => TextureReply::Compositor(handle),
            TextureStage::CreateSwapchain { .. } => TextureReply::Swapchain(swapchain),
            TextureStage::AcquireImage { .. } => TextureReply::Image(0),
            TextureStage::WaitImage { .. } => TextureReply::Ready,
            TextureStage::CopyTexture { .. } => {
                TextureReply::Drawn(Extent2Di { width: 320, height: 200 })
            }
            _ => TextureReply::Released,
        };
        stage = man.SetOverlayTexture(handle, Some(vulkan()), session, stage, reply).unwrap();
    }
}

fn swapchains(layers: &[CompositionLayerQuad]) -> Vec<u64> {
    layers.iter().map(|layer| layer.sub_image.swapchain).collect()
}

fn standing() -> SessionData {
    SessionData::new(ETrackingUniverseOrigin::Standing)
}

#[test]
fn a_new_manager_is_empty() {
    let mut man = OverlayMan::new();
    assert!(man.has_room());
    assert!(!man.contains(0));
    assert!(!man.contains(0x1_0000_0001));
    assert_eq!(find(&man, b"key"), None);
    assert!(man.layers_ready(&standing()));
    assert_eq!(man.get_layers(&standing()), vec![]);
}

#[test]
fn a_created_overlay_is_found() {
    let mut man = OverlayMan::new();
    let one = create(&mut man, b"one");
    let two = create(&mut man, b"two");
    assert_eq!(one, 0x1_0000_0001);
    assert_eq!(two, 0x1_0000_0002);
    assert!(man.contains(one) && man.contains(two));
    assert_eq!(find(&man, b"one"), Some(one));
    assert_eq!(find(&man, b"two"), Some(two));
    assert_eq!(find(&man, b"tw"), None);
    assert_eq!(find(&man, b""), None);
}

#[test]
fn null_pointers_are_refused() {
    let mut man = OverlayMan::new();
    assert_eq!(man.CreateOverlay(b"key", b"name", None), INVALID);
    assert_eq!(find(&man, b"key"), None);
    let handle = create(&mut man, b"key");
    assert_eq!(handle, 0x1_0000_0001);
    assert_eq!(man.FindOverlay(b"key", None), INVALID);
    assert_eq!(man.FindOverlay(b"no such key", None), INVALID);
    assert_eq!(man.SetOverlayTextureBounds(handle, None), INVALID);
    let origin = ETrackingUniverseOrigin::Seated;
    assert_eq!(man.SetOverlayTransformAbsolute(handle, origin, None), INVALID);
    let mut session = standing();
    assert_eq!(
        man.SetOverlayTexture(
            handle,
            None,
            &mut session,
            TextureStage::Begin,
            TextureReply::Start,
        ),
        Err(INVALID)
    );
}

#[test]
fn unknown_handles_are_refused() {
    let mut man = OverlayMan::new();
    let handle = create(&mut man, b"key");
    for stranger in [0, handle + 1, 0x3_0000_0001, 0x1_0000_0000, u64::MAX] {
        assert!(!man.contains(stranger));
        assert_eq!(man.ShowOverlay(stranger), UNKNOWN);
        assert_eq!(man.HideOverlay(stranger), UNKNOWN);
        assert_eq!(man.SetOverlayAlpha(stranger, 0), UNKNOWN);
        assert_eq!(man.SetOverlayWidthInMeters(stranger, 0), UNKNOWN);
        assert_eq!(man.SetOverlayTextureBounds(stranger, None), UNKNOWN);
        let bounds = VRTextureBounds_t { uMin: 0, vMin: 0, uMax: 0, vMax: 0 };
        assert_eq!(man.SetOverlayTextureBounds(stranger, Some(&bounds)), UNKNOWN);
        let origin = ETrackingUniverseOrigin::Seated;
        let matrix = HmdMatrix34_t { m: [[0; 4]; 3] };
        assert_eq!(man.SetOverlayTransformAbsolute(stranger, origin, None), UNKNOWN);
        assert_eq!(man.SetOverlayTransformAbsolute(stranger, origin, Some(&matrix)), UNKNOWN);
        let mut session = standing();
        let start = TextureReply::Start;
        assert_eq!(
            man.SetOverlayTexture(stranger, None, &mut session, TextureStage::Begin, start),
            Err(UNKNOWN)
        );
        assert_eq!(
            man.SetOverlayTexture(
                stranger,
                Some(vulkan()),
                &mut session,
                TextureStage::Begin,
                start,
            ),
            Err(UNKNOWN)
        );
        assert_eq!(man.DestroyOverlay(stranger), NO_ERROR);
        assert!(man.contains(handle));
    }
}

#[test]
fn the_lowest_version_bit_of_a_handle_does_not_matter() {
    let mut man = OverlayMan::new();
    let handle = create(&mut man, b"key");
    assert_eq!(handle, 0x1_0000_0001);
    assert!(man.contains(1));
    assert_eq!(man.ShowOverlay(1), NO_ERROR);
    assert_eq!(man.DestroyOverlay(1), NO_ERROR);
    assert!(!man.contains(handle));
}

#[test]
fn a_second_overlay_takes_the_key_over() {
    let mut man = OverlayMan::new();
    let first = create(&mut man, b"key");
    let second = create(&mut man, b"key");
    assert_ne!(first, second);
    assert!(man.contains(first));
    assert_eq!(find(&man, b"key"), Some(second));
}

#[test]
fn destroying_either_overlay_drops_a_shared_key() {
    let mut man = OverlayMan::new();
    let first = create(&mut man, b"key");
    let second = create(&mut man, b"key");
    assert_eq!(man.DestroyOverlay(first), NO_ERROR);
    assert!(man.contains(second));
    assert_eq!(find(&man, b"key"), None);
}

#[test]
fn destroying_undoes_creating() {
    let mut man = OverlayMan::new();
    let kept = create(&mut man, b"kept");
    let gone = create(&mut man, b"gone");
    assert_eq!(man.DestroyOverlay(gone), NO_ERROR);
    assert!(!man.contains(gone));
    assert_eq!(find(&man, b"gone"), None);
    assert!(man.contains(kept));
    assert_eq!(find(&man, b"kept"), Some(kept));
    assert_eq!(man.DestroyOverlay(gone), NO_ERROR);
    assert_eq!(man.HideOverlay(gone), UNKNOWN);
    assert_eq!(man.HideOverlay(kept), NO_ERROR);
}

#[test]
fn a_destroyed_handle_is_not_given_out_again() {
    let mut man = OverlayMan::new();
    let mut seen = vec![];
    for _ in 0..50 {
        let handle = create(&mut man, b"key");
        assert!(!seen.contains(&handle));
        for old in &seen {
            assert!(!man.contains(*old));
        }
        seen.push(handle);
        man.DestroyOverlay(handle);
    }
    assert_eq!(seen[1], 0x3_0000_0001);
    assert_eq!(seen[2], 0x5_0000_0001);
}

#[test]
fn the_slot_that_became_free_last_is_used_first() {
    let mut man = OverlayMan::new();
    let one = create(&mut man, b"one");
    let two = create(&mut man, b"two");
    man.DestroyOverlay(one);
    man.DestroyOverlay(two);
    assert_eq!(create(&mut man, b"three"), 0x3_0000_0002);
    assert_eq!(create(&mut man, b"four"), 0x3_0000_0001);
    assert_eq!(create(&mut man, b"five"), 0x1_0000_0003);
}

#[test]
fn a_layer_shows_the_frame_of_a_visible_overlay() {
    let mut man = OverlayMan::new();
    let mut session = standing();
    let handle = create(&mut man, b"key");
    upload(&mut man, handle, &mut session, 70);
    man.SetOverlayWidthInMeters(handle, 2.5f32.to_bits());
    assert_eq!(man.ShowOverlay(handle), NO_ERROR);
    assert!(man.layers_ready(&session));
    let zero = 0.0f32.to_bits();
    let expected = CompositionLayerQuad {
        space: ETrackingUniverseOrigin::Standing,
        layer_flags: 2,
        eye_visibility: EyeVisibility::Both,
        sub_image: SwapchainSubImage {
            swapchain: 70,
            image_array_index: 0,
            image_rect: Rect2Di {
                offset: Offset2Di { x: 0, y: 0 },
                extent: Extent2Di { width: 320, height: 200 },
            },
        },
        pose: LayerPose::Fixed(Posef {
            position: Vector3f { x: zero, y: zero, z: (-0.5f32).to_bits() },
            orientation: Quaternionf { x: zero, y: zero, z: zero, w: 1.0f32.to_bits() },
        }),
        width: 2.5f32.to_bits(),
    };
    assert_eq!(man.get_layers(&session), vec![expected]);
}

#[test]
fn a_transform_gives_space_and_pose() {
    let mut man = OverlayMan::new();
    let mut session = standing();
    let handle = create(&mut man, b"key");
    let matrix = HmdMatrix34_t { m: [[1, 2, 3, 4], [5, 6, 7, 8], [9, 10, 11, 12]] };
    let origin = ETrackingUniverseOrigin::RawAndUncalibrated;
    assert_eq!(man.SetOverlayTransformAbsolute(handle, origin, Some(&matrix)), NO_ERROR);
    man.ShowOverlay(handle);
    upload(&mut man, handle, &mut session, 70);
    let layers = man.get_layers(&session);
    assert_eq!(layers.len(), 1);
    assert_eq!(layers[0].space, origin);
    assert_eq!(layers[0].pose, LayerPose::Transform(matrix));
}

#[test]
fn frames_are_handed_on_once() {
    let mut man = OverlayMan::new();
    let mut session = standing();
    let handle = create(&mut man, b"key");
    man.ShowOverlay(handle);
    upload(&mut man, handle, &mut session, 70);
    assert_eq!(man.get_layers(&session).len(), 1);
    assert_eq!(man.get_layers(&session).len(), 0);
    upload(&mut man, handle, &mut session, 71);
    assert_eq!(swapchains(&man.get_layers(&session)), vec![70]);
}

#[test]
fn a_hidden_overlay_keeps_its_frame() {
    let mut man = OverlayMan::new();
    let mut session = standing();
    let handle = create(&mut man, b"key");
    upload(&mut man, handle, &mut session, 70);
    assert_eq!(man.get_layers(&session).len(), 0);
    man.ShowOverlay(handle);
    man.HideOverlay(handle);
    assert_eq!(man.get_layers(&session).len(), 0);
    man.ShowOverlay(handle);
    assert_eq!(swapchains(&man.get_layers(&session)), vec![70]);
}

#[test]
fn layers_come_in_the_order_of_the_slots() {
    let mut man = OverlayMan::new();
    let mut session = standing();
    let one = create(&mut man, b"one");
    let two = create(&mut man, b"two");
    let three = create(&mut man, b"three");
    man.DestroyOverlay(one);
    let four = create(&mut man, b"four");
    for (handle, swapchain) in [(three, 30), (two, 20), (four, 40)] {
        upload(&mut man, handle, &mut session, swapchain);
        man.ShowOverlay(handle);
    }
    assert_eq!(swapchains(&man.get_layers(&session)), vec![40, 20, 30]);
}

#[test]
fn a_new_overlay_adds_no_layer() {
    let mut man = OverlayMan::new();
    let mut session = standing();
    let one = create(&mut man, b"one");
    man.ShowOverlay(one);
    upload(&mut man, one, &mut session, 10);
    let two = create(&mut man, b"two");
    man.ShowOverlay(two);
    assert_eq!(swapchains(&man.get_layers(&session)), vec![10]);
}

#[test]
fn the_later_setting_counts() {
    let mut man = OverlayMan::new();
    let mut session = standing();
    let one = create(&mut man, b"one");
    let two = create(&mut man, b"two");
    for handle in [one, two] {
        man.ShowOverlay(handle);
        upload(&mut man, handle, &mut session, handle);
    }
    assert_eq!(man.SetOverlayWidthInMeters(one, 5), NO_ERROR);
    assert_eq!(man.SetOverlayWidthInMeters(two, 6), NO_ERROR);
    assert_eq!(man.SetOverlayWidthInMeters(one, 7), NO_ERROR);
    let layers = man.get_layers(&session);
    assert_eq!(layers[0].width, 7);
    assert_eq!(layers[1].width, 6);
}

#[test]
fn alpha_and_bounds_go_into_the_upload() {
    let mut man = OverlayMan::new();
    let mut session = standing();
    let handle = create(&mut man, b"key");
    let part = VRTextureBounds_t { uMin: 1, vMin: 2, uMax: 3, vMax: 4 };
    assert_eq!(man.SetOverlayAlpha(handle, 9), NO_ERROR);
    assert_eq!(man.SetOverlayTextureBounds(handle, Some(&part)), NO_ERROR);
    let stage = TextureStage::WaitImage { compositor: 7, swapchain: 70, image: 1 };
    assert_eq!(
        man.SetOverlayTexture(
            handle,
            Some(vulkan()),
            &mut session,
            stage,
            TextureReply::Ready,
        ),
        Ok(TextureStage::CopyTexture {
            compositor: 7,
            swapchain: 70,
            image: 1,
            bounds: part,
            alpha: 9,
        })
    );
}

#[test]
fn frames_of_another_session_are_not_ready() {
    let mut man = OverlayMan::new();
    let mut session = standing();
    let handle = create(&mut man, b"key");
    man.ShowOverlay(handle);
    upload(&mut man, handle, &mut session, 70);
    assert!(man.layers_ready(&session));
    assert!(!man.layers_ready(&standing()));
    man.HideOverlay(handle);
    assert!(man.layers_ready(&standing()));
}

#[test]
fn a_slot_that_is_used_again_gets_its_own_swapchain() {
    let mut man = OverlayMan::new();
    let mut session = standing();
    let old = create(&mut man, b"old");
    upload(&mut man, old, &mut session, 70);
    man.DestroyOverlay(old);
    let new = create(&mut man, b"new");
    assert_eq!(session.overlay_data.swapchain(new), None);
    man.ShowOverlay(new);
    upload(&mut man, new, &mut session, 80);
    assert_eq!(session.overlay_data.swapchain(old), None);
    assert_eq!(swapchains(&man.get_layers(&session)), vec![80]);
}

#[test]
fn requests_without_effect_are_accepted() {
    let man = OverlayMan::new();
    assert!(!man.IsDashboardVisible());
    assert_eq!(man.SetOverlayTransformTrackedDeviceRelative(5, 0, None), NO_ERROR);
    assert_eq!(man.SetOverlaySortOrder(5, 1), NO_ERROR);
    assert_eq!(man.SetOverlayTexelAspect(5, 1), NO_ERROR);
}
