//! What each request does to an overlay, setting by setting.
//!
//! Where the laws in [`laws`](crate::laws) relate whole states, those here say of
//! every single setting what becomes of it, and of every single part of a layer or
//! of a stage of an upload where it comes from.
use crate::handle::{canonical, lemma_canonical, make_handle, slot_index, slot_version};
use crate::laws::{law_creating_keeps_the_others, law_shown_handles_are_the_visible_ones};
use crate::manager::{answer, answer_with};
use crate::overlay::{FrameData, Overlay};
use crate::slots::{slots_with_swapchain, swapchain_of, versions};
use crate::table::{lemma_created_wf, OverlayTable};
use crate::texture::{texture_step, TextureReply, TextureStage, TextureUpload};
use crate::vr::{
    ETrackingUniverseOrigin, EVREye, EVROverlayError, HmdMatrix34_t, Texture_t, VROverlayHandle_t,
    VRTextureBounds_t,
};
use crate::xr::{
    Extent2Di, EyeVisibility, LayerPose, Offset2Di, Posef, Quaternionf, Rect2Di, Vector3f,
};
use vstd::prelude::*;

verus! {

// Making and finding overlays.

/// An overlay that is made for a key and a name has just this key and this name, and
/// the key, byte for byte, leads to the handle that was given out. It is opaque, one
/// meter wide and hidden, shows the whole of its texture, and has neither a place
/// nor a compositor nor a frame.
pub proof fn law_created_overlay_has_key_name_and_defaults(
    table: OverlayTable,
    overlay: Overlay,
    key: Seq<u8>,
    name: Seq<u8>,
)
    requires
        table.wf(),
        table.has_room(),
        overlay.is_new(key, name),
    ensures
        ({
            let handle = table.next_handle();
            let after = table.created(overlay);
            let made = after.overlay(handle);
            &&& after.contains(handle)
            &&& after.by_key.contains_key(key)
            &&& after.by_key[key] == handle
            &&& after.find(key) == Some(handle)
            &&& made.key@ == key
            &&& made.name@ == name
            &&& made.alpha == 0x3f80_0000
            &&& made.width == 0x3f80_0000
            &&& !made.visible
            &&& made.bounds.uMin == 0
            &&& made.bounds.vMin == 0
            &&& made.bounds.uMax == 0x3f80_0000
            &&& made.bounds.vMax == 0x3f80_0000
            &&& made.transform is None
            &&& made.compositor is None
            &&& made.last_frame is None
        }),
{
    lemma_created_wf(table, overlay);
}

/// At first there is no overlay and no key, and the first overlay gets the first slot
/// in its first version.
pub proof fn law_at_first_there_is_nothing(handle: VROverlayHandle_t, key: Seq<u8>)
    ensures
        !OverlayTable::empty().contains(handle),
        OverlayTable::empty().find(key) is None,
        OverlayTable::empty().has_room(),
        OverlayTable::empty().next_handle() == 0x1_0000_0001,
{
    lemma_canonical(handle);
}

/// An overlay is made in the slot that became free last, in the version after the one
/// that the slot has, or where no slot is free, in a new slot behind the others.
pub proof fn law_free_slots_are_used_first(table: OverlayTable, overlay: Overlay)
    requires
        table.wf(),
        table.has_room(),
    ensures
        ({
            let after = table.created(overlay);
            let handle = table.next_handle();
            &&& table.free.len() > 0 ==> {
                &&& slot_index(handle) == table.free.last()
                &&& slot_version(handle) == table.slots[table.free.last() as int].version + 1
                &&& after.slots.len() == table.slots.len()
                &&& after.free == table.free.drop_last()
            }
            &&& table.free.len() == 0 ==> {
                &&& handle == make_handle(table.slots.len() as int, 1)
                &&& after.slots.len() == table.slots.len() + 1
                &&& after.free == table.free
            }
        }),
{
    lemma_created_wf(table, overlay);
    if table.free.len() > 0 {
        assert(table.free[table.free.len() - 1] == table.free.last());
    }
}

/// Making an overlay for one key changes nothing in what other keys lead to.
pub proof fn law_creating_keeps_other_keys(
    table: OverlayTable,
    overlay: Overlay,
    key: Seq<u8>,
    name: Seq<u8>,
    other: Seq<u8>,
)
    requires
        table.wf(),
        table.has_room(),
        overlay.is_new(key, name),
        other != key,
    ensures
        table.created(overlay).find(other) == table.find(other),
{
    law_creating_keeps_the_others(table, overlay, table.next_handle(), other);
}

/// What is found for a key is what the key leads to, and nothing is found for a key
/// that leads nowhere. Two keys that lead to the same overlay are the same.
pub proof fn law_finding_goes_by_the_key(table: OverlayTable, key: Seq<u8>, other: Seq<u8>)
    requires
        table.wf(),
    ensures
        table.find(key) is None <==> !table.by_key.contains_key(key),
        table.find(key) is Some ==> {
            &&& table.find(key)->0 == table.by_key[key]
            &&& table.contains(table.find(key)->0)
            &&& table.overlay(table.find(key)->0).key@ == key
        },
        table.find(key) is Some && table.find(key) == table.find(other) ==> key == other,
{
}

/// After an overlay is destroyed, its key is not found, every other key is found as
/// before, its slot is the one that is used next, and the next overlay in it gets
/// the version after the next one.
pub proof fn law_destroying_frees_key_and_slot(
    table: OverlayTable,
    handle: VROverlayHandle_t,
    other: Seq<u8>,
)
    requires
        table.wf(),
        table.contains(handle),
    ensures
        ({
            let after = table.destroyed(handle);
            &&& after.find(table.overlay(handle).key@) is None
            &&& other != table.overlay(handle).key@ ==> after.find(other) == table.find(other)
            &&& after.has_room()
            &&& slot_version(handle) != u32::MAX ==> after.next_handle() == make_handle(
                slot_index(handle),
                slot_version(handle) + 2,
            )
            &&& slot_version(handle) == u32::MAX ==> after.next_handle() == make_handle(
                slot_index(handle),
                1,
            )
            &&& after.slots.len() == table.slots.len()
        }),
{
    lemma_canonical(handle);
}

/// To destroy what is not there changes nothing.
pub proof fn law_destroying_the_unknown_changes_nothing(
    table: OverlayTable,
    handle: VROverlayHandle_t,
)
    requires
        !table.contains(handle),
    ensures
        table.destroyed(handle) == table,
{
}

/// A handle is made of the number of a slot in its lower half and a version in its
/// upper half, and it is known just as long as that slot is in that version; the
/// lowest bit of the version is taken as set.
pub proof fn law_handle_is_slot_and_version(table: OverlayTable, handle: VROverlayHandle_t)
    ensures
        slot_index(handle) == handle as int % 0x1_0000_0000,
        slot_version(handle) == (handle as int / 0x1_0000_0000) || slot_version(handle) == (
        handle as int / 0x1_0000_0000) + 1,
        slot_version(handle) % 2 == 1,
        canonical(handle) as int == slot_version(handle) * 0x1_0000_0000 + slot_index(handle),
        table.contains(handle) <==> (slot_index(handle) < table.slots.len() && table.slots[
            slot_index(handle)
        ].version as int == slot_version(handle)),
        table.contains(handle) ==> table.slots[slot_index(handle)].overlay is Some
            ==> table.slots[slot_index(handle)].overlay == Some(table.overlay(handle)),
{
    lemma_canonical(handle);
}

// Answers.

/// A request for an overlay is carried out just where the overlay is known, and where
/// a pointer comes with it, just where it is not null as well. An unknown overlay is
/// reported before a null pointer is.
pub proof fn law_answers(table: OverlayTable, handle: VROverlayHandle_t, given: bool)
    ensures
        answer(table, handle) == EVROverlayError::NoError <==> table.contains(handle),
        answer(table, handle) == EVROverlayError::UnknownOverlay <==> !table.contains(handle),
        answer_with(table, handle, given) == EVROverlayError::NoError <==> table.contains(handle)
            && given,
        answer_with(table, handle, given) == EVROverlayError::InvalidParameter
            <==> table.contains(handle) && !given,
        answer_with(table, handle, given) == EVROverlayError::UnknownOverlay <==> !table.contains(
            handle,
        ),
{
}

// Settings.

/// Letting an overlay be shown, or no more, sets its visibility and nothing else, on
/// this overlay and no other.
pub proof fn law_visibility_is_set_alone(
    table: OverlayTable,
    handle: VROverlayHandle_t,
    visible: bool,
    other: VROverlayHandle_t,
)
    requires
        table.wf(),
    ensures
        ({
            let after = table.with_visible(handle, visible);
            let before = table.overlay(handle);
            let now = after.overlay(handle);
            &&& after.contains(other) == table.contains(other)
            &&& table.contains(handle) ==> {
                &&& now.visible == visible
                &&& now.key == before.key
                &&& now.name == before.name
                &&& now.alpha == before.alpha
                &&& now.width == before.width
                &&& now.bounds == before.bounds
                &&& now.transform == before.transform
                &&& now.compositor == before.compositor
                &&& now.last_frame == before.last_frame
            }
            &&& table.contains(other) && canonical(other) != canonical(handle)
                ==> after.overlay(other) == table.overlay(other)
            &&& !table.contains(handle) ==> after == table
            &&& after.by_key == table.by_key
            &&& after.free == table.free
            &&& after.slots.len() == table.slots.len()
        }),
{
    lemma_canonical(handle);
    lemma_canonical(other);
}

/// Setting the opacity of an overlay sets nothing else, on this overlay and no other.
pub proof fn law_alpha_is_set_alone(
    table: OverlayTable,
    handle: VROverlayHandle_t,
    alpha: u32,
    other: VROverlayHandle_t,
)
    requires
        table.wf(),
    ensures
        ({
            let after = table.with_alpha(handle, alpha);
            let before = table.overlay(handle);
            let now = after.overlay(handle);
            &&& after.contains(other) == table.contains(other)
            &&& table.contains(handle) ==> {
                &&& now.alpha == alpha
                &&& now.key == before.key
                &&& now.name == before.name
                &&& now.width == before.width
                &&& now.visible == before.visible
                &&& now.bounds == before.bounds
                &&& now.transform == before.transform
                &&& now.compositor == before.compositor
                &&& now.last_frame == before.last_frame
            }
            &&& table.contains(other) && canonical(other) != canonical(handle)
                ==> after.overlay(other) == table.overlay(other)
            &&& !table.contains(handle) ==> after == table
            &&& after.by_key == table.by_key
            &&& after.free == table.free
            &&& after.slots.len() == table.slots.len()
        }),
{
    lemma_canonical(handle);
    lemma_canonical(other);
}

/// Setting the width of an overlay sets nothing else, on this overlay and no other.
pub proof fn law_width_is_set_alone(
    table: OverlayTable,
    handle: VROverlayHandle_t,
    width: u32,
    other: VROverlayHandle_t,
)
    requires
        table.wf(),
    ensures
        ({
            let after = table.with_width(handle, width);
            let before = table.overlay(handle);
            let now = after.overlay(handle);
            &&& after.contains(other) == table.contains(other)
            &&& table.contains(handle) ==> {
                &&& now.width == width
                &&& now.key == before.key
                &&& now.name == before.name
                &&& now.alpha == before.alpha
                &&& now.visible == before.visible
                &&& now.bounds == before.bounds
                &&& now.transform == before.transform
                &&& now.compositor == before.compositor
                &&& now.last_frame == before.last_frame
            }
            &&& table.contains(other) && canonical(other) != canonical(handle)
                ==> after.overlay(other) == table.overlay(other)
            &&& !table.contains(handle) ==> after == table
            &&& after.by_key == table.by_key
            &&& after.free == table.free
            &&& after.slots.len() == table.slots.len()
        }),
{
    lemma_canonical(handle);
    lemma_canonical(other);
}

/// Setting the texture bounds of an overlay sets nothing else, on this overlay and no
/// other.
pub proof fn law_bounds_are_set_alone(
    table: OverlayTable,
    handle: VROverlayHandle_t,
    bounds: VRTextureBounds_t,
    other: VROverlayHandle_t,
)
    requires
        table.wf(),
    ensures
        ({
            let after = table.with_bounds(handle, bounds);
            let before = table.overlay(handle);
            let now = after.overlay(handle);
            &&& after.contains(other) == table.contains(other)
            &&& table.contains(handle) ==> {
                &&& now.bounds == bounds
                &&& now.key == before.key
                &&& now.name == before.name
                &&& now.alpha == before.alpha
                &&& now.width == before.width
                &&& now.visible == before.visible
                &&& now.transform == before.transform
                &&& now.compositor == before.compositor
                &&& now.last_frame == before.last_frame
            }
            &&& table.contains(other) && canonical(other) != canonical(handle)
                ==> after.overlay(other) == table.overlay(other)
            &&& !table.contains(handle) ==> after == table
            &&& after.by_key == table.by_key
            &&& after.free == table.free
            &&& after.slots.len() == table.slots.len()
        }),
{
    lemma_canonical(handle);
    lemma_canonical(other);
}

/// Saying where an overlay stands sets its origin and its transform and nothing else,
/// on this overlay and no other.
pub proof fn law_transform_is_set_alone(
    table: OverlayTable,
    handle: VROverlayHandle_t,
    origin: ETrackingUniverseOrigin,
    matrix: HmdMatrix34_t,
    other: VROverlayHandle_t,
)
    requires
        table.wf(),
    ensures
        ({
            let after = table.with_transform(handle, origin, matrix);
            let before = table.overlay(handle);
            let now = after.overlay(handle);
            &&& after.contains(other) == table.contains(other)
            &&& table.contains(handle) ==> {
                &&& now.transform == Some((origin, matrix))
                &&& now.key == before.key
                &&& now.name == before.name
                &&& now.alpha == before.alpha
                &&& now.width == before.width
                &&& now.visible == before.visible
                &&& now.bounds == before.bounds
                &&& now.compositor == before.compositor
                &&& now.last_frame == before.last_frame
            }
            &&& table.contains(other) && canonical(other) != canonical(handle)
                ==> after.overlay(other) == table.overlay(other)
            &&& !table.contains(handle) ==> after == table
            &&& after.by_key == table.by_key
            &&& after.free == table.free
            &&& after.slots.len() == table.slots.len()
        }),
{
    lemma_canonical(handle);
    lemma_canonical(other);
}

// Layers.

/// Handing the frames on takes the frame of every visible overlay, and leaves every
/// other setting of every overlay, visible or not, as it was. Handles, keys and free
/// slots stay what they were.
pub proof fn law_handing_on_takes_frames_alone(table: OverlayTable, handle: VROverlayHandle_t)
    requires
        table.wf(),
    ensures
        ({
            let after = table.frames_taken();
            let before = table.overlay(handle);
            let now = after.overlay(handle);
            &&& after.contains(handle) == table.contains(handle)
            &&& table.contains(handle) ==> {
                &&& now.key == before.key
                &&& now.name == before.name
                &&& now.alpha == before.alpha
                &&& now.width == before.width
                &&& now.visible == before.visible
                &&& now.bounds == before.bounds
                &&& now.transform == before.transform
                &&& now.compositor == before.compositor
                &&& before.visible ==> now.last_frame is None
                &&& !before.visible ==> now.last_frame == before.last_frame
            }
            &&& after.by_key == table.by_key
            &&& after.free == table.free
            &&& after.slots.len() == table.slots.len()
            &&& versions(after.slots) == versions(table.slots)
        }),
{
    lemma_canonical(handle);
    assert(versions(table.frames_taken().slots) =~= versions(table.slots));
}

/// There is one layer for every overlay that is visible and has a frame. It has the
/// width of the overlay, shows the rectangle of the frame from the swapchain that the
/// session keeps for the overlay, from the first image of the array, to both eyes,
/// blended by the alpha channel. It stands where the transform of the overlay says,
/// in the space of the origin that came with the transform; without a transform, half
/// a meter ahead in the space of the current origin.
pub proof fn law_layer_parts(
    table: OverlayTable,
    swapchains: Map<int, (u32, u64)>,
    current_origin: ETrackingUniverseOrigin,
    j: int,
)
    requires
        table.wf(),
        table.layers_ready(swapchains),
        0 <= j < table.shown_handles().len(),
    ensures
        ({
            let handle = table.shown_handles()[j];
            let overlay = table.overlay(handle);
            let layers = table.layers(swapchains, current_origin);
            let layer = layers[j];
            &&& layers.len() == table.shown_handles().len()
            &&& table.contains(handle)
            &&& canonical(handle) == handle
            &&& overlay.visible
            &&& overlay.last_frame is Some
            &&& layer.width == overlay.width
            &&& layer.layer_flags == 2
            &&& layer.eye_visibility == EyeVisibility::Both
            &&& layer.sub_image.image_array_index == 0
            &&& layer.sub_image.image_rect == overlay.last_frame->0.rect
            &&& swapchain_of(swapchains, handle) == Some(layer.sub_image.swapchain)
            &&& overlay.transform matches Some((origin, matrix)) ==> {
                &&& layer.space == origin
                &&& layer.pose == LayerPose::Transform(matrix)
            }
            &&& overlay.transform is None ==> {
                &&& layer.space == current_origin
                &&& layer.pose == LayerPose::Fixed(
                    Posef {
                        position: Vector3f { x: 0, y: 0, z: 0xbf00_0000 },
                        orientation: Quaternionf { x: 0, y: 0, z: 0, w: 0x3f80_0000 },
                    },
                )
            }
        }),
{
    let handle = table.shown_handles()[j];
    assert(table.shown_handles().contains(handle));
    law_shown_handles_are_the_visible_ones(table, handle);
}

/// Every overlay that is visible and has a frame is among those that get a layer, and
/// at one place only.
pub proof fn law_every_visible_frame_gets_one_layer(
    table: OverlayTable,
    handle: VROverlayHandle_t,
    swapchains: Map<int, (u32, u64)>,
    current_origin: ETrackingUniverseOrigin,
) -> (j: int)
    requires
        table.wf(),
        table.contains(handle),
        table.overlay(handle).visible,
        table.overlay(handle).last_frame is Some,
    ensures
        0 <= j < table.shown_handles().len(),
        j < table.layers(swapchains, current_origin).len(),
        table.shown_handles()[j] == canonical(handle),
        forall|k: int|
            0 <= k < table.shown_handles().len() && k != j ==> #[trigger] table.shown_handles()[k]
                != canonical(handle),
{
    lemma_canonical(handle);
    law_shown_handles_are_the_visible_ones(table, canonical(handle));
    let shown = table.shown_handles();
    let j = choose|j: int| 0 <= j < shown.len() && shown[j] == canonical(handle);
    assert forall|k: int| 0 <= k < shown.len() && k != j implies #[trigger] shown[k] != canonical(
        handle,
    ) by {
        if k < j {
            assert(slot_index(shown[k]) < slot_index(shown[j]));
        } else {
            assert(slot_index(shown[j]) < slot_index(shown[k]));
        }
    }
    j
}

/// The frames can be handed on just where every overlay that is visible and has a
/// frame has a swapchain in the session; what is hidden or has no frame needs none.
pub proof fn law_ready_when_every_visible_frame_has_a_swapchain(
    table: OverlayTable,
    swapchains: Map<int, (u32, u64)>,
)
    ensures
        table.layers_ready(swapchains) <==> (forall|handle: VROverlayHandle_t| #[trigger]
            table.contains(handle) ==> !table.overlay(handle).visible || table.overlay(
                handle,
            ).last_frame is None || swapchain_of(swapchains, handle) is Some),
{
}

/// The two eyes have the first two images of an array.
pub proof fn law_eyes_have_their_images()
    ensures
        EVREye::Left.spec_array_index() == 0,
        EVREye::Right.spec_array_index() == 1,
{
}

// Uploads.

/// Every stage but the last takes every reply of its kind, and no other.
pub proof fn law_stages_take_their_replies(
    compositor: u64,
    swapchain: u64,
    image: u32,
    extent: Extent2Di,
    stage: TextureStage,
    reply: TextureReply,
)
    ensures
        stage is Begin ==> stage.takes(TextureReply::Start),
        stage is CreateCompositor ==> stage.takes(TextureReply::Compositor(compositor)),
        stage is CreateSwapchain ==> stage.takes(TextureReply::Swapchain(swapchain)),
        stage is AcquireImage ==> stage.takes(TextureReply::Image(image)),
        stage is WaitImage ==> stage.takes(TextureReply::Ready),
        stage is CopyTexture ==> stage.takes(TextureReply::Drawn(extent)),
        stage is ReleaseImage ==> stage.takes(TextureReply::Released),
        stage is Done ==> !stage.takes(reply),
        stage.takes(reply) ==> {
            &&& reply is Start ==> stage is Begin
            &&& reply is Compositor ==> stage is CreateCompositor
            &&& reply is Swapchain ==> stage is CreateSwapchain
            &&& reply is Image ==> stage is AcquireImage
            &&& reply is Ready ==> stage is WaitImage
            &&& reply is Drawn ==> stage is CopyTexture
            &&& reply is Released ==> stage is ReleaseImage
        },
{
}

/// No step of an upload touches what clients have set on the overlay. A compositor is
/// kept once there is one, and comes with the reply that one was made; a frame comes
/// with the release of the image, has the size that was drawn, and lies in the corner
/// of the image.
pub proof fn law_step_keeps_what_clients_set(
    upload: TextureUpload,
    key: VROverlayHandle_t,
    texture: Texture_t,
    reply: TextureReply,
)
    requires
        upload.stage.takes(reply),
    ensures
        ({
            let before = upload.overlay;
            let now = texture_step(upload, key, texture, reply).overlay;
            &&& now.key == before.key
            &&& now.name == before.name
            &&& now.alpha == before.alpha
            &&& now.width == before.width
            &&& now.visible == before.visible
            &&& now.bounds == before.bounds
            &&& now.transform == before.transform
            &&& before.compositor is Some ==> now.compositor == before.compositor
            &&& before.compositor is None ==> match reply {
                TextureReply::Compositor(made) => now.compositor == Some(made),
                _ => now.compositor is None,
            }
            &&& match upload.stage {
                TextureStage::ReleaseImage { extent, .. } => now.last_frame == Some(
                    FrameData { rect: Rect2Di { offset: Offset2Di { x: 0, y: 0 }, extent } },
                ),
                _ => now.last_frame == before.last_frame,
            }
        }),
{
}

/// A step of an upload changes the swapchains of the session only by keeping the one
/// that was made for the overlay where it had none. No other slot is touched, and a
/// swapchain that the overlay has stays.
pub proof fn law_step_keeps_other_swapchains(
    upload: TextureUpload,
    key: VROverlayHandle_t,
    texture: Texture_t,
    reply: TextureReply,
    other: VROverlayHandle_t,
)
    requires
        upload.stage.takes(reply),
    ensures
        ({
            let before = upload.swapchains;
            let now = texture_step(upload, key, texture, reply).swapchains;
            &&& !(reply is Swapchain) ==> now == before
            &&& swapchain_of(before, key) is Some ==> now == before
            &&& reply matches TextureReply::Swapchain(made) ==> swapchain_of(before, key) is None
                ==> swapchain_of(now, key) == Some(made)
            &&& slot_index(other) != slot_index(key) ==> {
                &&& swapchain_of(now, other) == swapchain_of(before, other)
                &&& now.contains_key(slot_index(other)) == before.contains_key(slot_index(other))
            }
        }),
{
    lemma_canonical(key);
    lemma_canonical(other);
}

/// An upload asks for a compositor just where the overlay has none.
pub proof fn law_upload_asks_for_a_missing_compositor(
    upload: TextureUpload,
    key: VROverlayHandle_t,
    texture: Texture_t,
    reply: TextureReply,
)
    requires
        upload.stage.takes(reply),
    ensures
        texture_step(upload, key, texture, reply).stage is CreateCompositor
            <==> upload.stage is Begin && upload.overlay.compositor is None,
{
}

/// Once the overlay has a compositor, an upload asks for a swapchain just where the
/// session has none for the overlay. The request names the compositor of the overlay,
/// the bounds of the overlay, and the color space of the texture. Otherwise it goes on
/// to acquire an image of the swapchain that the session has.
pub proof fn law_upload_asks_for_a_missing_swapchain(
    upload: TextureUpload,
    key: VROverlayHandle_t,
    texture: Texture_t,
    reply: TextureReply,
)
    requires
        upload.stage.takes(reply),
    ensures
        ({
            let after = texture_step(upload, key, texture, reply);
            let chooses = (upload.stage is Begin && upload.overlay.compositor is Some)
                || upload.stage is CreateCompositor;
            &&& after.stage is CreateSwapchain <==> chooses && swapchain_of(
                upload.swapchains,
                key,
            ) is None
            &&& after.stage matches TextureStage::CreateSwapchain {
                compositor,
                bounds,
                color_space,
            } ==> {
                &&& after.overlay.compositor == Some(compositor)
                &&& bounds == upload.overlay.bounds
                &&& color_space == texture.eColorSpace
            }
            &&& chooses && swapchain_of(upload.swapchains, key) is Some
                ==> after.stage is AcquireImage
        }),
{
}

/// Where an upload goes on to acquire an image, it does so from the swapchain that the
/// session keeps for the overlay, for the compositor of the overlay, or for the one
/// that the swapchain was made for.
pub proof fn law_upload_acquires_from_the_kept_swapchain(
    upload: TextureUpload,
    key: VROverlayHandle_t,
    texture: Texture_t,
    reply: TextureReply,
)
    requires
        upload.stage.takes(reply),
    ensures
        ({
            let after = texture_step(upload, key, texture, reply);
            &&& upload.stage is CreateSwapchain ==> after.stage is AcquireImage
            &&& after.stage matches TextureStage::AcquireImage { compositor, swapchain } ==> {
                &&& swapchain_of(after.swapchains, key) == Some(swapchain)
                &&& match upload.stage {
                    TextureStage::CreateSwapchain { compositor: asked, .. } => compositor == asked,
                    _ => after.overlay.compositor == Some(compositor),
                }
            }
        }),
{
    lemma_canonical(key);
}

/// An acquired image is waited for, drawn into with the compositor, the bounds and the
/// opacity of the overlay, and released; the number of the image, the swapchain and
/// the compositor are carried along, and the size that was drawn is kept to the end.
pub proof fn law_upload_carries_its_image(
    upload: TextureUpload,
    key: VROverlayHandle_t,
    texture: Texture_t,
    reply: TextureReply,
)
    requires
        upload.stage.takes(reply),
    ensures
        ({
            let next = texture_step(upload, key, texture, reply).stage;
            match upload.stage {
                TextureStage::AcquireImage { compositor: c, swapchain: s } => {
                    &&& next matches TextureStage::WaitImage { compositor, swapchain, image }
                    &&& compositor == c
                    &&& swapchain == s
                    &&& reply == TextureReply::Image(image)
                },
                TextureStage::WaitImage { compositor: c, swapchain: s, image: i } => {
                    &&& next matches TextureStage::CopyTexture {
                        compositor,
                        swapchain,
                        image,
                        bounds,
                        alpha,
                    }
                    &&& compositor == c
                    &&& swapchain == s
                    &&& image == i
                    &&& bounds == upload.overlay.bounds
                    &&& alpha == upload.overlay.alpha
                },
                TextureStage::CopyTexture { swapchain: s, .. } => {
                    &&& next matches TextureStage::ReleaseImage { swapchain, extent }
                    &&& swapchain == s
                    &&& reply == TextureReply::Drawn(extent)
                },
                TextureStage::ReleaseImage { .. } => next is Done,
                _ => !(next is Done),
            }
        }),
{
}

/// Keeping a swapchain for an overlay gives it that one, unless it has one already,
/// and leaves the swapchains of all other slots as they are.
pub proof fn law_kept_swapchain_is_found(
    swapchains: Map<int, (u32, u64)>,
    handle: VROverlayHandle_t,
    swapchain: u64,
    other: VROverlayHandle_t,
)
    ensures
        ({
            let after = slots_with_swapchain(swapchains, handle, swapchain);
            &&& swapchain_of(swapchains, handle) is None ==> swapchain_of(after, handle) == Some(
                swapchain,
            )
            &&& swapchain_of(swapchains, handle) is Some ==> after == swapchains
            &&& slot_index(other) != slot_index(handle) ==> swapchain_of(after, other)
                == swapchain_of(swapchains, other)
            &&& slot_index(other) == slot_index(handle) && canonical(other) != canonical(handle)
                && swapchain_of(swapchains, handle) is None ==> swapchain_of(after, other) is None
        }),
{
    lemma_canonical(handle);
    lemma_canonical(other);
}

} // verus!
