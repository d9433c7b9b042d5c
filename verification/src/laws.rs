//! What holds of the overlay manager as a whole.
//!
//! The operations of [`OverlayMan`](crate::manager::OverlayMan) are stated as
//! changes of an [`OverlayTable`]. The laws here relate these changes.
use crate::handle::{
    canonical, lemma_canonical, lemma_handle_parts, lemma_live_handles, slot_index, slot_version,
};
use crate::overlay::{corner_rect, FrameData, Overlay};
use crate::slots::{
    admitted, next_index, next_slot_version, no_swapchains, slots_with_swapchain, swapchain_of,
    versions,
};
use crate::table::{lemma_created_wf, lemma_frames_taken_wf, lemma_updated_wf, OverlayTable};
use crate::texture::{texture_step, TextureReply, TextureStage, TextureUpload};
use crate::vr::{ETrackingUniverseOrigin, Texture_t, VROverlayHandle_t};
use crate::xr::Extent2Di;
use vstd::prelude::*;

verus! {

// Making, finding and doing away with overlays.

/// An overlay that is made has a handle that no overlay had, in canonical form, and
/// is found by this handle and by its key.
pub proof fn law_created_overlay_is_found(table: OverlayTable, overlay: Overlay)
    requires
        table.wf(),
        table.has_room(),
    ensures
        ({
            let after = table.created(overlay);
            let handle = table.next_handle();
            &&& !table.contains(handle)
            &&& canonical(handle) == handle
            &&& after.contains(handle)
            &&& after.overlay(handle) == overlay
            &&& after.by_key.contains_key(overlay.key@)
            &&& after.by_key[overlay.key@] == handle
        }),
{
    lemma_created_wf(table, overlay);
}

/// Making an overlay leaves all other overlays as they are, and all other keys.
pub proof fn law_creating_keeps_the_others(
    table: OverlayTable,
    overlay: Overlay,
    handle: VROverlayHandle_t,
    key: Seq<u8>,
)
    requires
        table.wf(),
        table.has_room(),
    ensures
        ({
            let after = table.created(overlay);
            &&& canonical(handle) != table.next_handle() ==> after.contains(handle)
                == table.contains(handle)
            &&& table.contains(handle) ==> after.overlay(handle) == table.overlay(handle)
            &&& key != overlay.key@ ==> after.by_key.contains_key(key)
                == table.by_key.contains_key(key)
            &&& key != overlay.key@ && table.by_key.contains_key(key) ==> after.by_key[key]
                == table.by_key[key]
        }),
{
    lemma_created_wf(table, overlay);
    lemma_canonical(handle);
    if table.free.len() > 0 {
        assert(table.free[table.free.len() - 1] == table.free.last());
    }
}

/// There is room for one more overlay just as long as there are fewer than
/// `u32::MAX - 1` of them.
pub proof fn law_room_is_a_matter_of_number(table: OverlayTable)
    requires
        table.wf(),
    ensures
        table.has_room() <==> table.handles().len() < 0xffff_fffe,
{
}

/// Whatever a key leads to is an overlay with this key.
pub proof fn law_found_overlay_has_the_key(table: OverlayTable, key: Seq<u8>)
    requires
        table.wf(),
        table.by_key.contains_key(key),
    ensures
        table.contains(table.by_key[key]),
        table.overlay(table.by_key[key]).key@ == key,
{
}

/// Once an overlay is destroyed, its handle is unknown, and its key leads nowhere.
/// To destroy it again has no effect.
pub proof fn law_destroyed_overlay_is_unknown(table: OverlayTable, handle: VROverlayHandle_t)
    requires
        table.wf(),
    ensures
        !table.destroyed(handle).contains(handle),
        table.contains(handle) ==> !table.destroyed(handle).by_key.contains_key(
            table.overlay(handle).key@,
        ),
        table.destroyed(handle).destroyed(handle) == table.destroyed(handle),
{
    lemma_canonical(handle);
}

/// Destroying an overlay leaves all other overlays as they are, and the keys that
/// are not the key of that overlay.
pub proof fn law_destroying_keeps_the_others(
    table: OverlayTable,
    handle: VROverlayHandle_t,
    other: VROverlayHandle_t,
    key: Seq<u8>,
)
    requires
        table.wf(),
        canonical(other) != canonical(handle),
    ensures
        ({
            let after = table.destroyed(handle);
            &&& after.contains(other) == table.contains(other)
            &&& table.contains(other) ==> after.overlay(other) == table.overlay(other)
            &&& !table.contains(handle) || key != table.overlay(handle).key@ ==> {
                &&& after.by_key.contains_key(key) == table.by_key.contains_key(key)
                &&& table.by_key.contains_key(key) ==> after.by_key[key] == table.by_key[key]
            }
        }),
{
    lemma_canonical(handle);
    lemma_canonical(other);
}

/// Making an overlay and destroying it leaves the overlays that were there, and
/// their keys, but for the key of that overlay, which leads nowhere.
pub proof fn law_destroying_undoes_creating(
    table: OverlayTable,
    overlay: Overlay,
    handle: VROverlayHandle_t,
)
    requires
        table.wf(),
        table.has_room(),
    ensures
        ({
            let after = table.created(overlay).destroyed(table.next_handle());
            &&& after.contains(handle) == table.contains(handle)
            &&& table.contains(handle) ==> after.overlay(handle) == table.overlay(handle)
            &&& after.by_key == table.by_key.remove(overlay.key@)
        }),
{
    lemma_created_wf(table, overlay);
    lemma_canonical(handle);
    let made = table.next_handle();
    let after = table.created(overlay).destroyed(made);
    assert(after.by_key =~= table.by_key.remove(overlay.key@));
    if table.free.len() > 0 {
        assert(table.free[table.free.len() - 1] == table.free.last());
    }
}

/// A handle whose overlay has been destroyed: the version of its slot has moved on.
pub open spec fn retired(table: OverlayTable, handle: VROverlayHandle_t) -> bool {
    &&& slot_index(handle) < table.slots.len()
    &&& slot_version(handle) < table.slots[slot_index(handle)].version
}

/// Destroying an overlay retires its handle, unless the version of the slot is the
/// last one and starts over.
pub proof fn law_destroying_retires_the_handle(table: OverlayTable, handle: VROverlayHandle_t)
    requires
        table.wf(),
        table.contains(handle),
        slot_version(handle) != u32::MAX,
    ensures
        retired(table.destroyed(handle), handle),
{
    lemma_canonical(handle);
}

/// A retired handle is unknown, and no overlay that is made gets it.
pub proof fn law_retired_handle_is_not_given_out(
    table: OverlayTable,
    handle: VROverlayHandle_t,
)
    requires
        table.wf(),
        retired(table, handle),
    ensures
        !table.contains(handle),
        table.has_room() ==> table.next_handle() != canonical(handle),
{
    lemma_canonical(handle);
    if table.has_room() {
        let index = next_index(table.slots, table.free);
        if table.free.len() > 0 {
            assert(table.free[table.free.len() - 1] == table.free.last());
        }
        lemma_handle_parts(index, next_slot_version(table.slots, table.free) as int);
    }
}

/// A retired handle stays retired whatever overlay is made, changed, shown or
/// destroyed, unless the version of its own slot starts over.
pub proof fn law_retired_handle_stays_retired(
    table: OverlayTable,
    handle: VROverlayHandle_t,
    overlay: Overlay,
    other: VROverlayHandle_t,
)
    requires
        table.wf(),
        retired(table, handle),
    ensures
        table.has_room() ==> retired(table.created(overlay), handle),
        retired(table.updated(other, overlay), handle),
        retired(table.frames_taken(), handle),
        !(table.contains(other) && slot_index(other) == slot_index(handle) && slot_version(other)
            == u32::MAX) ==> retired(table.destroyed(other), handle),
{
    lemma_canonical(handle);
    lemma_canonical(other);
    if table.free.len() > 0 {
        assert(table.free[table.free.len() - 1] == table.free.last());
    }
}

/// All operations treat a handle and its canonical form alike.
pub proof fn law_handles_are_taken_in_canonical_form(
    table: OverlayTable,
    handle: VROverlayHandle_t,
    overlay: Overlay,
)
    ensures
        table.contains(canonical(handle)) == table.contains(handle),
        table.overlay(canonical(handle)) == table.overlay(handle),
        table.updated(canonical(handle), overlay) == table.updated(handle, overlay),
        table.destroyed(canonical(handle)) == table.destroyed(handle),
{
    lemma_canonical(handle);
}

// Changing overlays.

/// To change an overlay leaves every other overlay as it is, and all keys; it
/// makes no overlay and destroys none.
pub proof fn law_updating_keeps_the_others(
    table: OverlayTable,
    handle: VROverlayHandle_t,
    overlay: Overlay,
    other: VROverlayHandle_t,
)
    requires
        table.wf(),
    ensures
        ({
            let after = table.updated(handle, overlay);
            &&& after.contains(other) == table.contains(other)
            &&& table.contains(other) && canonical(other) != canonical(handle)
                ==> after.overlay(other) == table.overlay(other)
            &&& table.contains(handle) ==> after.overlay(handle) == overlay
            &&& after.by_key == table.by_key
            &&& after.free == table.free
        }),
{
    lemma_canonical(handle);
    lemma_canonical(other);
}

/// Of two changes of the same overlay, the later one counts.
pub proof fn law_later_update_counts(
    table: OverlayTable,
    handle: VROverlayHandle_t,
    first: Overlay,
    second: Overlay,
)
    requires
        table.wf(),
    ensures
        table.updated(handle, first).updated(handle, second) == table.updated(handle, second),
{
    lemma_canonical(handle);
    assert(table.updated(handle, first).updated(handle, second).slots =~= table.updated(
        handle,
        second,
    ).slots);
}

/// Changes of two different overlays can be made in either order.
pub proof fn law_updates_commute(
    table: OverlayTable,
    one: VROverlayHandle_t,
    first: Overlay,
    two: VROverlayHandle_t,
    second: Overlay,
)
    requires
        table.wf(),
        canonical(one) != canonical(two),
    ensures
        table.updated(one, first).updated(two, second) == table.updated(two, second).updated(
            one,
            first,
        ),
{
    lemma_canonical(one);
    lemma_canonical(two);
    assert(table.updated(one, first).updated(two, second).slots =~= table.updated(
        two,
        second,
    ).updated(one, first).slots);
}

/// Hiding an overlay that is visible, and letting it be shown again, changes
/// nothing: what it has to show is kept meanwhile.
pub proof fn law_showing_undoes_hiding(table: OverlayTable, handle: VROverlayHandle_t)
    requires
        table.wf(),
        table.contains(handle) ==> table.overlay(handle).visible,
    ensures
        ({
            let hidden = table.updated(
                handle,
                Overlay { visible: false, ..table.overlay(handle) },
            );
            hidden.updated(handle, Overlay { visible: true, ..hidden.overlay(handle) }) == table
        }),
{
    lemma_canonical(handle);
    let hidden = table.updated(handle, Overlay { visible: false, ..table.overlay(handle) });
    let shown = hidden.updated(handle, Overlay { visible: true, ..hidden.overlay(handle) });
    assert(shown.slots =~= table.slots);
}

// Layers.

/// Whether the slots of the handles go up from one to the next.
pub open spec fn in_slot_order(handles: Seq<VROverlayHandle_t>) -> bool {
    forall|j: int, k: int|
        0 <= j < k < handles.len() ==> slot_index(#[trigger] handles[j]) < slot_index(
            #[trigger] handles[k],
        )
}

/// A selection from handles in the order of slots is in the order of slots, and
/// holds just those handles that are to be selected.
proof fn lemma_filter_in_slot_order(
    handles: Seq<VROverlayHandle_t>,
    chosen: spec_fn(VROverlayHandle_t) -> bool,
)
    requires
        in_slot_order(handles),
    ensures
        in_slot_order(handles.filter(chosen)),
        forall|handle: VROverlayHandle_t| #[trigger]
            handles.filter(chosen).contains(handle) <==> handles.contains(handle) && chosen(handle),
    decreases handles.len(),
{
    reveal(Seq::filter);
    if handles.len() > 0 {
        let shorter = handles.drop_last();
        lemma_filter_in_slot_order(shorter, chosen);
        let before = shorter.filter(chosen);
        let all = handles.filter(chosen);
        assert forall|j: int| 0 <= j < before.len() implies slot_index(#[trigger] before[j])
            < slot_index(handles.last()) by {
            assert(before.contains(before[j]));
            let k = choose|k: int| 0 <= k < shorter.len() && shorter[k] == before[j];
            assert(handles[k] == before[j]);
            assert(handles[handles.len() - 1] == handles.last());
        }
        assert forall|j: int, k: int| 0 <= j < k < all.len() implies slot_index(#[trigger] all[j])
            < slot_index(#[trigger] all[k]) by {
            assert(all[j] == before[j]);
            if k < before.len() {
                assert(all[k] == before[k]);
            }
        }
        assert forall|handle: VROverlayHandle_t| #[trigger]
            all.contains(handle) <==> handles.contains(handle) && chosen(handle) by {
            if all.contains(handle) {
                let j = choose|j: int| 0 <= j < all.len() && all[j] == handle;
                if j < before.len() {
                    assert(before[j] == handle);
                    assert(before.contains(handle));
                    let k = choose|k: int| 0 <= k < shorter.len() && shorter[k] == handle;
                    assert(handles[k] == handle);
                } else {
                    assert(handles[handles.len() - 1] == handle);
                }
            }
            if handles.contains(handle) && chosen(handle) {
                let k = choose|k: int| 0 <= k < handles.len() && handles[k] == handle;
                if k < shorter.len() {
                    assert(shorter[k] == handle);
                    assert(before.contains(handle));
                    let j = choose|j: int| 0 <= j < before.len() && before[j] == handle;
                    assert(all[j] == handle);
                } else {
                    assert(all[all.len() - 1] == handle);
                }
            }
        }
    }
}

/// Two lists of handles in the order of slots that hold the same handles are the
/// same.
proof fn lemma_slot_order_unique(a: Seq<VROverlayHandle_t>, b: Seq<VROverlayHandle_t>)
    requires
        in_slot_order(a),
        in_slot_order(b),
        forall|handle: VROverlayHandle_t| #[trigger] a.contains(handle) <==> b.contains(handle),
    ensures
        a == b,
    decreases a.len(),
{
    if a.len() == 0 {
        if b.len() > 0 {
            assert(b.contains(b[0]));
            assert(!a.contains(b[0]));
        }
        assert(a =~= b);
    } else {
        let last = a.last();
        assert(a[a.len() - 1] == last);
        assert(a.contains(last));
        let j = choose|j: int| 0 <= j < b.len() && b[j] == last;
        let b_last = b[b.len() - 1];
        assert(b.contains(b_last));
        assert(a.contains(b_last));
        let k = choose|k: int| 0 <= k < a.len() && a[k] == b_last;
        assert(j == b.len() - 1);
        assert(b_last == last);
        let a1 = a.drop_last();
        let b1 = b.drop_last();
        assert forall|handle: VROverlayHandle_t| #[trigger]
            a1.contains(handle) <==> b1.contains(handle) by {
            if a1.contains(handle) {
                let x = choose|x: int| 0 <= x < a1.len() && a1[x] == handle;
                assert(a[x] == handle);
                assert(a.contains(handle));
                let y = choose|y: int| 0 <= y < b.len() && b[y] == handle;
                assert(b1[y] == handle);
            }
            if b1.contains(handle) {
                let y = choose|y: int| 0 <= y < b1.len() && b1[y] == handle;
                assert(b[y] == handle);
                assert(b.contains(handle));
                assert(a.contains(handle));
                let x = choose|x: int| 0 <= x < a.len() && a[x] == handle;
                assert(a1[x] == handle);
            }
        }
        lemma_slot_order_unique(a1, b1);
        assert(a =~= a1.push(last));
        assert(b =~= b1.push(last));
    }
}

/// The listed handles are those of the overlays, in the form in which they were
/// given out and in the order of the slots.
pub proof fn law_handles_list_the_overlays(table: OverlayTable, handle: VROverlayHandle_t)
    requires
        table.wf(),
    ensures
        in_slot_order(table.handles()),
        table.handles().contains(handle) <==> table.contains(handle) && canonical(handle)
            == handle,
{
    let v = versions(table.slots);
    lemma_live_handles(v);
    lemma_canonical(handle);
    if table.contains(handle) && canonical(handle) == handle {
        assert(v[slot_index(handle)] % 2 == 1);
    }
}

/// The overlays that have a frame to show are just the visible ones with a frame,
/// in the order of the slots.
pub proof fn law_shown_handles_are_the_visible_ones(
    table: OverlayTable,
    handle: VROverlayHandle_t,
)
    requires
        table.wf(),
    ensures
        in_slot_order(table.shown_handles()),
        table.shown_handles().contains(handle) <==> {
            &&& table.contains(handle)
            &&& canonical(handle) == handle
            &&& table.overlay(handle).visible
            &&& table.overlay(handle).last_frame is Some
        },
{
    law_handles_list_the_overlays(table, handle);
    lemma_filter_in_slot_order(
        table.handles(),
        |h: VROverlayHandle_t| table.overlay(h).is_shown(),
    );
}

/// Every visible overlay with a frame has a layer that shows it.
pub proof fn law_visible_frame_has_a_layer(
    table: OverlayTable,
    handle: VROverlayHandle_t,
    swapchains: Map<int, (u32, u64)>,
    current_origin: ETrackingUniverseOrigin,
)
    requires
        table.wf(),
        table.contains(handle),
        table.overlay(handle).is_shown(),
    ensures
        table.layers(swapchains, current_origin).contains(
            table.overlay(handle).spec_layer(
                table.overlay(handle).last_frame->0.rect,
                swapchain_of(swapchains, handle)->0,
                current_origin,
            ),
        ),
{
    let given = canonical(handle);
    lemma_canonical(handle);
    law_shown_handles_are_the_visible_ones(table, given);
    let shown = table.shown_handles();
    let j = choose|j: int| 0 <= j < shown.len() && shown[j] == given;
    let layers = table.layers(swapchains, current_origin);
    assert(layers[j] == table.layer(given, swapchains, current_origin));
}

/// Handing the frames on a second time hands nothing on: every frame becomes a
/// layer once. An overlay that is hidden keeps its frame.
pub proof fn law_frames_are_handed_on_once(
    table: OverlayTable,
    handle: VROverlayHandle_t,
    swapchains: Map<int, (u32, u64)>,
    current_origin: ETrackingUniverseOrigin,
)
    requires
        table.wf(),
    ensures
        table.frames_taken().layers(swapchains, current_origin).len() == 0,
        table.frames_taken().frames_taken() == table.frames_taken(),
        table.frames_taken().contains(handle) == table.contains(handle),
        table.contains(handle) && !table.overlay(handle).visible ==> table.frames_taken().overlay(
            handle,
        ) == table.overlay(handle),
{
    let after = table.frames_taken();
    lemma_frames_taken_wf(table);
    lemma_canonical(handle);
    assert(after.frames_taken().slots =~= after.slots);
    let shown = after.shown_handles();
    if shown.len() > 0 {
        law_shown_handles_are_the_visible_ones(after, shown[0]);
        assert(shown.contains(shown[0]));
        lemma_canonical(shown[0]);
        assert(false);
    }
}

/// The layers depend only on the overlays that have a frame to show.
pub proof fn law_layers_depend_on_what_is_shown(
    a: OverlayTable,
    b: OverlayTable,
    swapchains: Map<int, (u32, u64)>,
    current_origin: ETrackingUniverseOrigin,
)
    requires
        a.wf(),
        b.wf(),
        forall|handle: VROverlayHandle_t|
            (#[trigger] a.contains(handle) && a.overlay(handle).is_shown()) == (
            #[trigger] b.contains(handle) && b.overlay(handle).is_shown()),
        forall|handle: VROverlayHandle_t| #[trigger]
            a.contains(handle) && a.overlay(handle).is_shown() ==> a.overlay(handle) == b.overlay(
                handle,
            ),
    ensures
        a.layers(swapchains, current_origin) == b.layers(swapchains, current_origin),
{
    let in_a = a.shown_handles();
    let in_b = b.shown_handles();
    law_shown_handles_are_the_visible_ones(a, 0);
    law_shown_handles_are_the_visible_ones(b, 0);
    assert forall|handle: VROverlayHandle_t| #[trigger]
        in_a.contains(handle) <==> in_b.contains(handle) by {
        law_shown_handles_are_the_visible_ones(a, handle);
        law_shown_handles_are_the_visible_ones(b, handle);
        assert(a.contains(handle) || !a.contains(handle));
        assert(b.contains(handle) || !b.contains(handle));
    }
    lemma_slot_order_unique(in_a, in_b);
    assert forall|j: int| 0 <= j < in_a.len() implies a.overlay(#[trigger] in_a[j]) == b.overlay(
        in_a[j],
    ) by {
        assert(in_a.contains(in_a[j]));
        law_shown_handles_are_the_visible_ones(a, in_a[j]);
    }
    assert(a.layers(swapchains, current_origin) =~= b.layers(swapchains, current_origin));
}

/// An overlay shows nothing when it is made: there are the same layers with it as
/// without it.
pub proof fn law_new_overlay_adds_no_layer(
    table: OverlayTable,
    overlay: Overlay,
    key: Seq<u8>,
    name: Seq<u8>,
    swapchains: Map<int, (u32, u64)>,
    current_origin: ETrackingUniverseOrigin,
)
    requires
        table.wf(),
        table.has_room(),
        overlay.is_new(key, name),
    ensures
        table.created(overlay).layers(swapchains, current_origin) == table.layers(
            swapchains,
            current_origin,
        ),
{
    let after = table.created(overlay);
    lemma_created_wf(table, overlay);
    assert forall|handle: VROverlayHandle_t|
        (#[trigger] table.contains(handle) && table.overlay(handle).is_shown()) == (
        #[trigger] after.contains(handle) && after.overlay(handle).is_shown()) && (table.contains(
            handle,
        ) ==> table.overlay(handle) == after.overlay(handle)) by {
        law_creating_keeps_the_others(table, overlay, handle, key);
        lemma_canonical(handle);
    }
    law_layers_depend_on_what_is_shown(table, after, swapchains, current_origin);
}

// Uploads.

/// The replies that one upload gets.
pub struct UploadReplies {
    pub compositor: u64,
    pub swapchain: u64,
    pub image: u32,
    pub extent: Extent2Di,
}

/// The reply to a stage of an upload.
pub open spec fn reply_to(stage: TextureStage, replies: UploadReplies) -> TextureReply {
    match stage {
        TextureStage::Begin => TextureReply::Start,
        TextureStage::CreateCompositor => TextureReply::Compositor(replies.compositor),
        TextureStage::CreateSwapchain { .. } => TextureReply::Swapchain(replies.swapchain),
        TextureStage::AcquireImage { .. } => TextureReply::Image(replies.image),
        TextureStage::WaitImage { .. } => TextureReply::Ready,
        TextureStage::CopyTexture { .. } => TextureReply::Drawn(replies.extent),
        _ => TextureReply::Released,
    }
}

/// An upload after the given number of steps, or when it is done.
pub open spec fn upload_after(
    upload: TextureUpload,
    key: VROverlayHandle_t,
    texture: Texture_t,
    replies: UploadReplies,
    steps: nat,
) -> TextureUpload
    decreases steps,
{
    if steps == 0 || upload.stage is Done {
        upload
    } else {
        upload_after(
            texture_step(upload, key, texture, reply_to(upload.stage, replies)),
            key,
            texture,
            replies,
            (steps - 1) as nat,
        )
    }
}

/// The compositor that an upload draws with: that of the overlay, or else the one
/// that was made for it.
pub open spec fn upload_compositor(overlay: Overlay, replies: UploadReplies) -> u64 {
    match overlay.compositor {
        Some(compositor) => compositor,
        None => replies.compositor,
    }
}

/// The swapchain that an upload draws into: that of the overlay in this session, or
/// else the one that was made for it.
pub open spec fn upload_swapchain(
    swapchains: Map<int, (u32, u64)>,
    key: VROverlayHandle_t,
    replies: UploadReplies,
) -> u64 {
    match swapchain_of(swapchains, key) {
        Some(swapchain) => swapchain,
        None => replies.swapchain,
    }
}

/// After seven steps at most an upload is done. The overlay then has a compositor
/// and a frame of the size that was drawn, the session has a swapchain for it, and
/// nothing else has changed. A compositor or swapchain that was there is kept.
pub proof fn law_upload_ends_with_a_frame(
    overlay: Overlay,
    swapchains: Map<int, (u32, u64)>,
    key: VROverlayHandle_t,
    texture: Texture_t,
    replies: UploadReplies,
)
    ensures
        upload_after(
            TextureUpload { overlay, swapchains, stage: TextureStage::Begin },
            key,
            texture,
            replies,
            7,
        ) == (TextureUpload {
            overlay: Overlay {
                compositor: Some(upload_compositor(overlay, replies)),
                last_frame: Some(FrameData { rect: corner_rect(replies.extent) }),
                ..overlay
            },
            swapchains: slots_with_swapchain(swapchains, key, replies.swapchain),
            stage: TextureStage::Done,
        }),
        swapchain_of(slots_with_swapchain(swapchains, key, replies.swapchain), key) == Some(
            upload_swapchain(swapchains, key, replies),
        ),
{
    lemma_canonical(key);
    reveal_with_fuel(upload_after, 8);
}

/// What was put onto a visible overlay is shown: when the upload is done, there is a
/// layer with the swapchain that was drawn into, and the rectangle that was drawn.
pub proof fn law_uploaded_frame_is_shown(
    table: OverlayTable,
    swapchains: Map<int, (u32, u64)>,
    handle: VROverlayHandle_t,
    texture: Texture_t,
    replies: UploadReplies,
    current_origin: ETrackingUniverseOrigin,
)
    requires
        table.wf(),
        table.contains(handle),
        table.overlay(handle).visible,
    ensures
        ({
            let overlay = table.overlay(handle);
            let upload = upload_after(
                TextureUpload { overlay, swapchains, stage: TextureStage::Begin },
                handle,
                texture,
                replies,
                7,
            );
            table.updated(handle, upload.overlay).layers(
                upload.swapchains,
                current_origin,
            ).contains(
                overlay.spec_layer(
                    corner_rect(replies.extent),
                    upload_swapchain(swapchains, handle, replies),
                    current_origin,
                ),
            )
        }),
{
    let overlay = table.overlay(handle);
    let begin = TextureUpload { overlay, swapchains, stage: TextureStage::Begin };
    let upload = upload_after(begin, handle, texture, replies, 7);
    law_upload_ends_with_a_frame(overlay, swapchains, handle, texture, replies);
    lemma_updated_wf(table, handle, upload.overlay);
    lemma_canonical(handle);
    law_visible_frame_has_a_layer(
        table.updated(handle, upload.overlay),
        handle,
        upload.swapchains,
        current_origin,
    );
}

/// An upload asks for a compositor where the overlay has none, and for a swapchain
/// with the bounds of the overlay and the color space of the texture where the session
/// has none for it. It draws with the compositor of the overlay into the acquired image, with
/// the bounds and the opacity of the overlay, and releases the swapchain that it
/// acquired the image from.
pub proof fn law_upload_draws_the_overlay(
    overlay: Overlay,
    swapchains: Map<int, (u32, u64)>,
    key: VROverlayHandle_t,
    texture: Texture_t,
    replies: UploadReplies,
)
    ensures
        ({
            let begin = TextureUpload { overlay, swapchains, stage: TextureStage::Begin };
            let compositor = upload_compositor(overlay, replies);
            let swapchain = upload_swapchain(swapchains, key, replies);
            let made: nat = (if overlay.compositor is None {
                1nat
            } else {
                0
            }) + (if swapchain_of(swapchains, key) is None {
                1nat
            } else {
                0
            });
            &&& overlay.compositor is None ==> upload_after(begin, key, texture, replies, 1).stage
                == TextureStage::CreateCompositor
            &&& swapchain_of(swapchains, key) is None ==> upload_after(
                begin,
                key,
                texture,
                replies,
                made,
            ).stage == (TextureStage::CreateSwapchain {
                compositor,
                bounds: overlay.bounds,
                color_space: texture.eColorSpace,
            })
            &&& upload_after(begin, key, texture, replies, made + 1).stage
                == (TextureStage::AcquireImage { compositor, swapchain })
            &&& upload_after(begin, key, texture, replies, made + 2).stage
                == (TextureStage::WaitImage { compositor, swapchain, image: replies.image })
            &&& upload_after(begin, key, texture, replies, made + 3).stage
                == (TextureStage::CopyTexture {
                compositor,
                swapchain,
                image: replies.image,
                bounds: overlay.bounds,
                alpha: overlay.alpha,
            })
            &&& upload_after(begin, key, texture, replies, made + 4).stage
                == (TextureStage::ReleaseImage { swapchain, extent: replies.extent })
            &&& upload_after(begin, key, texture, replies, made + 5).stage
                == TextureStage::Done
        }),
{
    lemma_canonical(key);
    reveal_with_fuel(upload_after, 8);
}

// Sessions.

/// Whether the stage of an upload goes with the session: the swapchain that is
/// being drawn into is the one that the session keeps for the overlay.
pub open spec fn stage_in_step(
    stage: TextureStage,
    swapchains: Map<int, (u32, u64)>,
    handle: VROverlayHandle_t,
) -> bool {
    match stage {
        TextureStage::AcquireImage { swapchain, .. } => swapchain_of(swapchains, handle) == Some(
            swapchain,
        ),
        TextureStage::WaitImage { swapchain, .. } => swapchain_of(swapchains, handle) == Some(
            swapchain,
        ),
        TextureStage::CopyTexture { swapchain, .. } => swapchain_of(swapchains, handle) == Some(
            swapchain,
        ),
        TextureStage::ReleaseImage { swapchain, .. } => swapchain_of(swapchains, handle) == Some(
            swapchain,
        ),
        _ => true,
    }
}

/// Whether the overlays and the swapchains of a session have developed together:
/// every frame has its swapchain, and no swapchain is for an overlay yet to come.
/// Versions stay in the lower half of their range, in which none counts as older
/// than a smaller one.
pub open spec fn in_step(table: OverlayTable, swapchains: Map<int, (u32, u64)>) -> bool {
    &&& forall|handle: VROverlayHandle_t| #[trigger]
        table.contains(handle) && table.overlay(handle).last_frame is Some ==> swapchain_of(
            swapchains,
            handle,
        ) is Some
    &&& forall|i: int| #[trigger]
        swapchains.contains_key(i) ==> 0 <= i < table.slots.len() && swapchains[i].0
            <= table.slots[i].version
    &&& forall|i: int|
        0 <= i < table.slots.len() ==> (#[trigger] table.slots[i]).version < 0x8000_0000
}

/// In step, frames can always be handed on, and a texture can be put onto every
/// overlay.
pub proof fn law_in_step_requests_are_met(
    table: OverlayTable,
    swapchains: Map<int, (u32, u64)>,
    handle: VROverlayHandle_t,
)
    requires
        table.wf(),
        in_step(table, swapchains),
    ensures
        table.layers_ready(swapchains),
        table.contains(handle) ==> admitted(swapchains, handle),
{
    lemma_canonical(handle);
}

/// A manager without overlays is in step with a new session.
pub proof fn law_new_manager_and_session_are_in_step()
    ensures
        in_step(OverlayTable::empty(), no_swapchains()),
{
    assert forall|handle: VROverlayHandle_t| !OverlayTable::empty().contains(handle) by {
        lemma_canonical(handle);
    }
}

/// Making an overlay keeps overlays and session in step.
pub proof fn law_creating_keeps_in_step(
    table: OverlayTable,
    swapchains: Map<int, (u32, u64)>,
    overlay: Overlay,
    key: Seq<u8>,
    name: Seq<u8>,
)
    requires
        table.wf(),
        table.has_room(),
        in_step(table, swapchains),
        overlay.is_new(key, name),
    ensures
        in_step(table.created(overlay), swapchains),
{
    let after = table.created(overlay);
    lemma_created_wf(table, overlay);
    if table.free.len() > 0 {
        assert(table.free[table.free.len() - 1] == table.free.last());
    }
    assert forall|handle: VROverlayHandle_t| #[trigger]
        after.contains(handle) && after.overlay(handle).last_frame is Some implies swapchain_of(
        swapchains,
        handle,
    ) is Some by {
        law_creating_keeps_the_others(table, overlay, handle, key);
        lemma_canonical(handle);
        assert(table.contains(handle));
    }
}

/// Destroying an overlay keeps overlays and session in step, as long as the version
/// of its slot stays in the lower half of its range.
pub proof fn law_destroying_keeps_in_step(
    table: OverlayTable,
    swapchains: Map<int, (u32, u64)>,
    handle: VROverlayHandle_t,
)
    requires
        table.wf(),
        in_step(table, swapchains),
        table.contains(handle) ==> slot_version(handle) < 0x7fff_ffff,
    ensures
        in_step(table.destroyed(handle), swapchains),
{
    let after = table.destroyed(handle);
    lemma_canonical(handle);
    assert forall|other: VROverlayHandle_t| #[trigger]
        after.contains(other) && after.overlay(other).last_frame is Some implies swapchain_of(
        swapchains,
        other,
    ) is Some by {
        lemma_canonical(other);
        assert(table.contains(other));
    }
}

/// Changing an overlay in anything but its frame keeps overlays and session in
/// step, and so does handing the frames on.
pub proof fn law_updating_keeps_in_step(
    table: OverlayTable,
    swapchains: Map<int, (u32, u64)>,
    handle: VROverlayHandle_t,
    overlay: Overlay,
)
    requires
        table.wf(),
        in_step(table, swapchains),
        overlay.last_frame == table.overlay(handle).last_frame,
    ensures
        in_step(table.updated(handle, overlay), swapchains),
        in_step(table.frames_taken(), swapchains),
{
    let after = table.updated(handle, overlay);
    let taken = table.frames_taken();
    lemma_canonical(handle);
    assert forall|other: VROverlayHandle_t| #[trigger]
        after.contains(other) && after.overlay(other).last_frame is Some implies swapchain_of(
        swapchains,
        other,
    ) is Some by {
        lemma_canonical(other);
        assert(table.contains(other));
    }
    assert forall|other: VROverlayHandle_t| #[trigger]
        taken.contains(other) && taken.overlay(other).last_frame is Some implies swapchain_of(
        swapchains,
        other,
    ) is Some by {
        lemma_canonical(other);
        assert(table.contains(other));
    }
}

/// Every step of an upload keeps overlays and session in step, and so does the
/// stage that it leads to.
pub proof fn law_upload_keeps_in_step(
    table: OverlayTable,
    swapchains: Map<int, (u32, u64)>,
    handle: VROverlayHandle_t,
    texture: Texture_t,
    stage: TextureStage,
    reply: TextureReply,
)
    requires
        table.wf(),
        in_step(table, swapchains),
        table.contains(handle),
        stage.takes(reply),
        stage_in_step(stage, swapchains, handle),
    ensures
        ({
            let after = texture_step(
                TextureUpload { overlay: table.overlay(handle), swapchains, stage },
                handle,
                texture,
                reply,
            );
            &&& in_step(table.updated(handle, after.overlay), after.swapchains)
            &&& stage_in_step(after.stage, after.swapchains, handle)
        }),
{
    let after = texture_step(
        TextureUpload { overlay: table.overlay(handle), swapchains, stage },
        handle,
        texture,
        reply,
    );
    let result = table.updated(handle, after.overlay);
    lemma_canonical(handle);
    assert forall|other: VROverlayHandle_t| #[trigger]
        result.contains(other) && result.overlay(other).last_frame is Some implies swapchain_of(
        after.swapchains,
        other,
    ) is Some by {
        lemma_canonical(other);
        assert(table.contains(other));
    }
}

} // verus!
