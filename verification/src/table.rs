//! The state of the overlay manager, as a mathematical value.
use crate::handle::{
    canonical, lemma_canonical, lemma_handle_parts, lemma_live_count_update, live_handles,
    make_handle, slot_index, slot_version,
};
use crate::overlay::Overlay;
use crate::slots::{
    free_after_insert, holds, next_index, next_slot_version, next_version, room,
    slots_after_insert, swapchain_of, versions, with_overlay, OverlaySlot,
};
use crate::vr::{ETrackingUniverseOrigin, HmdMatrix34_t, VROverlayHandle_t, VRTextureBounds_t};
use crate::xr::CompositionLayerQuad;
use vstd::prelude::*;

verus! {

/// The overlays in their slots, the slots that can be used again, and the handles
/// by key.
#[verifier::ext_equal]
pub struct OverlayTable {
    pub slots: Seq<OverlaySlot>,
    pub free: Seq<u32>,
    pub by_key: Map<Seq<u8>, u64>,
}

/// A slot after its frame, if it is to be shown, was handed on.
pub open spec fn slot_taken(slot: OverlaySlot) -> OverlaySlot {
    match slot.overlay {
        Some(overlay) => OverlaySlot {
            version: slot.version,
            overlay: Some(overlay.frame_taken()),
        },
        None => slot,
    }
}

impl OverlayTable {
    /// No overlay, and no slot but the sentinel.
    pub open spec fn empty() -> OverlayTable {
        OverlayTable {
            slots: seq![OverlaySlot { version: 0, overlay: None }],
            free: Seq::empty(),
            by_key: Map::empty(),
        }
    }

    /// Whether there is an overlay with this handle.
    pub open spec fn contains(self, handle: VROverlayHandle_t) -> bool {
        holds(self.slots, handle)
    }

    /// The overlay with this handle.
    pub open spec fn overlay(self, handle: VROverlayHandle_t) -> Overlay {
        self.slots[slot_index(handle)].overlay->0
    }

    /// The slots with an odd version are the occupied ones. All others but the
    /// sentinel are free, and listed once.
    pub open spec fn slots_wf(self) -> bool {
        &&& 1 <= self.slots.len() <= u32::MAX
        &&& self.slots[0].version % 2 == 0
        &&& forall|i: int|
            0 <= i < self.slots.len() ==> ((#[trigger] self.slots[i]).overlay is Some
                <==> self.slots[i].version % 2 == 1)
        &&& self.free.no_duplicates()
        &&& forall|j: int|
            0 <= j < self.free.len() ==> {
                &&& 0 < #[trigger] self.free[j] < self.slots.len()
                &&& self.slots[self.free[j] as int].version % 2 == 0
            }
        &&& live_handles(versions(self.slots)).len() + self.free.len() + 1 == self.slots.len()
    }

    /// Every key leads to an overlay that has this key.
    pub open spec fn keys_wf(self) -> bool {
        forall|key: Seq<u8>| #[trigger]
            self.by_key.contains_key(key) ==> {
                &&& self.contains(self.by_key[key])
                &&& self.overlay(self.by_key[key]).key@ == key
                &&& canonical(self.by_key[key]) == self.by_key[key]
            }
    }

    /// The state is one that the manager can be in.
    pub open spec fn wf(self) -> bool {
        self.slots_wf() && self.keys_wf()
    }

    /// Whether one more overlay can be made.
    pub open spec fn has_room(self) -> bool {
        room(self.slots, self.free)
    }

    /// The handle that the next overlay gets.
    pub open spec fn next_handle(self) -> VROverlayHandle_t {
        make_handle(
            next_index(self.slots, self.free),
            next_slot_version(self.slots, self.free) as int,
        )
    }

    /// One more overlay. Its key leads to it from now on.
    pub open spec fn created(self, overlay: Overlay) -> OverlayTable {
        OverlayTable {
            slots: slots_after_insert(self.slots, self.free, overlay),
            free: free_after_insert(self.free),
            by_key: self.by_key.insert(overlay.key@, self.next_handle()),
        }
    }

    /// Without the overlay of this handle, and without its key.
    pub open spec fn destroyed(self, handle: VROverlayHandle_t) -> OverlayTable {
        if self.contains(handle) {
            let index = slot_index(handle);
            OverlayTable {
                slots: self.slots.update(
                    index,
                    OverlaySlot {
                        version: next_version(self.slots[index].version),
                        overlay: None,
                    },
                ),
                free: self.free.push(index as u32),
                by_key: self.by_key.remove(self.overlay(handle).key@),
            }
        } else {
            self
        }
    }

    /// The overlay of this handle replaced, if there is one.
    pub open spec fn updated(self, handle: VROverlayHandle_t, overlay: Overlay) -> OverlayTable {
        if self.contains(handle) {
            OverlayTable {
                slots: with_overlay(self.slots, slot_index(handle), overlay),
                ..self
            }
        } else {
            self
        }
    }

    /// The overlay that a key leads to, if it leads to one.
    pub open spec fn find(self, key: Seq<u8>) -> Option<VROverlayHandle_t> {
        if self.by_key.contains_key(key) {
            Some(self.by_key[key])
        } else {
            None
        }
    }

    /// The visibility of an overlay set.
    pub open spec fn with_visible(self, handle: VROverlayHandle_t, visible: bool) -> OverlayTable {
        self.updated(handle, Overlay { visible, ..self.overlay(handle) })
    }

    /// The opacity of an overlay set.
    pub open spec fn with_alpha(self, handle: VROverlayHandle_t, alpha: u32) -> OverlayTable {
        self.updated(handle, Overlay { alpha, ..self.overlay(handle) })
    }

    /// The width of an overlay set.
    pub open spec fn with_width(self, handle: VROverlayHandle_t, width: u32) -> OverlayTable {
        self.updated(handle, Overlay { width, ..self.overlay(handle) })
    }

    /// The texture bounds of an overlay set.
    pub open spec fn with_bounds(
        self,
        handle: VROverlayHandle_t,
        bounds: VRTextureBounds_t,
    ) -> OverlayTable {
        self.updated(handle, Overlay { bounds, ..self.overlay(handle) })
    }

    /// The place of an overlay set.
    pub open spec fn with_transform(
        self,
        handle: VROverlayHandle_t,
        origin: ETrackingUniverseOrigin,
        matrix: HmdMatrix34_t,
    ) -> OverlayTable {
        self.updated(
            handle,
            Overlay { transform: Some((origin, matrix)), ..self.overlay(handle) },
        )
    }

    /// The frames that are to be shown handed on.
    pub open spec fn frames_taken(self) -> OverlayTable {
        OverlayTable {
            slots: Seq::new(self.slots.len(), |i: int| slot_taken(self.slots[i])),
            ..self
        }
    }

    /// The handles of all overlays, in the order of their slots.
    pub open spec fn handles(self) -> Seq<VROverlayHandle_t> {
        live_handles(versions(self.slots))
    }

    /// The handles of the overlays that have a frame to show, in the order of their
    /// slots.
    pub open spec fn shown_handles(self) -> Seq<VROverlayHandle_t> {
        self.handles().filter(|handle: VROverlayHandle_t| self.overlay(handle).is_shown())
    }

    /// The layer that shows the frame of an overlay.
    pub open spec fn layer(
        self,
        handle: VROverlayHandle_t,
        swapchains: Map<int, (u32, u64)>,
        current_origin: ETrackingUniverseOrigin,
    ) -> CompositionLayerQuad {
        self.overlay(handle).spec_layer(
            self.overlay(handle).last_frame->0.rect,
            swapchain_of(swapchains, handle)->0,
            current_origin,
        )
    }

    /// The layers that show the frames of all overlays.
    pub open spec fn layers(
        self,
        swapchains: Map<int, (u32, u64)>,
        current_origin: ETrackingUniverseOrigin,
    ) -> Seq<CompositionLayerQuad> {
        self.shown_handles().map_values(
            |handle: VROverlayHandle_t| self.layer(handle, swapchains, current_origin),
        )
    }

    /// Whether every overlay that has a frame to show has a swapchain.
    pub open spec fn layers_ready(self, swapchains: Map<int, (u32, u64)>) -> bool {
        forall|handle: VROverlayHandle_t| #[trigger]
            self.contains(handle) && self.overlay(handle).is_shown() ==> swapchain_of(
                swapchains,
                handle,
            ) is Some
    }
}

/// The empty table is well-formed.
pub proof fn lemma_empty_wf()
    ensures
        OverlayTable::empty().wf(),
        OverlayTable::empty().has_room(),
{
    let table = OverlayTable::empty();
    let v = versions(table.slots);
    assert(v.drop_last() =~= Seq::empty());
    assert(live_handles(v) =~= Seq::empty()) by {
        reveal_with_fuel(live_handles, 2);
    }
}

/// Replacing an overlay by one with the same key keeps the table well-formed.
pub proof fn lemma_updated_wf(table: OverlayTable, handle: VROverlayHandle_t, overlay: Overlay)
    requires
        table.wf(),
        table.contains(handle) ==> overlay.key@ == table.overlay(handle).key@,
    ensures
        table.updated(handle, overlay).wf(),
        table.updated(handle, overlay).handles() == table.handles(),
{
    let after = table.updated(handle, overlay);
    assert(versions(after.slots) =~= versions(table.slots));
    lemma_canonical(handle);
}

/// Making one more overlay keeps the table well-formed, and its handle is a new
/// one in canonical form.
pub proof fn lemma_created_wf(table: OverlayTable, overlay: Overlay)
    requires
        table.wf(),
        table.has_room(),
    ensures
        table.created(overlay).wf(),
        !table.contains(table.next_handle()),
        table.created(overlay).contains(table.next_handle()),
        table.created(overlay).overlay(table.next_handle()) == overlay,
        canonical(table.next_handle()) == table.next_handle(),
        slot_index(table.next_handle()) == next_index(table.slots, table.free),
        slot_version(table.next_handle()) == next_slot_version(table.slots, table.free),
{
    let after = table.created(overlay);
    let index = next_index(table.slots, table.free);
    let version = next_slot_version(table.slots, table.free);
    let before_versions = versions(table.slots);
    let after_versions = versions(after.slots);
    if table.free.len() > 0 {
        assert(table.free[table.free.len() - 1] == table.free.last());
        assert(after_versions =~= before_versions.update(index, version));
        lemma_live_count_update(before_versions, index, version);
        assert forall|j: int| 0 <= j < after.free.len() implies {
            &&& 0 < #[trigger] after.free[j] < after.slots.len()
            &&& after.slots[after.free[j] as int].version % 2 == 0
        } by {
            assert(after.free[j] == table.free[j]);
            assert(table.free[j] != table.free.last());
        }
    } else {
        assert(after_versions =~= before_versions.push(version));
        assert(after_versions.drop_last() =~= before_versions);
    }
    lemma_handle_parts(index, version as int);
    assert forall|key: Seq<u8>| #[trigger] after.by_key.contains_key(key) implies {
        &&& after.contains(after.by_key[key])
        &&& after.overlay(after.by_key[key]).key@ == key
        &&& canonical(after.by_key[key]) == after.by_key[key]
    } by {
        if key != overlay.key@ {
            assert(table.by_key.contains_key(key));
            lemma_canonical(table.by_key[key]);
        }
    }
}

/// Destroying an overlay keeps the table well-formed.
pub proof fn lemma_destroyed_wf(table: OverlayTable, handle: VROverlayHandle_t)
    requires
        table.wf(),
    ensures
        table.destroyed(handle).wf(),
        table.destroyed(handle).slots.len() == table.slots.len(),
{
    if table.contains(handle) {
        let after = table.destroyed(handle);
        let index = slot_index(handle);
        let version = next_version(table.slots[index].version);
        lemma_canonical(handle);
        assert(versions(after.slots) =~= versions(table.slots).update(index, version));
        lemma_live_count_update(versions(table.slots), index, version);
        assert forall|j: int| 0 <= j < after.free.len() implies {
            &&& 0 < #[trigger] after.free[j] < after.slots.len()
            &&& after.slots[after.free[j] as int].version % 2 == 0
        } by {
            if j < table.free.len() {
                assert(after.free[j] == table.free[j]);
            }
        }
        assert(after.free.no_duplicates()) by {
            assert forall|j: int, k: int|
                0 <= j < after.free.len() && 0 <= k < after.free.len() && j
                    != k implies after.free[j] != after.free[k] by {
                if j < table.free.len() {
                    assert(after.free[j] == table.free[j]);
                }
                if k < table.free.len() {
                    assert(after.free[k] == table.free[k]);
                }
            }
        }
        assert forall|key: Seq<u8>| #[trigger] after.by_key.contains_key(key) implies {
            &&& after.contains(after.by_key[key])
            &&& after.overlay(after.by_key[key]).key@ == key
            &&& canonical(after.by_key[key]) == after.by_key[key]
        } by {
            assert(table.by_key.contains_key(key));
            let found = table.by_key[key];
            lemma_canonical(found);
            if slot_index(found) == index {
                assert(table.overlay(found) == table.overlay(handle));
            }
        }
    }
}

/// Handing frames on keeps the table well-formed.
pub proof fn lemma_frames_taken_wf(table: OverlayTable)
    requires
        table.wf(),
    ensures
        table.frames_taken().wf(),
        table.frames_taken().handles() == table.handles(),
{
    let after = table.frames_taken();
    assert(versions(after.slots) =~= versions(table.slots));
    assert forall|key: Seq<u8>| #[trigger] after.by_key.contains_key(key) implies {
        &&& after.contains(after.by_key[key])
        &&& after.overlay(after.by_key[key]).key@ == key
        &&& canonical(after.by_key[key]) == after.by_key[key]
    } by {
        assert(table.by_key.contains_key(key));
        lemma_canonical(table.by_key[key]);
    }
}

} // verus!
