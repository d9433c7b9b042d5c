//! The stores of the `slotmap` crate that the overlay manager is built on.
use crate::handle::{live_handles, make_handle, slot_index, slot_version};
use crate::overlay::Overlay;
use slotmap::secondary::Entry;
use slotmap::{DefaultKey, Key, KeyData, SecondaryMap, SlotMap};
use vstd::prelude::*;

verus! {

/// A slot of the overlay store: its version, and the overlay that it holds.
pub struct OverlaySlot {
    pub version: u32,
    pub overlay: Option<Overlay>,
}

/// The overlays, in a `slotmap::SlotMap`.
#[verifier::external_body]
pub struct OverlaySlots {
    map: SlotMap<DefaultKey, Overlay>,
}

/// The slots of the map in their order, the sentinel at index 0 included. A vacant
/// slot holds no overlay.
pub uninterp spec fn overlay_slots(store: OverlaySlots) -> Seq<OverlaySlot>;

/// The free list of the map: the vacant slots that can be used again. The last one
/// is used first.
pub uninterp spec fn free_slots(store: OverlaySlots) -> Seq<u32>;

/// The version of each slot.
pub open spec fn versions(slots: Seq<OverlaySlot>) -> Seq<u32> {
    Seq::new(slots.len(), |i: int| slots[i].version)
}

/// Whether a handle points at the present content of a slot.
pub open spec fn holds(slots: Seq<OverlaySlot>, handle: u64) -> bool {
    &&& slot_index(handle) < slots.len()
    &&& slots[slot_index(handle)].version == slot_version(handle)
}

/// The version that follows a version.
pub open spec fn next_version(version: u32) -> u32 {
    if version == u32::MAX {
        0
    } else {
        (version + 1) as u32
    }
}

/// The slots with the overlay of one slot replaced.
pub open spec fn with_overlay(slots: Seq<OverlaySlot>, index: int, overlay: Overlay) -> Seq<
    OverlaySlot,
> {
    slots.update(
        index,
        OverlaySlot { version: slots[index].version, overlay: Some(overlay) },
    )
}

/// The version with its lowest bit set, which marks an occupied slot.
pub open spec fn occupied_version(version: u32) -> u32 {
    if version % 2 == 0 {
        (version + 1) as u32
    } else {
        version
    }
}

/// Whether one more overlay can be stored.
pub open spec fn room(slots: Seq<OverlaySlot>, free: Seq<u32>) -> bool {
    free.len() > 0 || slots.len() < u32::MAX
}

/// The slot that the next overlay is stored in.
pub open spec fn next_index(slots: Seq<OverlaySlot>, free: Seq<u32>) -> int {
    if free.len() > 0 {
        free.last() as int
    } else {
        slots.len() as int
    }
}

/// The version that the slot of the next overlay gets.
pub open spec fn next_slot_version(slots: Seq<OverlaySlot>, free: Seq<u32>) -> u32 {
    if free.len() > 0 {
        occupied_version(slots[free.last() as int].version)
    } else {
        1
    }
}

/// The slots after one more overlay is stored.
pub open spec fn slots_after_insert(
    slots: Seq<OverlaySlot>,
    free: Seq<u32>,
    overlay: Overlay,
) -> Seq<OverlaySlot> {
    let slot = OverlaySlot {
        version: next_slot_version(slots, free),
        overlay: Some(overlay),
    };
    if free.len() > 0 {
        slots.update(free.last() as int, slot)
    } else {
        slots.push(slot)
    }
}

/// The free slots after one more overlay is stored.
pub open spec fn free_after_insert(free: Seq<u32>) -> Seq<u32> {
    if free.len() > 0 {
        free.drop_last()
    } else {
        free
    }
}

impl OverlaySlots {
    /// Calls `SlotMap::default`, which makes a map with no element: the sentinel
    /// slot in version 0, and no slot to use again.
    #[verifier::external_body]
    pub(crate) fn new() -> (store: Self)
        ensures
            overlay_slots(store) == seq![OverlaySlot { version: 0, overlay: None }],
            free_slots(store) == Seq::<u32>::empty(),
    {
        OverlaySlots { map: SlotMap::default() }
    }

    /// Calls `SlotMap::insert`, and hands its key out with `KeyData::as_ffi`.
    ///
    /// The value goes to the slot that became vacant last, or else to a new slot
    /// behind the others, and the version of the slot is set to the odd number at
    /// or after its old one (1 for a new slot). The call panics where no slot is
    /// vacant and there are `u32::MAX` of them.
    #[verifier::external_body]
    pub(crate) fn insert(&mut self, overlay: Overlay) -> (handle: u64)
        requires
            room(overlay_slots(*old(self)), free_slots(*old(self))),
        ensures
            handle == make_handle(
                next_index(overlay_slots(*old(self)), free_slots(*old(self))),
                next_slot_version(overlay_slots(*old(self)), free_slots(*old(self))) as int,
            ),
            overlay_slots(*final(self)) == slots_after_insert(
                overlay_slots(*old(self)),
                free_slots(*old(self)),
                overlay,
            ),
            free_slots(*final(self)) == free_after_insert(free_slots(*old(self))),
    {
        self.map.insert(overlay).data().as_ffi()
    }

    /// Calls `SlotMap::remove` with the key that `KeyData::from_ffi` makes of the
    /// handle.
    ///
    /// Where the slot of the key has the version of the key, the value leaves the
    /// map, the version goes up by one (from `u32::MAX` to 0), and the slot is the
    /// next one to be used again. Otherwise nothing changes.
    #[verifier::external_body]
    pub(crate) fn remove(&mut self, handle: u64) -> (removed: Option<Overlay>)
        ensures
            match removed {
                Some(overlay) => {
                    let slots = overlay_slots(*old(self));
                    let index = slot_index(handle);
                    &&& holds(slots, handle)
                    &&& slots[index].overlay == Some(overlay)
                    &&& overlay_slots(*final(self)) == slots.update(
                        index,
                        OverlaySlot {
                            version: next_version(slots[index].version),
                            overlay: None,
                        },
                    )
                    &&& free_slots(*final(self)) == free_slots(*old(self)).push(index as u32)
                },
                None => {
                    &&& !holds(overlay_slots(*old(self)), handle)
                    &&& overlay_slots(*final(self)) == overlay_slots(*old(self))
                    &&& free_slots(*final(self)) == free_slots(*old(self))
                },
            },
    {
        self.map.remove(DefaultKey::from(KeyData::from_ffi(handle)))
    }

    /// Calls `SlotMap::get` with the key that `KeyData::from_ffi` makes of the handle.
    /// The result is the value of the slot of the key, where that slot has the
    /// version of the key.
    #[verifier::external_body]
    pub(crate) fn get(&self, handle: u64) -> (found: Option<&Overlay>)
        ensures
            match found {
                Some(overlay) => {
                    &&& holds(overlay_slots(*self), handle)
                    &&& overlay_slots(*self)[slot_index(handle)].overlay == Some(*overlay)
                },
                None => !holds(overlay_slots(*self), handle),
            },
    {
        self.map.get(DefaultKey::from(KeyData::from_ffi(handle)))
    }

    /// Calls `SlotMap::get_mut` with the key that `KeyData::from_ffi` makes of the
    /// handle.
    ///
    /// Where the slot of the key has the version of the key, the result borrows
    /// the value of that slot, and what is written there is all that changes.
    #[verifier::external_body]
    pub(crate) fn get_mut(&mut self, handle: u64) -> (found: Option<&mut Overlay>)
        ensures
            free_slots(*final(self)) == free_slots(*old(self)),
            match found {
                Some(overlay) => {
                    let slots = overlay_slots(*old(self));
                    &&& holds(slots, handle)
                    &&& slots[slot_index(handle)].overlay == Some(*overlay)
                    &&& overlay_slots(*final(self)) == with_overlay(
                        slots,
                        slot_index(handle),
                        *final(overlay),
                    )
                },
                None => {
                    &&& !holds(overlay_slots(*old(self)), handle)
                    &&& overlay_slots(*final(self)) == overlay_slots(*old(self))
                },
            },
    {
        self.map.get_mut(DefaultKey::from(KeyData::from_ffi(handle)))
    }

    /// Calls `SlotMap::len`, which counts the occupied slots.
    #[verifier::external_body]
    pub(crate) fn len(&self) -> (count: usize)
        ensures
            count == live_handles(versions(overlay_slots(*self))).len(),
    {
        self.map.len()
    }

    /// Calls `SlotMap::keys`, and hands each key out with `KeyData::as_ffi`.
    ///
    /// The keys are those of the occupied slots, in the order of the slots.
    #[verifier::external_body]
    pub(crate) fn keys(&self) -> (handles: Vec<u64>)
        ensures
            handles@ == live_handles(versions(overlay_slots(*self))),
    {
        self.map.keys().map(|key| key.data().as_ffi()).collect()
    }
}

/// The swapchains of a session by overlay, in a `slotmap::SecondaryMap`.
#[verifier::external_body]
pub struct SwapchainSlots {
    map: SecondaryMap<DefaultKey, u64>,
}

/// For each occupied slot of the map, by its number, its version and its swapchain.
pub uninterp spec fn swapchain_slots(store: SwapchainSlots) -> Map<int, (u32, u64)>;

/// No slot is occupied.
pub open spec fn no_swapchains() -> Map<int, (u32, u64)> {
    Map::empty()
}

/// The swapchain that is kept for a handle.
pub open spec fn swapchain_of(slots: Map<int, (u32, u64)>, handle: u64) -> Option<u64> {
    if slots.contains_key(slot_index(handle)) && slots[slot_index(handle)].0 == slot_version(
        handle,
    ) {
        Some(slots[slot_index(handle)].1)
    } else {
        None
    }
}

/// The version of a slot, 0 where it is vacant.
pub open spec fn swapchain_version(slots: Map<int, (u32, u64)>, index: int) -> int {
    if slots.contains_key(index) {
        slots[index].0 as int
    } else {
        0
    }
}

/// Whether a handle can have an entry: its slot number is not the last one that
/// a handle can hold, and its version does not count as older than that of the
/// slot. Versions start over at 0 behind the largest one. So a version counts as
/// older than another if counting up from the other takes half of the range or more
/// to reach it.
pub open spec fn admitted(slots: Map<int, (u32, u64)>, handle: u64) -> bool {
    let ahead = slot_version(handle) - swapchain_version(slots, slot_index(handle));
    &&& slot_index(handle) != u32::MAX
    &&& ahead % 0x1_0000_0000 < 0x8000_0000
}

/// The swapchains after an entry is asked for with a swapchain to fall back on.
pub open spec fn slots_with_swapchain(
    slots: Map<int, (u32, u64)>,
    handle: u64,
    swapchain: u64,
) -> Map<int, (u32, u64)> {
    if swapchain_of(slots, handle) is Some {
        slots
    } else {
        slots.insert(slot_index(handle), (slot_version(handle) as u32, swapchain))
    }
}

impl SwapchainSlots {
    /// Calls `SecondaryMap::default`, which makes a map with no entry.
    #[verifier::external_body]
    pub(crate) fn new() -> (store: Self)
        ensures
            swapchain_slots(store) == no_swapchains(),
    {
        SwapchainSlots { map: SecondaryMap::default() }
    }

    /// Calls `SecondaryMap::get` with the key that `KeyData::from_ffi` makes of the
    /// handle. The result is the value of the slot of the key, where that slot is
    /// occupied in the version of the key.
    #[verifier::external_body]
    pub(crate) fn get(&self, handle: u64) -> (found: Option<u64>)
        ensures
            found == swapchain_of(swapchain_slots(*self), handle),
    {
        self.map.get(DefaultKey::from(KeyData::from_ffi(handle))).copied()
    }

    /// Calls `SecondaryMap::entry` with the key that `KeyData::from_ffi` makes of
    /// the handle, and tells what came back: no entry, a vacant one, or an occupied
    /// one with its value.
    ///
    /// There is no entry for the null key, whose slot number is `u32::MAX`, and for
    /// a key whose version is older than that of the slot.
    #[verifier::external_body]
    pub(crate) fn entry(&mut self, handle: u64) -> (found: Option<Option<u64>>)
        ensures
            swapchain_slots(*final(self)) == swapchain_slots(*old(self)),
            found == (if admitted(swapchain_slots(*old(self)), handle) {
                Some(swapchain_of(swapchain_slots(*old(self)), handle))
            } else {
                None
            }),
    {
        match self.map.entry(DefaultKey::from(KeyData::from_ffi(handle))) {
            Some(Entry::Occupied(entry)) => Some(Some(*entry.get())),
            Some(Entry::Vacant(_)) => Some(None),
            None => None,
        }
    }

    /// Calls `Entry::or_insert` on what `SecondaryMap::entry` gives for the key
    /// that `KeyData::from_ffi` makes of the handle.
    ///
    /// An occupied entry keeps its value. A vacant one gets the given value, which
    /// takes the place of what an older key left in the slot. The result is the
    /// value of the entry, or nothing where there is no entry.
    #[verifier::external_body]
    pub(crate) fn or_insert(&mut self, handle: u64, swapchain: u64) -> (kept: Option<u64>)
        ensures
            match kept {
                Some(value) => {
                    let slots = swapchain_slots(*old(self));
                    &&& admitted(slots, handle)
                    &&& swapchain_slots(*final(self)) == slots_with_swapchain(
                        slots,
                        handle,
                        swapchain,
                    )
                    &&& swapchain_of(swapchain_slots(*final(self)), handle) == Some(value)
                },
                None => {
                    &&& !admitted(swapchain_slots(*old(self)), handle)
                    &&& swapchain_slots(*final(self)) == swapchain_slots(*old(self))
                },
            },
    {
        match self.map.entry(DefaultKey::from(KeyData::from_ffi(handle))) {
            Some(entry) => Some(*entry.or_insert(swapchain)),
            None => None,
        }
    }
}

} // verus!
