//! What the overlay manager reads and keeps of a session.
use crate::handle::lemma_canonical;
use crate::slots::{
    admitted, no_swapchains, slots_with_swapchain, swapchain_of, swapchain_slots, SwapchainSlots,
};
use crate::vr::{ETrackingUniverseOrigin, VROverlayHandle_t};
use vstd::prelude::*;

verus! {

/// The overlay data that lives and dies with a session: the swapchain of each
/// overlay that has been given a texture in it.
///
/// A swapchain is named by a number. Its owner finds it again by that number.
pub struct OverlaySessionData {
    swapchains: SwapchainSlots,
}

/// The part of a session that overlays depend on.
pub struct SessionData {
    /// The overlay data of this session.
    pub overlay_data: OverlaySessionData,
    /// The origin that applies to what has no transform of its own.
    pub current_origin: ETrackingUniverseOrigin,
}

impl View for OverlaySessionData {
    type V = Map<int, (u32, u64)>;

    /// For each slot with a swapchain, the version of the overlay that it was made
    /// for, and the swapchain.
    closed spec fn view(&self) -> Map<int, (u32, u64)> {
        swapchain_slots(self.swapchains)
    }
}

impl Default for OverlaySessionData {
    /// The overlay data of a new session, without swapchains.
    fn default() -> (data: Self)
        ensures
            data@ == no_swapchains(),
    {
        OverlaySessionData { swapchains: SwapchainSlots::new() }
    }
}

impl OverlaySessionData {
    /// The swapchain of an overlay in this session.
    pub fn swapchain(&self, handle: VROverlayHandle_t) -> (found: Option<u64>)
        ensures
            found == swapchain_of(self@, handle),
    {
        self.swapchains.get(handle)
    }

    /// The place for the swapchain of an overlay, with the swapchain if there is
    /// one; nothing where this session knows a later overlay in the same slot.
    pub fn entry(&mut self, handle: VROverlayHandle_t) -> (found: Option<Option<u64>>)
        ensures
            final(self)@ == old(self)@,
            found == (if admitted(old(self)@, handle) {
                Some(swapchain_of(old(self)@, handle))
            } else {
                None
            }),
    {
        self.swapchains.entry(handle)
    }

    /// Keeps a swapchain for an overlay that has none, in place of the swapchain of
    /// an earlier overlay in the same slot, and gives the swapchain of the overlay;
    /// nothing where this session knows a later overlay in the same slot.
    pub(crate) fn or_insert(
        &mut self,
        handle: VROverlayHandle_t,
        swapchain: u64,
    ) -> (kept: Option<u64>)
        ensures
            kept is Some <==> admitted(old(self)@, handle),
            final(self)@ == (if admitted(old(self)@, handle) {
                slots_with_swapchain(old(self)@, handle, swapchain)
            } else {
                old(self)@
            }),
            kept matches Some(value) ==> value == (match swapchain_of(old(self)@, handle) {
                Some(present) => present,
                None => swapchain,
            }),
    {
        proof {
            lemma_canonical(handle);
        }
        self.swapchains.or_insert(handle, swapchain)
    }
}

impl SessionData {
    /// The session data of a new session, with no swapchain yet.
    pub fn new(current_origin: ETrackingUniverseOrigin) -> (session: Self)
        ensures
            session.overlay_data@ == no_swapchains(),
            session.current_origin == current_origin,
    {
        SessionData { overlay_data: OverlaySessionData::default(), current_origin }
    }
}

} // verus!
