//! The overlay manager.
use crate::effects::{law_handing_on_takes_frames_alone, law_layer_parts};
use crate::handle::{
    canonical, lemma_canonical, lemma_handle_parts, lemma_live_handles, make_handle, slot_index,
    slot_version,
};
use crate::key_index::KeyIndex;
use crate::overlay::Overlay;
use crate::session::SessionData;
use crate::slots::{
    admitted, free_slots, overlay_slots, swapchain_of, versions, OverlaySlot, OverlaySlots,
};
use crate::table::{
    lemma_created_wf, lemma_destroyed_wf, lemma_empty_wf, lemma_frames_taken_wf, lemma_updated_wf,
    slot_taken, OverlayTable,
};
use crate::texture::{texture_step, TextureReply, TextureStage, TextureUpload};
use crate::vr::{
    ETextureType, ETrackingUniverseOrigin, EVROverlayError, HmdMatrix34_t, Texture_t,
    TrackedDeviceIndex_t, VROverlayHandle_t, VRTextureBounds_t,
};
use crate::xr::{CompositionLayerQuad, EyeVisibility, LayerPose, Posef, Quaternionf, Vector3f};
use vstd::prelude::*;
use vstd::slice::slice_to_vec;

verus! {

/// Keeps the overlays of all clients.
pub struct OverlayMan {
    overlays: OverlaySlots,
    key_to_overlay: KeyIndex,
}

impl View for OverlayMan {
    type V = OverlayTable;

    closed spec fn view(&self) -> OverlayTable {
        OverlayTable {
            slots: overlay_slots(self.overlays),
            free: free_slots(self.overlays),
            by_key: self.key_to_overlay@,
        }
    }
}

/// What a request for an overlay is answered.
pub open spec fn answer(table: OverlayTable, handle: VROverlayHandle_t) -> EVROverlayError {
    if table.contains(handle) {
        EVROverlayError::NoError
    } else {
        EVROverlayError::UnknownOverlay
    }
}

/// What a request for an overlay is answered that comes with a pointer.
pub open spec fn answer_with(
    table: OverlayTable,
    handle: VROverlayHandle_t,
    pointer_given: bool,
) -> EVROverlayError {
    if !table.contains(handle) {
        EVROverlayError::UnknownOverlay
    } else if !pointer_given {
        EVROverlayError::InvalidParameter
    } else {
        EVROverlayError::NoError
    }
}

/// The slots after the frames in the first of them were handed on.
spec fn taken_below(slots: Seq<OverlaySlot>, bound: int) -> Seq<OverlaySlot> {
    Seq::new(
        slots.len(),
        |i: int|
            if i < bound {
                slot_taken(slots[i])
            } else {
                slots[i]
            },
    )
}

/// The slot of the `n`-th overlay, or the end of the slots behind the last one.
spec fn slot_bound(table: OverlayTable, n: int) -> int {
    if n < table.handles().len() {
        slot_index(table.handles()[n])
    } else {
        table.slots.len() as int
    }
}

/// Slots without overlays have no frames to hand on.
proof fn lemma_no_frame_between(table: OverlayTable, n: int)
    requires
        table.wf(),
        0 <= n <= table.handles().len(),
    ensures
        ({
            let start = if n == 0 {
                0
            } else {
                slot_bound(table, n - 1) + 1
            };
            taken_below(table.slots, start) == taken_below(table.slots, slot_bound(table, n))
        }),
{
    let start = if n == 0 {
        0
    } else {
        slot_bound(table, n - 1) + 1
    };
    let end = slot_bound(table, n);
    let v = versions(table.slots);
    let handles = table.handles();
    lemma_live_handles(v);
    assert forall|i: int| start <= i < end && i < table.slots.len() implies slot_taken(
        #[trigger] table.slots[i],
    ) == table.slots[i] by {
        if table.slots[i].version % 2 == 1 {
            assert(v[i] % 2 == 1);
            lemma_handle_parts(i, v[i] as int);
            let j = choose|j: int|
                0 <= j < handles.len() && handles[j] == make_handle(i, v[i] as int);
            assert(slot_index(handles[j]) == i);
            if n > 0 && j < n - 1 {
                assert(slot_index(handles[j]) < slot_index(handles[n - 1]));
            }
            if n < j {
                assert(slot_index(handles[n]) < slot_index(handles[j]));
            }
        }
    }
    assert(taken_below(table.slots, start) =~= taken_below(table.slots, end));
}

impl OverlayMan {
    /// The manager is in a state that its operations lead to.
    pub closed spec fn wf(&self) -> bool {
        self@.wf() && self.key_to_overlay.wf()
    }

    /// The state of a manager is one that the laws speak of.
    pub proof fn lemma_wf(&self)
        requires
            self.wf(),
        ensures
            self@.wf(),
    {
    }

    /// A manager without overlays.
    pub fn new() -> (man: Self)
        ensures
            man.wf(),
            man@ == OverlayTable::empty(),
    {
        let man = OverlayMan { overlays: OverlaySlots::new(), key_to_overlay: KeyIndex::new() };
        proof {
            lemma_empty_wf();
        }
        man
    }

    /// Hands on the frames of the visible overlays, as layers in the order of the
    /// overlays' slots. A frame is handed on once: its overlay is left without one.
    ///
    /// Every overlay with a frame to show needs a swapchain in this session.
    pub fn get_layers(&mut self, session: &SessionData) -> (layers: Vec<CompositionLayerQuad>)
        requires
            old(self).wf(),
            old(self)@.layers_ready(session.overlay_data@),
        ensures
            final(self).wf(),
            final(self)@ == old(self)@.frames_taken(),
            layers@ == old(self)@.layers(session.overlay_data@, session.current_origin),
            final(self)@.by_key == old(self)@.by_key,
            forall|handle: VROverlayHandle_t| #[trigger]
                final(self)@.contains(handle) == old(self)@.contains(handle),
            forall|handle: VROverlayHandle_t| #[trigger]
                final(self)@.contains(handle) ==> {
                    let before = old(self)@.overlay(handle);
                    let now = final(self)@.overlay(handle);
                    &&& now.key == before.key
                    &&& now.name == before.name
                    &&& now.alpha == before.alpha
                    &&& now.width == before.width
                    &&& now.visible == before.visible
                    &&& now.bounds == before.bounds
                    &&& now.transform == before.transform
                    &&& now.compositor == before.compositor
                    &&& before.visible ==> now.last_frame is None
                    &&& !before.visible ==> now.last_frame == before.last_frame
                },
            layers@.len() == old(self)@.shown_handles().len(),
            forall|j: int|
                0 <= j < layers@.len() ==> {
                    let handle = old(self)@.shown_handles()[j];
                    let overlay = old(self)@.overlay(handle);
                    let layer = #[trigger] layers@[j];
                    &&& old(self)@.contains(handle)
                    &&& overlay.visible
                    &&& overlay.last_frame is Some
                    &&& layer.width == overlay.width
                    &&& layer.layer_flags == 2
                    &&& layer.eye_visibility == EyeVisibility::Both
                    &&& layer.sub_image.image_array_index == 0
                    &&& layer.sub_image.image_rect == overlay.last_frame->0.rect
                    &&& swapchain_of(session.overlay_data@, handle) == Some(
                        layer.sub_image.swapchain,
                    )
                    &&& overlay.transform matches Some((origin, matrix)) ==> layer.space == origin
                        && layer.pose == LayerPose::Transform(matrix)
                    &&& overlay.transform is None ==> layer.space == session.current_origin
                        && layer.pose == LayerPose::Fixed(
                        (Posef {
                            position: (Vector3f { x: 0, y: 0, z: 0xbf00_0000 }),
                            orientation: (Quaternionf { x: 0, y: 0, z: 0, w: 0x3f80_0000 }),
                        }),
                    )
                },
    {
        let ghost before = self@;
        let ghost swapchains = session.overlay_data@;
        let ghost shown = |handle: VROverlayHandle_t| before.overlay(handle).is_shown();
        let ghost to_layer = |handle: VROverlayHandle_t|
            before.layer(handle, swapchains, session.current_origin);

        let mut layers: Vec<CompositionLayerQuad> = Vec::with_capacity(self.overlays.len());
        let handles = self.overlays.keys();
        proof {
            lemma_live_handles(versions(before.slots));
            assert(handles@.take(0).filter(shown) =~= Seq::empty()) by {
                reveal(Seq::filter);
            }
            assert(layers@ =~= handles@.take(0).filter(shown).map_values(to_layer));
            lemma_no_frame_between(before, 0);
            assert(taken_below(before.slots, 0) =~= before.slots);
        }
        let mut n: usize = 0;
        while n < handles.len()
            invariant
                before.wf(),
                before.layers_ready(swapchains),
                swapchains == session.overlay_data@,
                handles@ == before.handles(),
                n <= handles.len(),
                self.key_to_overlay == old(self).key_to_overlay,
                free_slots(self.overlays) == before.free,
                overlay_slots(self.overlays) == taken_below(
                    before.slots,
                    slot_bound(before, n as int),
                ),
                shown == (|handle: VROverlayHandle_t| before.overlay(handle).is_shown()),
                to_layer == (|handle: VROverlayHandle_t|
                    before.layer(handle, swapchains, session.current_origin)),
                layers@ == handles@.take(n as int).filter(shown).map_values(to_layer),
            decreases handles.len() - n,
        {
            let handle = handles[n];
            let ghost index = slot_index(handle);
            proof {
                lemma_live_handles(versions(before.slots));
                assert(before.contains(handle));
                assert(handles@.take(n + 1).drop_last() =~= handles@.take(n as int));
                assert(handles@.take(n + 1).last() == handle);
                reveal(Seq::filter);
            }
            if let Some(overlay) = self.overlays.get_mut(handle) {
                if overlay.visible {
                    if let Some(data) = overlay.last_frame.take() {
                        if let Some(swapchain) = session.overlay_data.swapchain(handle) {
                            layers.push(
                                overlay.layer(data.rect, swapchain, session.current_origin),
                            );
                        }
                    }
                }
            }
            proof {
                assert(overlay_slots(self.overlays) =~= taken_below(before.slots, index + 1));
                lemma_no_frame_between(before, n + 1);
                assert(layers@ =~= handles@.take(n + 1).filter(shown).map_values(to_layer));
            }
            n += 1;
        }
        proof {
            assert(handles@.take(handles.len() as int) =~= handles@);
            assert(self@ =~= before.frames_taken());
            lemma_frames_taken_wf(before);
            assert forall|handle: VROverlayHandle_t| #[trigger]
                self@.contains(handle) == before.contains(handle) by {
                law_handing_on_takes_frames_alone(before, handle);
            }
            assert forall|handle: VROverlayHandle_t| #[trigger] self@.contains(handle) implies {
                let old_overlay = before.overlay(handle);
                let now = self@.overlay(handle);
                &&& now.key == old_overlay.key
                &&& now.name == old_overlay.name
                &&& now.alpha == old_overlay.alpha
                &&& now.width == old_overlay.width
                &&& now.visible == old_overlay.visible
                &&& now.bounds == old_overlay.bounds
                &&& now.transform == old_overlay.transform
                &&& now.compositor == old_overlay.compositor
                &&& old_overlay.visible ==> now.last_frame is None
                &&& !old_overlay.visible ==> now.last_frame == old_overlay.last_frame
            } by {
                law_handing_on_takes_frames_alone(before, handle);
            }
            assert forall|j: int| 0 <= j < layers@.len() implies {
                let handle = before.shown_handles()[j];
                let overlay = before.overlay(handle);
                let layer = #[trigger] layers@[j];
                &&& before.contains(handle)
                &&& overlay.visible
                &&& overlay.last_frame is Some
                &&& layer.width == overlay.width
                &&& layer.sub_image.image_rect == overlay.last_frame->0.rect
                &&& swapchain_of(swapchains, handle) == Some(layer.sub_image.swapchain)
            } by {
                law_layer_parts(before, swapchains, session.current_origin, j);
            }
        }
        layers
    }

    /// Whether one more overlay can be made.
    pub fn has_room(&self) -> (room: bool)
        requires
            self.wf(),
        ensures
            room == self@.has_room(),
    {
        self.overlays.len() < 0xffff_fffe
    }

    /// Whether there is an overlay with this handle.
    pub fn contains(&self, handle: VROverlayHandle_t) -> (known: bool)
        ensures
            known == self@.contains(handle),
    {
        self.overlays.get(handle).is_some()
    }

    /// Whether every overlay with a frame to show has a swapchain in this session.
    pub fn layers_ready(&self, session: &SessionData) -> (ready: bool)
        requires
            self.wf(),
        ensures
            ready == self@.layers_ready(session.overlay_data@),
    {
        let handles = self.overlays.keys();
        proof {
            lemma_live_handles(versions(self@.slots));
        }
        let mut n: usize = 0;
        while n < handles.len()
            invariant
                self.wf(),
                handles@ == self@.handles(),
                n <= handles.len(),
                forall|j: int|
                    0 <= j < handles.len() ==> self@.contains(#[trigger] handles@[j]),
                forall|j: int|
                    0 <= j < n && self@.overlay(#[trigger] handles@[j]).is_shown()
                        ==> swapchain_of(session.overlay_data@, handles@[j]) is Some,
            decreases handles.len() - n,
        {
            let handle = handles[n];
            assert(self@.contains(handles@[n as int]));
            if let Some(overlay) = self.overlays.get(handle) {
                if overlay.visible && overlay.last_frame.is_some()
                    && session.overlay_data.swapchain(handle).is_none() {
                    return false;
                }
            }
            n += 1;
        }
        proof {
            lemma_live_handles(versions(self@.slots));
            assert forall|handle: VROverlayHandle_t| #[trigger]
                self@.contains(handle) && self@.overlay(handle).is_shown() implies swapchain_of(
                session.overlay_data@,
                handle,
            ) is Some by {
                let index = slot_index(handle);
                lemma_canonical(handle);
                assert(versions(self@.slots)[index] % 2 == 1);
                let j = choose|j: int|
                    0 <= j < handles.len() && handles@[j] == make_handle(
                        index,
                        slot_version(handle),
                    );
                assert(handles@[j] == canonical(handle));
            }
        }
        true
    }

    /// Makes an overlay with the given key and name, and hands its handle out.
    ///
    /// The key leads to this overlay from now on, even if it led to another one.
    #[allow(non_snake_case)]
    pub fn CreateOverlay(
        &mut self,
        key: &[u8],
        name: &[u8],
        handle: Option<&mut VROverlayHandle_t>,
    ) -> (error: EVROverlayError)
        requires
            old(self).wf(),
            handle is Some ==> old(self)@.has_room(),
        ensures
            final(self).wf(),
            match handle {
                Some(out) => {
                    let made = old(self)@.next_handle();
                    &&& error == EVROverlayError::NoError
                    &&& *final(out) == made
                    &&& final(self)@ == old(self)@.created(final(self)@.overlay(made))
                    &&& final(self)@.overlay(made).is_new(key@, name@)
                    &&& final(self)@.contains(made)
                    &&& final(self)@.by_key == old(self)@.by_key.insert(key@, made)
                    &&& final(self)@.find(key@) == Some(made)
                    &&& final(self)@.overlay(made).key@ == key@
                    &&& final(self)@.overlay(made).name@ == name@
                },
                None => {
                    &&& error == EVROverlayError::InvalidParameter
                    &&& final(self)@ == old(self)@
                },
            },
    {
        let Some(out) = handle else {
            return EVROverlayError::InvalidParameter;
        };
        let overlay = Overlay::new(slice_to_vec(key), slice_to_vec(name));
        proof {
            lemma_created_wf(self@, overlay);
        }
        let made = self.overlays.insert(overlay);
        self.key_to_overlay.insert(slice_to_vec(key), made);
        *out = made;
        EVROverlayError::NoError
    }

    /// Finds the handle of the overlay that a key leads to.
    #[allow(non_snake_case)]
    pub fn FindOverlay(
        &self,
        key: &[u8],
        handle: Option<&mut VROverlayHandle_t>,
    ) -> (error: EVROverlayError)
        requires
            self.wf(),
        ensures
            match handle {
                Some(out) => if self@.by_key.contains_key(key@) {
                    error == EVROverlayError::NoError && *final(out) == self@.by_key[key@]
                } else {
                    error == EVROverlayError::UnknownOverlay && *final(out) == *out
                },
                None => error == EVROverlayError::InvalidParameter,
            },
            handle matches Some(out) ==> match self@.find(key@) {
                Some(found) => error == EVROverlayError::NoError && *final(out) == found,
                None => error == EVROverlayError::UnknownOverlay && *final(out) == *out,
            },
    {
        let Some(out) = handle else {
            return EVROverlayError::InvalidParameter;
        };
        match self.key_to_overlay.get(key) {
            Some(found) => {
                *out = found;
                EVROverlayError::NoError
            },
            None => EVROverlayError::UnknownOverlay,
        }
    }

    /// Lets an overlay be shown.
    #[allow(non_snake_case)]
    pub fn ShowOverlay(&mut self, handle: VROverlayHandle_t) -> (error: EVROverlayError)
        requires
            old(self).wf(),
        ensures
            final(self).wf(),
            error == answer(old(self)@, handle),
            final(self)@ == old(self)@.updated(
                handle,
                Overlay { visible: true, ..old(self)@.overlay(handle) },
            ),
            final(self)@ == old(self)@.with_visible(handle, true),
    {
        proof {
            lemma_updated_wf(
                self@,
                handle,
                Overlay { visible: true, ..self@.overlay(handle) },
            );
        }
        let Some(overlay) = self.overlays.get_mut(handle) else {
            return EVROverlayError::UnknownOverlay;
        };
        overlay.visible = true;
        EVROverlayError::NoError
    }

    /// Lets an overlay be shown no more.
    #[allow(non_snake_case)]
    pub fn HideOverlay(&mut self, handle: VROverlayHandle_t) -> (error: EVROverlayError)
        requires
            old(self).wf(),
        ensures
            final(self).wf(),
            error == answer(old(self)@, handle),
            final(self)@ == old(self)@.updated(
                handle,
                Overlay { visible: false, ..old(self)@.overlay(handle) },
            ),
            final(self)@ == old(self)@.with_visible(handle, false),
    {
        proof {
            lemma_updated_wf(
                self@,
                handle,
                Overlay { visible: false, ..self@.overlay(handle) },
            );
        }
        let Some(overlay) = self.overlays.get_mut(handle) else {
            return EVROverlayError::UnknownOverlay;
        };
        overlay.visible = false;
        EVROverlayError::NoError
    }

    /// Sets the opacity of an overlay, given as a bit pattern.
    #[allow(non_snake_case)]
    pub fn SetOverlayAlpha(
        &mut self,
        handle: VROverlayHandle_t,
        alpha: u32,
    ) -> (error: EVROverlayError)
        requires
            old(self).wf(),
        ensures
            final(self).wf(),
            error == answer(old(self)@, handle),
            final(self)@ == old(self)@.updated(
                handle,
                Overlay { alpha, ..old(self)@.overlay(handle) },
            ),
            final(self)@ == old(self)@.with_alpha(handle, alpha),
    {
        proof {
            lemma_updated_wf(
                self@,
                handle,
                Overlay { alpha, ..self@.overlay(handle) },
            );
        }
        let Some(overlay) = self.overlays.get_mut(handle) else {
            return EVROverlayError::UnknownOverlay;
        };
        overlay.alpha = alpha;
        EVROverlayError::NoError
    }

    /// Sets the width of an overlay in meters, given as a bit pattern.
    #[allow(non_snake_case)]
    pub fn SetOverlayWidthInMeters(
        &mut self,
        handle: VROverlayHandle_t,
        width: u32,
    ) -> (error: EVROverlayError)
        requires
            old(self).wf(),
        ensures
            final(self).wf(),
            error == answer(old(self)@, handle),
            final(self)@ == old(self)@.updated(
                handle,
                Overlay { width, ..old(self)@.overlay(handle) },
            ),
            final(self)@ == old(self)@.with_width(handle, width),
    {
        proof {
            lemma_updated_wf(
                self@,
                handle,
                Overlay { width, ..self@.overlay(handle) },
            );
        }
        let Some(overlay) = self.overlays.get_mut(handle) else {
            return EVROverlayError::UnknownOverlay;
        };
        overlay.width = width;
        EVROverlayError::NoError
    }

    /// Goes one step further in putting a texture onto an overlay: takes the reply
    /// to the present stage of the upload, and gives the next stage.
    ///
    /// The texture has to be a Vulkan texture, and the session must not know a
    /// later overlay in the slot of this one.
    #[allow(non_snake_case)]
    pub fn SetOverlayTexture(
        &mut self,
        handle: VROverlayHandle_t,
        texture: Option<Texture_t>,
        session_data: &mut SessionData,
        stage: TextureStage,
        reply: TextureReply,
    ) -> (next: Result<TextureStage, EVROverlayError>)
        requires
            old(self).wf(),
            old(self)@.contains(handle) && texture is Some ==> {
                &&& texture->0.eType == ETextureType::Vulkan
                &&& admitted(old(session_data).overlay_data@, handle)
                &&& stage.takes(reply)
            },
        ensures
            final(self).wf(),
            final(session_data).current_origin == old(session_data).current_origin,
            match next {
                Ok(stage_after) => {
                    let upload = texture_step(
                        TextureUpload {
                            overlay: old(self)@.overlay(handle),
                            swapchains: old(session_data).overlay_data@,
                            stage,
                        },
                        handle,
                        texture->0,
                        reply,
                    );
                    &&& old(self)@.contains(handle)
                    &&& texture is Some
                    &&& stage_after == upload.stage
                    &&& final(self)@ == old(self)@.updated(handle, upload.overlay)
                    &&& final(session_data).overlay_data@ == upload.swapchains
                },
                Err(error) => {
                    &&& error == (if old(self)@.contains(handle) {
                        EVROverlayError::InvalidParameter
                    } else {
                        EVROverlayError::UnknownOverlay
                    })
                    &&& !old(self)@.contains(handle) || texture is None
                    &&& final(self)@ == old(self)@
                    &&& final(session_data).overlay_data@ == old(session_data).overlay_data@
                },
            },
    {
        let ghost before = self@;
        let ghost swapchains = session_data.overlay_data@;
        let Some(overlay) = self.overlays.get_mut(handle) else {
            return Err(EVROverlayError::UnknownOverlay);
        };
        match texture {
            Some(texture) => {
                let next = overlay.set_texture(handle, session_data, texture, stage, reply);
                proof {
                    let upload = TextureUpload {
                        overlay: before.overlay(handle),
                        swapchains,
                        stage,
                    };
                    lemma_updated_wf(
                        before,
                        handle,
                        texture_step(upload, handle, texture, reply).overlay,
                    );
                }
                Ok(next)
            },
            None => {
                assert(self@.slots =~= before.slots);
                Err(EVROverlayError::InvalidParameter)
            },
        }
    }

    /// Says where an overlay stands.
    #[allow(non_snake_case)]
    pub fn SetOverlayTransformAbsolute(
        &mut self,
        handle: VROverlayHandle_t,
        origin: ETrackingUniverseOrigin,
        transform: Option<&HmdMatrix34_t>,
    ) -> (error: EVROverlayError)
        requires
            old(self).wf(),
        ensures
            final(self).wf(),
            error == answer_with(old(self)@, handle, transform is Some),
            final(self)@ == (match transform {
                Some(matrix) => old(self)@.updated(
                    handle,
                    Overlay {
                        transform: Some((origin, *matrix)),
                        ..old(self)@.overlay(handle)
                    },
                ),
                None => old(self)@,
            }),
            transform matches Some(matrix) ==> final(self)@ == old(self)@.with_transform(
                handle,
                origin,
                *matrix,
            ),
    {
        let ghost before = self@;
        let Some(overlay) = self.overlays.get_mut(handle) else {
            return EVROverlayError::UnknownOverlay;
        };
        match transform {
            Some(matrix) => {
                overlay.transform = Some((origin, *matrix));
                proof {
                    lemma_updated_wf(
                        before,
                        handle,
                        Overlay { transform: Some((origin, *matrix)), ..before.overlay(handle) },
                    );
                }
                EVROverlayError::NoError
            },
            None => {
                assert(self@.slots =~= before.slots);
                EVROverlayError::InvalidParameter
            },
        }
    }

    /// Says which part of its texture an overlay shows.
    #[allow(non_snake_case)]
    pub fn SetOverlayTextureBounds(
        &mut self,
        handle: VROverlayHandle_t,
        bounds: Option<&VRTextureBounds_t>,
    ) -> (error: EVROverlayError)
        requires
            old(self).wf(),
        ensures
            final(self).wf(),
            error == answer_with(old(self)@, handle, bounds is Some),
            final(self)@ == (match bounds {
                Some(part) => old(self)@.updated(
                    handle,
                    Overlay { bounds: *part, ..old(self)@.overlay(handle) },
                ),
                None => old(self)@,
            }),
            bounds matches Some(part) ==> final(self)@ == old(self)@.with_bounds(handle, *part),
    {
        let ghost before = self@;
        let Some(overlay) = self.overlays.get_mut(handle) else {
            return EVROverlayError::UnknownOverlay;
        };
        match bounds {
            Some(part) => {
                overlay.bounds = *part;
                proof {
                    lemma_updated_wf(
                        before,
                        handle,
                        Overlay { bounds: *part, ..before.overlay(handle) },
                    );
                }
                EVROverlayError::NoError
            },
            None => {
                assert(self@.slots =~= before.slots);
                EVROverlayError::InvalidParameter
            },
        }
    }

    /// Does away with an overlay, if there is one with this handle. Its key leads
    /// nowhere from now on, even if it led to another overlay with the same key.
    #[allow(non_snake_case)]
    pub fn DestroyOverlay(&mut self, handle: VROverlayHandle_t) -> (error: EVROverlayError)
        requires
            old(self).wf(),
        ensures
            final(self).wf(),
            error == EVROverlayError::NoError,
            final(self)@ == old(self)@.destroyed(handle),
    {
        proof {
            lemma_destroyed_wf(self@, handle);
        }
        if let Some(overlay) = self.overlays.remove(handle) {
            self.key_to_overlay.remove(overlay.key.as_slice());
        }
        EVROverlayError::NoError
    }

    /// Whether the dashboard is shown: there is none.
    #[allow(non_snake_case)]
    pub fn IsDashboardVisible(&self) -> (visible: bool)
        ensures
            !visible,
    {
        false
    }

    /// Accepts a transform that follows a tracked device, without effect.
    #[allow(non_snake_case)]
    pub fn SetOverlayTransformTrackedDeviceRelative(
        &self,
        _handle: VROverlayHandle_t,
        _device: TrackedDeviceIndex_t,
        _transform: Option<&HmdMatrix34_t>,
    ) -> (error: EVROverlayError)
        ensures
            error == EVROverlayError::NoError,
    {
        EVROverlayError::NoError
    }

    /// Accepts a sort order, without effect.
    #[allow(non_snake_case)]
    pub fn SetOverlaySortOrder(
        &self,
        _handle: VROverlayHandle_t,
        _sort_order: u32,
    ) -> (error: EVROverlayError)
        ensures
            error == EVROverlayError::NoError,
    {
        EVROverlayError::NoError
    }

    /// Accepts a texel aspect, given as a bit pattern, without effect.
    #[allow(non_snake_case)]
    pub fn SetOverlayTexelAspect(
        &self,
        _handle: VROverlayHandle_t,
        _aspect: u32,
    ) -> (error: EVROverlayError)
        ensures
            error == EVROverlayError::NoError,
    {
        EVROverlayError::NoError
    }
}

} // verus!
