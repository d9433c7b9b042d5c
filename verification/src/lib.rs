//! The overlays of an OpenVR runtime on top of OpenXR.
//!
//! Clients make overlays, find them by key, change them and put textures onto them;
//! the compositor collects, frame by frame, a layer for every overlay that has
//! something to show.
//!
//! [`OverlayMan`] keeps the overlays. What its operations do is stated as a change
//! of an [`OverlayTable`](table::OverlayTable). What holds of several operations
//! together is stated in [`laws`], and what becomes of each single setting in
//! [`effects`]. Handles are slot numbers with a version, kept by the `slotmap` crate;
//! what is taken on trust of that crate is in [`slots`].
pub mod effects;
pub mod handle;
mod key_index;
pub mod laws;
pub mod manager;
pub mod overlay;
pub mod session;
pub mod slots;
pub mod table;
pub mod texture;
pub mod vr;
pub mod xr;

pub use crate::manager::OverlayMan;
pub use crate::overlay::Overlay;
pub use crate::session::OverlaySessionData;
