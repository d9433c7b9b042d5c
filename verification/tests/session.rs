use overlay::session::{OverlaySessionData, SessionData};
use overlay::vr::ETrackingUniverseOrigin;

#[test]
fn new_session_has_no_swapchain() {
    let session = SessionData::new(ETrackingUniverseOrigin::Standing);
    assert_eq!(session.overlay_data.swapchain(0x1_0000_0001), None);
    assert_eq!(session.current_origin, ETrackingUniverseOrigin::Standing);
}

#[test]
fn a_new_session_admits_handles() {
    let mut data = OverlaySessionData::default();
    assert_eq!(data.entry(0x1_0000_0001), Some(None));
    assert_eq!(data.entry(0x7fff_ffff_0000_0002), Some(None));
}

#[test]
fn the_null_handle_has_no_entry() {
    let mut data = OverlaySessionData::default();
    assert_eq!(data.entry(0x1_ffff_ffff), None);
    assert_eq!(data.swapchain(0x1_ffff_ffff), None);
}

#[test]
fn versions_in_the_upper_half_count_as_older_than_nothing() {
    let mut data = OverlaySessionData::default();
    assert_eq!(data.entry(0x8000_0001_0000_0001), None);
}
