use moonshine_core::popups::{
    keyboard_allows, live_focus, pointer_allows, releases_device, ActiveGrab, GrabDecision, GrabEvidence,
    GrabReconcile, PopupState,
};
use moonshine_core::serials::InputSerials;

fn evidence(owner: Option<u64>, serial: u32) -> GrabEvidence<u64> {
    GrabEvidence {
        seat_matches: true,
        owner,
        serial,
        root_is_focused: true,
        keyboard: ActiveGrab::Ungrabbed,
        pointer: ActiveGrab::Implicit { focus_on_root_client: true },
        touch: ActiveGrab::NoDevice,
    }
}

#[test]
fn serials_record_contains_clear() {
    let mut s: InputSerials<u64> = InputSerials::new();
    assert!(!s.contains(7, &1));
    s.record(7, 1);
    s.record(7, 1);
    assert!(s.contains(7, &1));
    assert!(!s.contains(7, &2));
    assert!(!s.contains(8, &1));
    s.clear();
    assert!(!s.contains(7, &1));
}

#[test]
fn grab_with_delivered_serial_is_granted() {
    let mut st: PopupState<u64, &str> = PopupState::new();
    st.record_input_serial(42, Some(5));
    assert_eq!(st.request_popup_grab(Some(evidence(Some(5), 42))), GrabDecision::Grant);
    assert!(!st.screen_dirty);
}

#[test]
fn grab_with_serial_of_another_client_is_refused() {
    let mut st: PopupState<u64, &str> = PopupState::new();
    st.record_input_serial(42, Some(6));
    assert_eq!(st.request_popup_grab(Some(evidence(Some(5), 42))), GrabDecision::Refuse);
    assert!(st.screen_dirty);
}

#[test]
fn input_without_client_authorizes_nothing() {
    let mut st: PopupState<u64, &str> = PopupState::new();
    st.record_input_serial(42, None);
    assert_eq!(st.request_popup_grab(Some(evidence(Some(5), 42))), GrabDecision::Refuse);
}

#[test]
fn grab_without_owner_is_refused() {
    let mut st: PopupState<u64, &str> = PopupState::new();
    st.record_input_serial(42, Some(5));
    assert_eq!(st.request_popup_grab(Some(evidence(None, 42))), GrabDecision::Refuse);
}

#[test]
fn grab_without_root_is_abandoned() {
    let mut st: PopupState<u64, &str> = PopupState::new();
    assert_eq!(st.request_popup_grab(None), GrabDecision::Abandon);
    assert!(!st.screen_dirty);
}

#[test]
fn grab_refused_for_each_unmet_condition() {
    let mut st: PopupState<u64, &str> = PopupState::new();
    st.record_input_serial(1, Some(9));
    let mut e = evidence(Some(9), 1);
    e.seat_matches = false;
    assert_eq!(st.request_popup_grab(Some(e)), GrabDecision::Refuse);
    let mut e = evidence(Some(9), 1);
    e.root_is_focused = false;
    assert_eq!(st.request_popup_grab(Some(e)), GrabDecision::Refuse);
    let mut e = evidence(Some(9), 1);
    e.keyboard = ActiveGrab::Implicit { focus_on_root_client: true };
    assert_eq!(st.request_popup_grab(Some(e)), GrabDecision::Refuse);
    let mut e = evidence(Some(9), 1);
    e.pointer = ActiveGrab::Implicit { focus_on_root_client: false };
    assert_eq!(st.request_popup_grab(Some(e)), GrabDecision::Refuse);
    let mut e = evidence(Some(9), 1);
    e.touch = ActiveGrab::Other;
    assert_eq!(st.request_popup_grab(Some(e)), GrabDecision::Refuse);
    let mut e = evidence(Some(9), 1);
    e.keyboard = ActiveGrab::Popup;
    e.pointer = ActiveGrab::Popup;
    e.touch = ActiveGrab::Popup;
    assert_eq!(st.request_popup_grab(Some(e)), GrabDecision::Grant);
}

#[test]
fn device_permissions() {
    assert!(keyboard_allows(ActiveGrab::NoDevice));
    assert!(keyboard_allows(ActiveGrab::Ungrabbed));
    assert!(keyboard_allows(ActiveGrab::Popup));
    assert!(!keyboard_allows(ActiveGrab::Other));
    assert!(!keyboard_allows(ActiveGrab::Implicit { focus_on_root_client: true }));
    assert!(pointer_allows(ActiveGrab::Implicit { focus_on_root_client: true }));
    assert!(!pointer_allows(ActiveGrab::Implicit { focus_on_root_client: false }));
    assert!(!pointer_allows(ActiveGrab::Other));
}

#[test]
fn window_dismissal_revokes_serials() {
    let mut st: PopupState<u64, &str> = PopupState::new();
    st.record_input_serial(3, Some(1));
    st.forget_window_popups();
    assert!(st.screen_dirty);
    assert_eq!(st.request_popup_grab(Some(evidence(Some(1), 3))), GrabDecision::Refuse);
}

#[test]
fn reconcile_drops_ended_grab_once() {
    let mut st: PopupState<u64, &str> = PopupState::new();
    assert_eq!(st.reconcile_popup_grab(true), GrabReconcile::NoGrab);
    assert!(!st.screen_dirty);
    st.install_popup_grab("grab");
    assert_eq!(st.reconcile_popup_grab(false), GrabReconcile::Ongoing);
    assert_eq!(st.popup_grab, Some("grab"));
    assert!(!st.screen_dirty);
    assert_eq!(st.reconcile_popup_grab(true), GrabReconcile::Ended);
    assert_eq!(st.popup_grab, None);
    assert!(st.screen_dirty);
    assert_eq!(st.reconcile_popup_grab(true), GrabReconcile::NoGrab);
}

#[test]
fn orphan_dismissal_marks_screen_dirty() {
    let mut st: PopupState<u64, &str> = PopupState::new();
    st.install_popup_grab("g");
    st.forget_orphan_popup();
    assert!(st.screen_dirty);
    assert_eq!(st.popup_grab, Some("g"));
}

#[test]
fn ended_grab_releases_only_popup_held_devices() {
    assert!(releases_device(ActiveGrab::Popup));
    assert!(!releases_device(ActiveGrab::Ungrabbed));
    assert!(!releases_device(ActiveGrab::NoDevice));
    assert!(!releases_device(ActiveGrab::Implicit { focus_on_root_client: true }));
    assert!(!releases_device(ActiveGrab::Other));
}

#[test]
fn focus_follows_only_live_surfaces() {
    assert_eq!(live_focus(Some(4), true), Some(4));
    assert_eq!(live_focus(Some(4), false), None);
    assert_eq!(live_focus::<u8>(None, true), None);
}

#[test]
fn dismissal_revokes_grants_across_later_steps() {
    let mut st: PopupState<u64, &str> = PopupState::new();
    st.record_input_serial(3, Some(1));
    st.forget_window_popups();
    st.record_input_serial(3, Some(2));
    st.record_input_serial(4, Some(1));
    st.install_popup_grab("g");
    assert_eq!(st.reconcile_popup_grab(true), GrabReconcile::Ended);
    st.forget_orphan_popup();
    assert_eq!(st.request_popup_grab(Some(evidence(Some(1), 3))), GrabDecision::Refuse);
    assert_eq!(st.request_popup_grab(Some(evidence(Some(1), 4))), GrabDecision::Grant);
}
