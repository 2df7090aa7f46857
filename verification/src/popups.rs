//! Native xdg_popup grab lifecycle: who may grab, when a grab ends, and what
//! the compositor's popup state becomes at each step.
//!
//! The compositor-side effects (sending `popup_done`, dismissing popups,
//! installing and unsetting device grabs) are performed by the caller with
//! the decisions computed here.

use crate::identity::Identity;
use crate::serials::InputSerials;
use vstd::prelude::*;

verus! {

/// What holds a seat device (keyboard, pointer or touch) when it is examined.
#[derive(Clone, Copy, Debug, PartialEq, Eq, Structural)]
pub enum ActiveGrab {
    /// The seat has no such device.
    NoDevice,
    /// The device exists and no grab is active on it.
    Ungrabbed,
    /// The device is held by the popup grab.
    Popup,
    /// The device is held by the implicit grab of a press (a click or a touch
    /// down); `focus_on_root_client` tells whether that grab has a focus
    /// surface that belongs to the client of the popup's root surface.
    Implicit { focus_on_root_client: bool },
    /// The device is held by some other grab.
    Other,
}

/// The keyboard does not stand in the way of a popup grab: it is absent,
/// ungrabbed, or already held by the popup grab.
pub open spec fn keyboard_permits(g: ActiveGrab) -> bool {
    match g {
        ActiveGrab::NoDevice | ActiveGrab::Ungrabbed | ActiveGrab::Popup => true,
        _ => false,
    }
}

/// The pointer or touch device does not stand in the way of a popup grab: as
/// for the keyboard, or it is held by the implicit grab of a press on the
/// popup's own client.
pub open spec fn pointer_permits(g: ActiveGrab) -> bool {
    match g {
        ActiveGrab::NoDevice | ActiveGrab::Ungrabbed | ActiveGrab::Popup => true,
        ActiveGrab::Implicit { focus_on_root_client } => focus_on_root_client,
        ActiveGrab::Other => false,
    }
}

/// What the compositor observed about a client's request to grab a popup
/// whose root surface was found.
pub struct GrabEvidence<C> {
    /// The request names the compositor's own seat.
    pub seat_matches: bool,
    /// The client that owns the popup's surface, if it is still connected.
    pub owner: Option<C>,
    /// The serial the client quoted.
    pub serial: u32,
    /// The popup's root surface is that of the focused window.
    pub root_is_focused: bool,
    pub keyboard: ActiveGrab,
    pub pointer: ActiveGrab,
    pub touch: ActiveGrab,
}

/// What becomes of a popup grab request.
#[derive(Clone, Copy, Debug, PartialEq, Eq, Structural)]
pub enum GrabDecision {
    /// The popup has no root surface: it is told that it is done.
    Abandon,
    /// The request is not authorized: the popup is dismissed.
    Refuse,
    /// The grab is installed on every device of the seat.
    Grant,
}

/// What reconciling the popup grab found.
#[derive(Clone, Copy, Debug, PartialEq, Eq, Structural)]
pub enum GrabReconcile {
    /// There is no popup grab.
    NoGrab,
    /// The popup grab goes on.
    Ongoing,
    /// The popup grab has ended and was dropped.
    Ended,
}

/// The abstract popup state of the compositor.
#[verifier::reject_recursive_types(C)]
pub struct PopupModel<C> {
    /// The `(serial, client)` input deliveries recorded.
    pub serials: Set<(u32, C)>,
    /// The screen must be redrawn.
    pub screen_dirty: bool,
    /// A popup grab is installed.
    pub grab_active: bool,
}

/// Whether `evidence` authorizes a popup grab, given the recorded deliveries.
pub open spec fn grab_authorized<C>(serials: Set<(u32, C)>, evidence: GrabEvidence<C>) -> bool {
    &&& evidence.seat_matches
    &&& match evidence.owner {
        Some(c) => serials.contains((evidence.serial, c)),
        None => false,
    }
    &&& evidence.root_is_focused
    &&& keyboard_permits(evidence.keyboard)
    &&& pointer_permits(evidence.pointer)
    &&& pointer_permits(evidence.touch)
}

/// The decision on a popup grab request; `None` when the popup's root
/// surface was not found.
pub open spec fn grab_decision<C>(m: PopupModel<C>, evidence: Option<GrabEvidence<C>>) -> GrabDecision {
    match evidence {
        None => GrabDecision::Abandon,
        Some(ev) => if grab_authorized(m.serials, ev) {
            GrabDecision::Grant
        } else {
            GrabDecision::Refuse
        },
    }
}

/// The state after recording an input delivery to the client of a surface
/// (`None` when the surface has no client).
pub open spec fn after_input_serial<C>(m: PopupModel<C>, serial: u32, client: Option<C>) -> PopupModel<C> {
    match client {
        Some(c) => PopupModel { serials: m.serials.insert((serial, c)), ..m },
        None => m,
    }
}

/// The state after deciding a popup grab request.
pub open spec fn after_grab_request<C>(m: PopupModel<C>, evidence: Option<GrabEvidence<C>>) -> PopupModel<C> {
    if grab_decision(m, evidence) == GrabDecision::Refuse {
        PopupModel { screen_dirty: true, ..m }
    } else {
        m
    }
}

/// The state after a window's popups were dismissed.
pub open spec fn after_window_dismissal<C>(m: PopupModel<C>) -> PopupModel<C> {
    PopupModel { serials: Set::empty(), screen_dirty: true, ..m }
}

/// What reconciling finds, `ended` telling whether the grab has ended.
pub open spec fn reconcile_outcome<C>(m: PopupModel<C>, ended: bool) -> GrabReconcile {
    if !m.grab_active {
        GrabReconcile::NoGrab
    } else if ended {
        GrabReconcile::Ended
    } else {
        GrabReconcile::Ongoing
    }
}

/// The state after reconciling the popup grab.
pub open spec fn after_reconcile<C>(m: PopupModel<C>, ended: bool) -> PopupModel<C> {
    if reconcile_outcome(m, ended) == GrabReconcile::Ended {
        PopupModel { grab_active: false, screen_dirty: true, ..m }
    } else {
        m
    }
}

/// The compositor's popup state: the recorded input deliveries, whether the
/// screen must be redrawn, and the popup grab `G` if one is installed.
pub struct PopupState<C, G> {
    pub input_serials: InputSerials<C>,
    pub screen_dirty: bool,
    pub popup_grab: Option<G>,
}

impl<C, G> View for PopupState<C, G> {
    type V = PopupModel<C>;

    open spec fn view(&self) -> PopupModel<C> {
        PopupModel {
            serials: self.input_serials@,
            screen_dirty: self.screen_dirty,
            grab_active: self.popup_grab is Some,
        }
    }
}

impl<C: Identity, G> PopupState<C, G> {
    /// No delivery recorded, nothing to redraw, no grab.
    pub fn new() -> (r: Self)
        ensures
            r@ == (PopupModel::<C> { serials: Set::empty(), screen_dirty: false, grab_active: false }),
    {
        PopupState { input_serials: InputSerials::new(), screen_dirty: false, popup_grab: None }
    }

    /// Only input actions actually delivered to a client authorize a grab:
    /// record that the event with `serial` was delivered to `client`, the
    /// client of the receiving surface (`None` when it has none).
    pub fn record_input_serial(&mut self, serial: u32, client: Option<C>)
        ensures
            final(self)@ == after_input_serial(old(self)@, serial, client),
            final(self).popup_grab == old(self).popup_grab,
    {
        if let Some(c) = client {
            self.input_serials.record(serial, c);
        }
    }

    /// Decide a client's request to grab a popup. `evidence` is `None` when
    /// the popup's root surface was not found. A refused request marks the
    /// screen dirty, as its popup is dismissed.
    pub fn request_popup_grab(&mut self, evidence: Option<GrabEvidence<C>>) -> (r: GrabDecision)
        ensures
            r == grab_decision(old(self)@, evidence),
            final(self)@ == after_grab_request(old(self)@, evidence),
            final(self).popup_grab == old(self).popup_grab,
    {
        match evidence {
            None => GrabDecision::Abandon,
            Some(ev) => {
                let owner_delivered = match &ev.owner {
                    Some(c) => self.input_serials.contains(ev.serial, c),
                    None => false,
                };
                if ev.seat_matches && owner_delivered && ev.root_is_focused && keyboard_allows(ev.keyboard)
                    && pointer_allows(ev.pointer) && pointer_allows(ev.touch) {
                    GrabDecision::Grant
                } else {
                    self.screen_dirty = true;
                    GrabDecision::Refuse
                }
            },
        }
    }

    /// The granted grab was installed on the seat.
    pub fn install_popup_grab(&mut self, grab: G)
        ensures
            final(self)@ == (PopupModel { grab_active: true, ..old(self)@ }),
            final(self).popup_grab == Some(grab),
    {
        self.popup_grab = Some(grab);
    }

    /// The popups of a window were dismissed: every recorded delivery is
    /// forgotten and the screen must be redrawn.
    pub fn forget_window_popups(&mut self)
        ensures
            final(self)@ == after_window_dismissal(old(self)@),
            final(self).popup_grab == old(self).popup_grab,
    {
        self.input_serials.clear();
        self.screen_dirty = true;
    }

    /// A popup whose parent went away was dismissed.
    pub fn forget_orphan_popup(&mut self)
        ensures
            final(self)@ == (PopupModel { screen_dirty: true, ..old(self)@ }),
            final(self).popup_grab == old(self).popup_grab,
    {
        self.screen_dirty = true;
    }

    /// Reconcile the popup grab with whether it has `ended`: an ended grab is
    /// dropped and the screen must be redrawn.
    pub fn reconcile_popup_grab(&mut self, ended: bool) -> (r: GrabReconcile)
        ensures
            r == reconcile_outcome(old(self)@, ended),
            final(self)@ == after_reconcile(old(self)@, ended),
            r != GrabReconcile::Ended ==> final(self).popup_grab == old(self).popup_grab,
    {
        if self.popup_grab.is_none() {
            GrabReconcile::NoGrab
        } else if ended {
            self.popup_grab = None;
            self.screen_dirty = true;
            GrabReconcile::Ended
        } else {
            GrabReconcile::Ongoing
        }
    }
}

/// Executable form of `keyboard_permits`.
pub fn keyboard_allows(g: ActiveGrab) -> (r: bool)
    ensures
        r == keyboard_permits(g),
{
    match g {
        ActiveGrab::NoDevice | ActiveGrab::Ungrabbed | ActiveGrab::Popup => true,
        _ => false,
    }
}

/// Executable form of `pointer_permits`.
pub fn pointer_allows(g: ActiveGrab) -> (r: bool)
    ensures
        r == pointer_permits(g),
{
    match g {
        ActiveGrab::NoDevice | ActiveGrab::Ungrabbed | ActiveGrab::Popup => true,
        ActiveGrab::Implicit { focus_on_root_client } => focus_on_root_client,
        ActiveGrab::Other => false,
    }
}

/// When a popup grab has ended, a device's grab is unset exactly when the
/// device is held by the popup grab.
pub fn releases_device(g: ActiveGrab) -> (r: bool)
    ensures
        r == (g == ActiveGrab::Popup),
{
    match g {
        ActiveGrab::Popup => true,
        _ => false,
    }
}

/// The keyboard focus that follows a popup grab: its current grab surface,
/// if that surface is still alive.
pub fn live_focus<T>(current: Option<T>, alive: bool) -> (r: Option<T>)
    ensures
        r == (if alive { current } else { None }),
{
    if alive {
        current
    } else {
        None
    }
}

/// Only input actions actually delivered to a client authorize a grab: a
/// granted request quotes the serial of an event recorded as delivered to
/// the popup's owner.
pub proof fn lemma_grant_requires_delivery<C>(m: PopupModel<C>, evidence: GrabEvidence<C>)
    requires
        grab_decision(m, Some(evidence)) == GrabDecision::Grant,
    ensures
        evidence.owner is Some,
        m.serials.contains((evidence.serial, evidence.owner->0)),
        evidence.seat_matches,
        evidence.root_is_focused,
{
}

/// Once a window's popups are dismissed, no popup grab is granted before a
/// new input delivery is recorded.
pub proof fn lemma_window_dismissal_revokes_grants<C>(m: PopupModel<C>, evidence: GrabEvidence<C>)
    ensures
        grab_decision(after_window_dismissal(m), Some(evidence)) != GrabDecision::Grant,
{
}

/// Recording the delivery of an event to a client lets that client grab a
/// popup with the event's serial, whenever the rest of the evidence permits.
pub proof fn lemma_recorded_delivery_authorizes<C>(m: PopupModel<C>, evidence: GrabEvidence<C>, client: C)
    requires
        evidence.owner == Some(client),
        evidence.seat_matches,
        evidence.root_is_focused,
        keyboard_permits(evidence.keyboard),
        pointer_permits(evidence.pointer),
        pointer_permits(evidence.touch),
    ensures
        grab_decision(after_input_serial(m, evidence.serial, Some(client)), Some(evidence)) == GrabDecision::Grant,
{
}

/// An ended grab is dropped once: reconciling again finds no grab and changes
/// nothing, and reconciling never touches the recorded deliveries.
pub proof fn lemma_reconcile_drops_ended_grab_once<C>(m: PopupModel<C>, ended: bool, again: bool)
    ensures
        after_reconcile(m, ended).serials == m.serials,
        reconcile_outcome(after_reconcile(m, true), again) == GrabReconcile::NoGrab,
        after_reconcile(after_reconcile(m, true), again) == after_reconcile(m, true),
        m.grab_active && !ended ==> after_reconcile(m, ended) == m,
{
}

/// One operation on the popup state, as its method's `ensures` describes it.
#[verifier::reject_recursive_types(C)]
pub enum PopupStep<C> {
    /// `record_input_serial(serial, client)`.
    Delivery(u32, Option<C>),
    /// `request_popup_grab(evidence)`.
    Request(Option<GrabEvidence<C>>),
    /// `install_popup_grab(..)`.
    Install,
    /// `forget_window_popups()`.
    WindowDismissal,
    /// `forget_orphan_popup()`.
    OrphanDismissal,
    /// `reconcile_popup_grab(ended)`.
    Reconcile(bool),
}

/// The state after one step.
pub open spec fn after_step<C>(m: PopupModel<C>, step: PopupStep<C>) -> PopupModel<C> {
    match step {
        PopupStep::Delivery(serial, client) => after_input_serial(m, serial, client),
        PopupStep::Request(evidence) => after_grab_request(m, evidence),
        PopupStep::Install => PopupModel { grab_active: true, ..m },
        PopupStep::WindowDismissal => after_window_dismissal(m),
        PopupStep::OrphanDismissal => PopupModel { screen_dirty: true, ..m },
        PopupStep::Reconcile(ended) => after_reconcile(m, ended),
    }
}

/// The state after the steps, in order.
pub open spec fn after_steps<C>(m: PopupModel<C>, steps: Seq<PopupStep<C>>) -> PopupModel<C>
    decreases steps.len(),
{
    if steps.len() == 0 {
        m
    } else {
        after_step(after_steps(m, steps.drop_last()), steps.last())
    }
}

/// Whether one of the steps records the delivery of `serial` to `client`.
pub open spec fn delivers<C>(steps: Seq<PopupStep<C>>, serial: u32, client: C) -> bool {
    exists|i: int| 0 <= i < steps.len() && #[trigger] steps[i] == PopupStep::Delivery(serial, Some(client))
}

proof fn lemma_steps_only_add_deliveries<C>(m: PopupModel<C>, steps: Seq<PopupStep<C>>, serial: u32, client: C)
    requires
        after_steps(m, steps).serials.contains((serial, client)),
    ensures
        m.serials.contains((serial, client)) || delivers(steps, serial, client),
    decreases steps.len(),
{
    if steps.len() > 0 {
        let prev = steps.drop_last();
        let before = after_steps(m, prev);
        let last = steps.len() - 1;
        if before.serials.contains((serial, client)) {
            lemma_steps_only_add_deliveries(m, prev, serial, client);
            if delivers(prev, serial, client) {
                let i = choose|i: int| 0 <= i < prev.len() && #[trigger] prev[i] == PopupStep::Delivery(serial, Some(client));
                assert(steps[i] == prev[i]);
            }
        } else {
            assert(steps[last] == steps.last());
            assert(steps[last] == PopupStep::Delivery(serial, Some(client)));
        }
    }
}

/// Serials delivered before a window's popups were dismissed no longer
/// authorize a grab: after the dismissal and any later steps (deliveries to
/// other serials or clients, requests, installs, reconciles, dismissals), a
/// request quoting a serial that no later step delivered to the popup's
/// owner is not granted.
pub proof fn lemma_window_dismissal_revokes_grants_for_good<C>(
    m: PopupModel<C>,
    steps: Seq<PopupStep<C>>,
    evidence: GrabEvidence<C>,
)
    requires
        forall|c: C| evidence.owner == Some(c) ==> !delivers(steps, evidence.serial, c),
    ensures
        grab_decision(after_steps(after_window_dismissal(m), steps), Some(evidence)) != GrabDecision::Grant,
{
    let later = after_steps(after_window_dismissal(m), steps);
    if let Some(c) = evidence.owner {
        if later.serials.contains((evidence.serial, c)) {
            lemma_steps_only_add_deliveries(after_window_dismissal(m), steps, evidence.serial, c);
        }
    }
}

/// Devices that nobody holds never stand in the way: a request quoting a
/// serial recorded for the popup's owner, on the compositor's seat, for the
/// focused window's popup, is granted when every device is absent or has no
/// active grab.
pub proof fn lemma_idle_devices_never_block_grab<C>(m: PopupModel<C>, evidence: GrabEvidence<C>, owner: C)
    requires
        evidence.owner == Some(owner),
        m.serials.contains((evidence.serial, owner)),
        evidence.seat_matches,
        evidence.root_is_focused,
        evidence.keyboard == ActiveGrab::NoDevice || evidence.keyboard == ActiveGrab::Ungrabbed,
        evidence.pointer == ActiveGrab::NoDevice || evidence.pointer == ActiveGrab::Ungrabbed,
        evidence.touch == ActiveGrab::NoDevice || evidence.touch == ActiveGrab::Ungrabbed,
    ensures
        grab_decision(m, Some(evidence)) == GrabDecision::Grant,
{
}

/// A device already held by the popup grab, or a pointer or touch device held
/// by the implicit grab of a press on the popup's own client, does not stand
/// in the way of an otherwise authorized grab.
pub proof fn lemma_popup_and_own_press_grabs_do_not_block<C>(m: PopupModel<C>, evidence: GrabEvidence<C>, owner: C)
    requires
        evidence.owner == Some(owner),
        m.serials.contains((evidence.serial, owner)),
        evidence.seat_matches,
        evidence.root_is_focused,
        evidence.keyboard == ActiveGrab::NoDevice || evidence.keyboard == ActiveGrab::Ungrabbed
            || evidence.keyboard == ActiveGrab::Popup,
        evidence.pointer == ActiveGrab::NoDevice || evidence.pointer == ActiveGrab::Ungrabbed
            || evidence.pointer == ActiveGrab::Popup
            || evidence.pointer == (ActiveGrab::Implicit { focus_on_root_client: true }),
        evidence.touch == ActiveGrab::NoDevice || evidence.touch == ActiveGrab::Ungrabbed
            || evidence.touch == ActiveGrab::Popup
            || evidence.touch == (ActiveGrab::Implicit { focus_on_root_client: true }),
    ensures
        grab_decision(m, Some(evidence)) == GrabDecision::Grant,
{
}

/// A device held by another grab, or by a press on another client, blocks a
/// popup grab whatever else the request has going for it.
pub proof fn lemma_foreign_grabs_block<C>(m: PopupModel<C>, evidence: GrabEvidence<C>)
    requires
        evidence.keyboard == ActiveGrab::Other
            || evidence.keyboard == (ActiveGrab::Implicit { focus_on_root_client: true })
            || evidence.keyboard == (ActiveGrab::Implicit { focus_on_root_client: false })
            || evidence.pointer == ActiveGrab::Other
            || evidence.pointer == (ActiveGrab::Implicit { focus_on_root_client: false })
            || evidence.touch == ActiveGrab::Other
            || evidence.touch == (ActiveGrab::Implicit { focus_on_root_client: false }),
    ensures
        grab_decision(m, Some(evidence)) == GrabDecision::Refuse,
{
}

/// Recording a delivery keeps every earlier one: the recorded deliveries
/// afterwards are exactly the earlier ones and the new one, and the rest of
/// the state is untouched. Input to a surface without a client changes
/// nothing.
pub proof fn lemma_recording_keeps_earlier_deliveries<C>(m: PopupModel<C>, serial: u32, client: C, other: (u32, C))
    ensures
        after_input_serial(m, serial, Some(client)).serials.contains(other) <==> (m.serials.contains(other) || other
            == (serial, client)),
        after_input_serial(m, serial, Some(client)).screen_dirty == m.screen_dirty,
        after_input_serial(m, serial, Some(client)).grab_active == m.grab_active,
        after_input_serial(m, serial, None) == m,
{
}

/// Deliveries accumulate: after two deliveries, a grab with the serial of
/// either is granted to its client, other conditions permitting.
pub proof fn lemma_two_deliveries_both_authorize<C>(
    m: PopupModel<C>,
    s1: u32,
    c1: C,
    s2: u32,
    c2: C,
    evidence: GrabEvidence<C>,
)
    requires
        evidence.seat_matches,
        evidence.root_is_focused,
        evidence.keyboard == ActiveGrab::Ungrabbed,
        evidence.pointer == ActiveGrab::Ungrabbed,
        evidence.touch == ActiveGrab::Ungrabbed,
        (evidence.serial, evidence.owner) == (s1, Some(c1)) || (evidence.serial, evidence.owner) == (s2, Some(c2)),
    ensures
        grab_decision(after_input_serial(after_input_serial(m, s1, Some(c1)), s2, Some(c2)), Some(evidence))
            == GrabDecision::Grant,
{
    let m2 = after_input_serial(after_input_serial(m, s1, Some(c1)), s2, Some(c2));
    assert(m2.serials.contains((s1, c1)));
    assert(m2.serials.contains((s2, c2)));
}

/// A request for a popup without a root is abandoned and changes nothing; a
/// request that is not granted dismisses the popup, so the screen must be
/// redrawn; a granted one leaves the state as it was. No request touches the
/// recorded deliveries or the installed grab.
pub proof fn lemma_request_outcomes<C>(m: PopupModel<C>, evidence: GrabEvidence<C>)
    ensures
        grab_decision(m, None) == GrabDecision::Abandon,
        after_grab_request(m, None) == m,
        grab_decision(m, Some(evidence)) != GrabDecision::Abandon,
        grab_decision(m, Some(evidence)) != GrabDecision::Grant ==> after_grab_request(m, Some(evidence)).screen_dirty,
        grab_decision(m, Some(evidence)) == GrabDecision::Grant ==> after_grab_request(m, Some(evidence)) == m,
        after_grab_request(m, Some(evidence)).serials == m.serials,
        after_grab_request(m, Some(evidence)).grab_active == m.grab_active,
{
}

} // verus!
