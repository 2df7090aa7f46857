//! Per-popup decisions taken when the compositor refreshes its popups after
//! client requests, and the pointer re-targeting that follows.

use vstd::prelude::*;

verus! {

/// What the compositor knows of a popup when it refreshes it.
#[derive(Clone, Copy, Debug, PartialEq, Eq, Structural)]
pub enum PopupRole {
    /// An xdg_popup. `has_parent` is false once the client unmapped it with a
    /// null buffer (the role's parent is reset while the resource lives on);
    /// `reactive` tells whether its committed positioner asks to be
    /// re-constrained when its parent moves.
    Xdg { has_parent: bool, reactive: bool },
    /// An input-method popup.
    InputMethod,
}

/// What the refresh does with a popup.
#[derive(Clone, Copy, Debug, PartialEq, Eq, Structural)]
pub enum PopupRefresh {
    /// Dismiss it (after ending any popup grab).
    Dismiss,
    /// Re-constrain its geometry and send it a new configure.
    Reconfigure,
    /// Leave it as it is.
    Keep,
}

/// The refresh action for a popup of the given role.
pub open spec fn refresh_action_of(role: PopupRole) -> PopupRefresh {
    match role {
        PopupRole::Xdg { has_parent, reactive } => if !has_parent {
            PopupRefresh::Dismiss
        } else if reactive {
            PopupRefresh::Reconfigure
        } else {
            PopupRefresh::Keep
        },
        PopupRole::InputMethod => PopupRefresh::Keep,
    }
}

/// Decide what the refresh does with a popup: an unmapped xdg_popup is
/// dismissed, a reactive one is reconfigured, any other is kept.
pub fn popup_refresh_action(role: PopupRole) -> (r: PopupRefresh)
    ensures
        r == refresh_action_of(role),
{
    match role {
        PopupRole::Xdg { has_parent, reactive } => {
            if !has_parent {
                PopupRefresh::Dismiss
            } else if reactive {
                PopupRefresh::Reconfigure
            } else {
                PopupRefresh::Keep
            }
        },
        PopupRole::InputMethod => PopupRefresh::Keep,
    }
}

/// The popups of a surface are visited last to first (the reverse of the
/// order in which the popup tree lists them).
pub fn dismissal_order<T>(popups: Vec<T>) -> (r: Vec<T>)
    ensures
        r@ == popups@.reverse(),
{
    let ghost orig = popups@;
    let mut rest = popups;
    let mut out: Vec<T> = Vec::new();
    while rest.len() > 0
        invariant
            rest@.len() + out@.len() == orig.len(),
            rest@ == orig.subrange(0, rest@.len() as int),
            forall|j: int| 0 <= j < out@.len() ==> #[trigger] out@[j] == orig[orig.len() - 1 - j],
        decreases rest@.len(),
    {
        let ghost before = rest@;
        let x = rest.pop().unwrap();
        assert(x == orig[before.len() - 1]);
        out.push(x);
        assert(rest@ =~= orig.subrange(0, rest@.len() as int));
    }
    assert(out@ =~= orig.reverse());
    out
}

/// Whether the pointer must be sent a motion (and a frame) to the surface
/// under the cursor: when that target changed since the last refresh, or the
/// pointer's focus is not the target's surface.
pub fn pointer_needs_update(target_changed: bool, focus_is_target: bool) -> (r: bool)
    ensures
        r == (target_changed || !focus_is_target),
{
    target_changed || !focus_is_target
}

/// An xdg_popup whose parent was reset is dismissed, whatever its
/// positioner; a popup that still has its parent, and an input-method popup,
/// are never dismissed.
pub proof fn lemma_only_orphaned_xdg_popups_are_dismissed(role: PopupRole, reactive: bool)
    ensures
        refresh_action_of(PopupRole::Xdg { has_parent: false, reactive }) == PopupRefresh::Dismiss,
        refresh_action_of(role) == PopupRefresh::Dismiss <==> role == (PopupRole::Xdg {
            has_parent: false,
            reactive: match role {
                PopupRole::Xdg { reactive, .. } => reactive,
                PopupRole::InputMethod => false,
            },
        }),
{
}

/// A popup that keeps its parent is reconfigured exactly when its positioner
/// is reactive; an input-method popup is always left as it is.
pub proof fn lemma_reactive_popups_are_reconfigured(reactive: bool)
    ensures
        refresh_action_of(PopupRole::Xdg { has_parent: true, reactive }) == (if reactive {
            PopupRefresh::Reconfigure
        } else {
            PopupRefresh::Keep
        }),
        refresh_action_of(PopupRole::InputMethod) == PopupRefresh::Keep,
{
}

} // verus!
