//! The rectangle a popup is constrained to.
//!
//! Positioner coordinates are relative to the parent's window geometry, which
//! is distinct from its buffer origin when it has shadows or decorations, so
//! the output's rectangle is moved into that frame.

use crate::geometry::{point_add, point_sub, Point, Rect};
use vstd::prelude::*;

verus! {

/// A window of the space, as seen from a popup being placed.
#[derive(Clone, Copy, Debug, PartialEq, Eq, Structural)]
pub struct WindowFrame {
    /// The window's surface is the popup's root surface.
    pub hosts_root: bool,
    /// The window's geometry in the space, if it is mapped there.
    pub geometry: Option<Rect>,
}

/// The index of the first window that hosts the popup's root.
pub open spec fn first_host(windows: Seq<WindowFrame>) -> Option<int>
    decreases windows.len(),
{
    if windows.len() == 0 {
        None
    } else if windows[0].hosts_root {
        Some(0)
    } else {
        match first_host(windows.drop_first()) {
            Some(i) => Some(i + 1),
            None => None,
        }
    }
}

/// The output's rectangle moved into the frame of the popup's toplevel:
/// its origin less the window's origin and the popup's toplevel offset.
pub open spec fn constraint_rect(output: Rect, window: Rect, toplevel_offset: Point) -> Rect {
    Rect { loc: point_sub(output.loc, point_add(window.loc, toplevel_offset)), size: output.size }
}

/// The constraint target: `None` when no window hosts the popup's root, the
/// first that does is not mapped, or the output has no geometry.
pub open spec fn constraint_target(windows: Seq<WindowFrame>, output: Option<Rect>, toplevel_offset: Point) -> Option<Rect> {
    match first_host(windows) {
        None => None,
        Some(i) => match (windows[i].geometry, output) {
            (Some(w), Some(o)) => Some(constraint_rect(o, w, toplevel_offset)),
            _ => None,
        },
    }
}

proof fn lemma_first_host_bounds(windows: Seq<WindowFrame>)
    ensures
        match first_host(windows) {
            Some(i) => 0 <= i < windows.len() && windows[i].hosts_root
                && forall|j: int| 0 <= j < i ==> !(#[trigger] windows[j]).hosts_root,
            None => forall|j: int| 0 <= j < windows.len() ==> !(#[trigger] windows[j]).hosts_root,
        },
    decreases windows.len(),
{
    if windows.len() > 0 && !windows[0].hosts_root {
        lemma_first_host_bounds(windows.drop_first());
        assert forall|j: int| 0 < j < windows.len() implies windows[j] == windows.drop_first()[j - 1] by {}
    }
}

/// Compute the rectangle to which `get_unconstrained_geometry` confines a
/// popup: `windows` are the windows of the space in order, `output` the
/// geometry of the output, `toplevel_offset` the popup's offset from its
/// toplevel.
pub fn unconstrain_target(windows: &Vec<WindowFrame>, output: Option<Rect>, toplevel_offset: Point) -> (r: Option<Rect>)
    ensures
        r == constraint_target(windows@, output, toplevel_offset),
{
    let n = windows.len();
    let mut i: usize = 0;
    while i < n
        invariant
            n == windows@.len(),
            i <= n,
            forall|j: int| 0 <= j < i ==> !(#[trigger] windows@[j]).hosts_root,
        decreases n - i,
    {
        if windows[i].hosts_root {
            proof {
                lemma_first_host_bounds(windows@);
                match first_host(windows@) {
                    Some(f) => {
                        assert(f == i);
                    },
                    None => {
                        assert(!windows@[i as int].hosts_root);
                    },
                }
            }
            return match (windows[i].geometry, output) {
                (Some(w), Some(o)) => Some(Rect::new(o.loc.minus(w.loc.plus(toplevel_offset)), o.size)),
                _ => None,
            };
        }
        i = i + 1;
    }
    proof {
        lemma_first_host_bounds(windows@);
        match first_host(windows@) {
            Some(f) => {
                assert(!windows@[f].hosts_root);
            },
            None => {},
        }
    }
    None
}

/// The constraint target is the output's rectangle moved into the frame of
/// the popup's toplevel: when the first window hosting the root is mapped at
/// `w` and the output is `o`, the target has the output's size and its origin
/// plus the window's origin plus the toplevel offset is the output's origin
/// (for coordinates that stay within `i32`). So moving the window by `d`
/// moves the target by `-d`.
pub proof fn lemma_target_is_output_in_toplevel_frame(
    windows: Seq<WindowFrame>,
    i: int,
    w: Rect,
    o: Rect,
    toplevel_offset: Point,
)
    requires
        0 <= i < windows.len(),
        windows[i].hosts_root,
        forall|j: int| 0 <= j < i ==> !(#[trigger] windows[j]).hosts_root,
        windows[i].geometry == Some(w),
        i32::MIN <= w.loc.x + toplevel_offset.x <= i32::MAX,
        i32::MIN <= w.loc.y + toplevel_offset.y <= i32::MAX,
        i32::MIN <= o.loc.x - (w.loc.x + toplevel_offset.x) <= i32::MAX,
        i32::MIN <= o.loc.y - (w.loc.y + toplevel_offset.y) <= i32::MAX,
    ensures
        constraint_target(windows, Some(o), toplevel_offset) is Some,
        ({
            let r = constraint_target(windows, Some(o), toplevel_offset)->0;
            &&& r.size == o.size
            &&& r.loc.x + w.loc.x + toplevel_offset.x == o.loc.x
            &&& r.loc.y + w.loc.y + toplevel_offset.y == o.loc.y
        }),
{
    lemma_first_host_bounds(windows);
    match first_host(windows) {
        Some(f) => {
            if f < i {
                assert(!windows[f].hosts_root);
            }
            if f > i {
                assert(!windows[i].hosts_root);
            }
            assert(f == i);
        },
        None => {
            assert(!windows[i].hosts_root);
        },
    }
}

/// No target without a window hosting the popup's root, or without an output
/// geometry.
pub proof fn lemma_no_target_without_host_or_output(windows: Seq<WindowFrame>, output: Option<Rect>, toplevel_offset: Point)
    ensures
        (forall|j: int| 0 <= j < windows.len() ==> !(#[trigger] windows[j]).hosts_root) ==> constraint_target(
            windows,
            output,
            toplevel_offset,
        ) is None,
        output is None ==> constraint_target(windows, output, toplevel_offset) is None,
{
    lemma_first_host_bounds(windows);
}

} // verus!
