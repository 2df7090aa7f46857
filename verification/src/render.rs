//! Renderer-independent scene decisions for native Wayland popups.

use crate::geometry::{point_add, point_sub, spec_origin, Point};
use vstd::prelude::*;

verus! {

/// A popup of a window's toplevel, as the popup tree reports it.
pub struct PopupPlacement<S> {
    /// The popup's surface.
    pub surface: S,
    /// The popup's position relative to its toplevel.
    pub offset: Point,
    /// The origin of the popup's window geometry within its surface.
    pub geometry_loc: Point,
    /// The popup's surface has a buffer attached.
    pub mapped: bool,
}

/// A window of the space, with the popups of its toplevel.
pub struct WindowPopups<S> {
    /// The window is the focused one.
    pub focused: bool,
    /// The window's location in the space, if it has one.
    pub location: Option<Point>,
    /// The popups of the window's toplevel surface, in the popup tree's order,
    /// where a child comes before its parent (none for a window without a
    /// Wayland toplevel).
    pub popups: Vec<PopupPlacement<S>>,
}

/// Where a window's popups are placed from: its location, or the origin.
pub open spec fn window_origin<S>(w: WindowPopups<S>) -> Point {
    match w.location {
        Some(l) => l,
        None => spec_origin(),
    }
}

/// The global origin of a popup's surface: the window's location plus the
/// popup's offset, less the popup's geometry origin.
pub open spec fn popup_surface_origin<S>(window_loc: Point, p: PopupPlacement<S>) -> Point {
    point_sub(point_add(window_loc, p.offset), p.geometry_loc)
}

/// The mapped popups among `popups`, in order, with their surface origins.
pub open spec fn mapped_popups<S>(popups: Seq<PopupPlacement<S>>, window_loc: Point) -> Seq<(S, Point)>
    decreases popups.len(),
{
    if popups.len() == 0 {
        Seq::empty()
    } else {
        let p = popups[0];
        (if p.mapped {
            seq![(p.surface, popup_surface_origin(window_loc, p))]
        } else {
            Seq::empty()
        }) + mapped_popups(popups.drop_first(), window_loc)
    }
}

/// Whether a window's popups are shown: while an override is active only the
/// focused window's are.
pub open spec fn window_shown<S>(w: WindowPopups<S>, override_active: bool) -> bool {
    !override_active || w.focused
}

/// The popup surfaces of `windows` (given back to front) in front-to-back
/// order, with their global origins.
pub open spec fn popup_scene<S>(windows: Seq<WindowPopups<S>>, override_active: bool) -> Seq<(S, Point)>
    decreases windows.len(),
{
    if windows.len() == 0 {
        Seq::empty()
    } else {
        let w = windows.last();
        (if window_shown(w, override_active) {
            mapped_popups(w.popups@, window_origin(w))
        } else {
            Seq::empty()
        }) + popup_scene(windows.drop_last(), override_active)
    }
}

/// Popup surface trees in front-to-back order, with global surface origins.
/// `windows` are the windows of the space from back to front;
/// `override_active` tells whether an override restricts the scene to the
/// focused window.
pub fn popup_surfaces_for_render<S>(windows: Vec<WindowPopups<S>>, override_active: bool) -> (r: Vec<(S, Point)>)
    ensures
        r@ == popup_scene(windows@, override_active),
{
    let ghost total = popup_scene(windows@, override_active);
    let mut rest = windows;
    let mut out: Vec<(S, Point)> = Vec::new();
    while rest.len() > 0
        invariant
            out@ + popup_scene(rest@, override_active) == total,
        decreases rest@.len(),
    {
        let ghost before = rest@;
        let w = rest.pop().unwrap();
        proof {
            assert(rest@ =~= before.drop_last());
            assert(w == before.last());
        }
        let ghost wv = w;
        let WindowPopups { focused, location, popups } = w;
        if !override_active || focused {
            let loc = match location {
                Some(l) => l,
                None => Point::origin(),
            };
            let mut ps = popups;
            assert(out@ + mapped_popups(ps@, loc) + popup_scene(rest@, override_active) == total) by {
                assert(out@ + mapped_popups(ps@, loc) + popup_scene(rest@, override_active)
                    =~= out@ + (mapped_popups(ps@, loc) + popup_scene(rest@, override_active)));
            }
            while ps.len() > 0
                invariant
                    out@ + mapped_popups(ps@, loc) + popup_scene(rest@, override_active) == total,
                decreases ps@.len(),
            {
                let ghost pb = ps@;
                let p = ps.remove(0);
                proof {
                    assert(ps@ =~= pb.drop_first());
                    assert(p == pb[0]);
                }
                let ghost ob = out@;
                if p.mapped {
                    let origin = loc.plus(p.offset).minus(p.geometry_loc);
                    out.push((p.surface, origin));
                    assert(out@ =~= ob + seq![(pb[0].surface, popup_surface_origin(loc, pb[0]))]);
                } else {
                }
                assert(out@ + mapped_popups(ps@, loc) + popup_scene(rest@, override_active) =~=
                    ob + mapped_popups(pb, loc) + popup_scene(rest@, override_active));
            }
        } else {
            assert(out@ + popup_scene(rest@, override_active) =~= out@ + popup_scene(before, override_active));
        }
    }
    assert(out@ =~= total);
    out
}

/// `mapped` popups `ps[j]` of a window placed at `loc`, with the entry they
/// give the scene.
pub open spec fn is_scene_entry_of<S>(ps: Seq<PopupPlacement<S>>, loc: Point, j: int, e: (S, Point)) -> bool {
    &&& 0 <= j < ps.len()
    &&& ps[j].mapped
    &&& e == (ps[j].surface, popup_surface_origin(loc, ps[j]))
}

proof fn lemma_mapped_popups_entry<S>(ps: Seq<PopupPlacement<S>>, loc: Point, k: int)
    requires
        0 <= k < mapped_popups(ps, loc).len(),
    ensures
        exists|j: int| #[trigger] is_scene_entry_of(ps, loc, j, mapped_popups(ps, loc)[k]),
    decreases ps.len(),
{
    let m = mapped_popups(ps, loc);
    let tail = mapped_popups(ps.drop_first(), loc);
    if ps[0].mapped {
        if k == 0 {
            assert(is_scene_entry_of(ps, loc, 0, m[k]));
        } else {
            lemma_mapped_popups_entry(ps.drop_first(), loc, k - 1);
            let j = choose|j: int| #[trigger] is_scene_entry_of(ps.drop_first(), loc, j, tail[k - 1]);
            assert(m[k] == tail[k - 1]);
            assert(is_scene_entry_of(ps, loc, j + 1, m[k]));
        }
    } else {
        assert(m =~= tail);
        lemma_mapped_popups_entry(ps.drop_first(), loc, k);
        let j = choose|j: int| #[trigger] is_scene_entry_of(ps.drop_first(), loc, j, tail[k]);
        assert(is_scene_entry_of(ps, loc, j + 1, m[k]));
    }
}

/// Every entry of the popup scene is a mapped popup of a window whose popups
/// are shown, placed at its global surface origin: in particular, while an
/// override is active, only popups of the focused window are rendered.
pub proof fn lemma_scene_shows_mapped_popups_of_shown_windows<S>(
    windows: Seq<WindowPopups<S>>,
    override_active: bool,
    k: int,
)
    requires
        0 <= k < popup_scene(windows, override_active).len(),
    ensures
        exists|i: int, j: int|
            0 <= i < windows.len() && window_shown(windows[i], override_active) && #[trigger] is_scene_entry_of(
                windows[i].popups@,
                window_origin(windows[i]),
                j,
                popup_scene(windows, override_active)[k],
            ),
    decreases windows.len(),
{
    let scene = popup_scene(windows, override_active);
    let w = windows.last();
    let last = windows.len() - 1;
    let front = if window_shown(w, override_active) {
        mapped_popups(w.popups@, window_origin(w))
    } else {
        Seq::empty()
    };
    let back = popup_scene(windows.drop_last(), override_active);
    assert(scene =~= front + back);
    if k < front.len() {
        lemma_mapped_popups_entry(w.popups@, window_origin(w), k);
        let j = choose|j: int| #[trigger] is_scene_entry_of(w.popups@, window_origin(w), j, front[k]);
        assert(windows[last] == w);
        assert(is_scene_entry_of(windows[last].popups@, window_origin(windows[last]), j, scene[k]));
    } else {
        lemma_scene_shows_mapped_popups_of_shown_windows(windows.drop_last(), override_active, k - front.len());
        let (i, j) = choose|i: int, j: int|
            0 <= i < windows.drop_last().len() && window_shown(windows.drop_last()[i], override_active)
                && #[trigger] is_scene_entry_of(
                windows.drop_last()[i].popups@,
                window_origin(windows.drop_last()[i]),
                j,
                back[k - front.len()],
            );
        assert(windows[i] == windows.drop_last()[i]);
        assert(scene[k] == back[k - front.len()]);
        assert(is_scene_entry_of(windows[i].popups@, window_origin(windows[i]), j, scene[k]));
    }
}

proof fn lemma_mapped_popups_complete<S>(ps: Seq<PopupPlacement<S>>, loc: Point, j: int)
    requires
        0 <= j < ps.len(),
        ps[j].mapped,
    ensures
        exists|k: int|
            0 <= k < mapped_popups(ps, loc).len() && #[trigger] mapped_popups(ps, loc)[k] == (
                ps[j].surface,
                popup_surface_origin(loc, ps[j]),
            ),
    decreases ps.len(),
{
    let m = mapped_popups(ps, loc);
    let tail = mapped_popups(ps.drop_first(), loc);
    let head: Seq<(S, Point)> = if ps[0].mapped {
        seq![(ps[0].surface, popup_surface_origin(loc, ps[0]))]
    } else {
        Seq::empty()
    };
    assert(m == head + tail);
    if j == 0 {
        assert(m[0] == (ps[j].surface, popup_surface_origin(loc, ps[j])));
    } else {
        lemma_mapped_popups_complete(ps.drop_first(), loc, j - 1);
        assert(ps.drop_first()[j - 1] == ps[j]);
        let k = choose|k: int|
            0 <= k < tail.len() && #[trigger] tail[k] == (ps[j].surface, popup_surface_origin(loc, ps[j]));
        assert(m[head.len() + k] == tail[k]);
    }
}

/// Every mapped popup of every shown window is in the scene, at its global
/// surface origin: a window behind one without popups, or behind a hidden
/// one, still has its popups rendered.
pub proof fn lemma_scene_contains_every_shown_mapped_popup<S>(
    windows: Seq<WindowPopups<S>>,
    override_active: bool,
    i: int,
    j: int,
)
    requires
        0 <= i < windows.len(),
        !override_active || windows[i].focused,
        0 <= j < windows[i].popups@.len(),
        windows[i].popups@[j].mapped,
    ensures
        exists|k: int|
            0 <= k < popup_scene(windows, override_active).len() && #[trigger] popup_scene(windows, override_active)[k]
                == (
                windows[i].popups@[j].surface,
                point_sub(
                    point_add(
                        match windows[i].location {
                            Some(l) => l,
                            None => spec_origin(),
                        },
                        windows[i].popups@[j].offset,
                    ),
                    windows[i].popups@[j].geometry_loc,
                ),
            ),
    decreases windows.len(),
{
    let scene = popup_scene(windows, override_active);
    let w = windows.last();
    let last = windows.len() - 1;
    let front = if window_shown(w, override_active) {
        mapped_popups(w.popups@, window_origin(w))
    } else {
        Seq::empty()
    };
    let back = popup_scene(windows.drop_last(), override_active);
    assert(scene == front + back);
    let p = windows[i].popups@[j];
    let target = (p.surface, popup_surface_origin(window_origin(windows[i]), p));
    if i == last {
        lemma_mapped_popups_complete(w.popups@, window_origin(w), j);
        let k = choose|k: int| 0 <= k < front.len() && #[trigger] front[k] == target;
        assert(scene[k] == front[k]);
    } else {
        assert(windows.drop_last()[i] == windows[i]);
        lemma_scene_contains_every_shown_mapped_popup(windows.drop_last(), override_active, i, j);
        let k = choose|k: int| 0 <= k < back.len() && #[trigger] back[k] == target;
        assert(scene[front.len() + k] == back[k]);
    }
}

/// Windows in front come first: the scene of the windows `back` with the
/// windows `front` stacked above them is the scene of `front` followed by the
/// scene of `back`.
pub proof fn lemma_scene_of_stacked_windows<S>(
    back: Seq<WindowPopups<S>>,
    front: Seq<WindowPopups<S>>,
    override_active: bool,
)
    ensures
        popup_scene(back + front, override_active) == popup_scene(front, override_active) + popup_scene(
            back,
            override_active,
        ),
    decreases front.len(),
{
    if front.len() == 0 {
        assert(back + front =~= back);
        assert(popup_scene(front, override_active) =~= Seq::<(S, Point)>::empty());
        assert(popup_scene(back + front, override_active) =~= popup_scene(front, override_active) + popup_scene(
            back,
            override_active,
        ));
    } else {
        let all = back + front;
        assert(all.last() == front.last());
        assert(all.drop_last() =~= back + front.drop_last());
        lemma_scene_of_stacked_windows(back, front.drop_last(), override_active);
        let w = front.last();
        let part = if window_shown(w, override_active) {
            mapped_popups(w.popups@, window_origin(w))
        } else {
            Seq::empty()
        };
        assert(popup_scene(all, override_active) == part + popup_scene(all.drop_last(), override_active));
        assert(popup_scene(front, override_active) == part + popup_scene(front.drop_last(), override_active));
        assert(popup_scene(all, override_active) =~= popup_scene(front, override_active) + popup_scene(
            back,
            override_active,
        ));
    }
}

} // verus!
