//! Moving and resizing: that a window goes where the pointer takes it.
use crate::protocol::messages::{MessageView, Notice};
use crate::state::compositor_state::{InputsView, StateView, WindowsView};
use crate::state::types::{ClientObjectId, GrabKind, PointerGrab, ResizeEdges};
use vstd::prelude::*;

verus! {

/// Whether a side may be a length, by the smallest the compositor allows and by
/// what the client has asked for.
pub open spec fn allowed(length: int, floor: int, wished_min: i32, wished_max: i32) -> bool {
    &&& length >= floor
    &&& length >= wished_min
    &&& length <= i32::MAX
    &&& wished_max > 0 ==> length <= wished_max
}

/// Whether a side that is to be a length is asked to be just that where it is
/// allowed, and what is allowed nearest to it where it is not. A least length
/// above the greatest wins over it.
pub open spec fn asked_for(asked: i32, wanted: int, floor: int, wished_min: i32, wished_max: i32) -> bool {
    let fair = wished_max <= 0 || (wished_max >= floor && wished_max >= wished_min);
    &&& allowed(wanted, floor, wished_min, wished_max) ==> asked == wanted
    &&& asked >= floor
    &&& asked >= wished_min
    &&& wanted < floor || wanted < wished_min || !fair ==> asked == floor || asked == wished_min
    &&& fair && wished_max > 0 && wanted > wished_max ==> asked == wished_max
    &&& wished_max <= 0 && wanted > i32::MAX ==> asked == i32::MAX
}

/// The size that a resize has last asked a window for.
pub open spec fn asked_size(s: StateView) -> (i32, i32) {
    match s.win.pointer_grab {
        Some(PointerGrab { kind: GrabKind::Resize { last_sent, .. }, .. }) => last_sent,
        _ => (0, 0),
    }
}

/// A window resized by its right or bottom edge is asked for what it measured at
/// the start and how far the pointer has travelled. By its left or top edge it
/// is asked for that much less. A side that is not dragged stays. Only what is
/// not allowed is not asked for, and then what is allowed nearest to it is.
pub proof fn lemma_resize_follows_the_pointer(
    s: StateView,
    toplevel: ClientObjectId,
    edges: ResizeEdges,
    start: (i32, i32),
    last: (i32, i32),
    travel: (i32, i32),
)
    requires
        s.win.pointer_grab is Some,
        (s.win.pointer_grab->0).kind == (GrabKind::Resize { edges, start_size: start, last_sent: last }),
        s.toplevel_for_surface((s.win.pointer_grab->0).surface) == Some(toplevel),
        s.win.xdg_toplevels.has(toplevel),
    ensures
        ({
            let t = s.update_grab(travel);
            let min = s.win.xdg_toplevels.at(toplevel).min_size;
            let max = s.win.xdg_toplevels.at(toplevel).max_size;
            let asked = asked_size(t);
            let (right, left) = (edges.0 & 8 != 0, edges.0 & 4 != 0);
            let (bottom, top) = (edges.0 & 2 != 0, edges.0 & 1 != 0);
            &&& right ==> asked_for(asked.0, start.0 + travel.0, 120, min.0, max.0)
            &&& left && !right ==> asked_for(asked.0, start.0 - travel.0, 120, min.0, max.0)
            &&& !right && !left ==> asked.0 == start.0
            &&& bottom ==> asked_for(asked.1, start.1 + travel.1, 80, min.1, max.1)
            &&& top && !bottom ==> asked_for(asked.1, start.1 - travel.1, 80, min.1, max.1)
            &&& !bottom && !top ==> asked.1 == start.1
        }),
{
}

/// Pulling an edge further out never makes a window smaller, and pushing it
/// further in never makes it larger.
pub proof fn lemma_further_is_larger(s: StateView, near: (i32, i32), far: (i32, i32))
    requires
        s.win.pointer_grab is Some,
        (s.win.pointer_grab->0).kind is Resize,
        near.0 <= far.0,
        near.1 <= far.1,
    ensures
        ({
            let edges = (s.win.pointer_grab->0).kind->edges;
            let a = asked_size(s.update_grab(near));
            let b = asked_size(s.update_grab(far));
            &&& edges.0 & 8 != 0 ==> a.0 <= b.0
            &&& edges.0 & 8 == 0 && edges.0 & 4 != 0 ==> a.0 >= b.0
            &&& edges.0 & 2 != 0 ==> a.1 <= b.1
            &&& edges.0 & 2 == 0 && edges.0 & 1 != 0 ==> a.1 >= b.1
        }),
{
}

/// A client is asked for the size a resize has reached if and only if that is
/// not what it was asked for last. The window itself stays where it is.
pub proof fn lemma_new_size_is_asked_for(
    s: StateView,
    edges: ResizeEdges,
    start: (i32, i32),
    last: (i32, i32),
    travel: (i32, i32),
)
    requires
        s.win.pointer_grab is Some,
        (s.win.pointer_grab->0).kind == (GrabKind::Resize { edges, start_size: start, last_sent: last }),
        s.clients.has((s.win.pointer_grab->0).toplevel.0),
    ensures
        ({
            let t = s.update_grab(travel);
            let toplevel = (s.win.pointer_grab->0).toplevel;
            let before = s.clients.at(toplevel.0).outbox;
            let after = t.clients.at(toplevel.0).outbox;
            &&& t.surf == s.surf
            &&& t.dirty
            &&& asked_size(t) == last ==> after == before
            &&& asked_size(t) != last ==> after.len() > before.len() && after[before.len() as int]
                == MessageView::Notice(
                Notice::ToplevelResize {
                    toplevel: toplevel.1,
                    width: asked_size(t).0,
                    height: asked_size(t).1,
                    resizing: true,
                },
            )
            &&& (t.win.pointer_grab->0).surface == (s.win.pointer_grab->0).surface
            &&& (t.win.pointer_grab->0).toplevel == toplevel
        }),
{
}

/// A resize that ends tells its client so, at the size it had reached, and lets
/// the pointer go. So does a move, and tells nobody anything.
pub proof fn lemma_ended_grab(s: StateView)
    requires
        s.win.pointer_grab is Some,
        s.clients.has((s.win.pointer_grab->0).toplevel.0),
    ensures
        ({
            let t = s.end_grab();
            let toplevel = (s.win.pointer_grab->0).toplevel;
            let before = s.clients.at(toplevel.0).outbox;
            let after = t.clients.at(toplevel.0).outbox;
            &&& t.win.pointer_grab is None
            &&& t.surf == s.surf
            &&& (s.win.pointer_grab->0).kind is Move ==> t.clients == s.clients
            &&& (s.win.pointer_grab->0).kind is Resize ==> after.len() > before.len() && after[before.len() as int]
                == MessageView::Notice(
                Notice::ToplevelResize {
                    toplevel: toplevel.1,
                    width: asked_size(s).0,
                    height: asked_size(s).1,
                    resizing: false,
                },
            )
        }),
{
}

proof fn lemma_released_leaves_windows(s: StateView, surface: ClientObjectId, n: nat)
    ensures
        s.pointers_left(surface, n).win == s.win,
        s.pointers_left(surface, n).surf == s.surf,
        s.pointers_left(surface, n).mem == s.mem,
        s.pointers_left(surface, n).data == s.data,
        s.pointers_left(surface, n).input.cursor == s.input.cursor,
    decreases n,
{
    if n > 0 && n <= s.input.pointers.len() {
        lemma_released_leaves_windows(s, surface, (n - 1) as nat);
    }
}

proof fn lemma_release_leaves_windows(s: StateView)
    ensures
        s.pointer_released().win == s.win,
        s.pointer_released().surf == s.surf,
        s.pointer_released().mem == s.mem,
        s.pointer_released().data == s.data,
        s.pointer_released().input.cursor == s.input.cursor,
        s.pointer_released().input.pointer_surface is None,
{
    if let Some(surface) = s.input.pointer_surface {
        let bare = StateView { input: InputsView { pointer_surface: None, ..s.input }, ..s };
        lemma_released_leaves_windows(bare, surface, s.input.pointers.len());
        lemma_released_nowhere(bare, surface, s.input.pointers.len());
    }
}

proof fn lemma_released_nowhere(s: StateView, surface: ClientObjectId, n: nat)
    ensures
        s.pointers_left(surface, n).input == s.input,
    decreases n,
{
    if n > 0 && n <= s.input.pointers.len() {
        lemma_released_nowhere(s, surface, (n - 1) as nat);
    }
}

/// A window that is moved keeps its place under the pointer: however far the
/// pointer has gone since the move began, the window has gone as far.
pub proof fn lemma_move_follows_the_pointer(s: StateView, surface: ClientObjectId, to: (i32, i32), travel: (i32, i32))
    requires
        s.data.drag is None,
        !s.window_state_locked(surface),
        s.toplevel_for_surface(surface) is Some,
        s.surf.surfaces.has(surface),
        i32::MIN <= s.surf.surfaces.at(surface).position.0 - s.input.cursor.0 <= i32::MAX,
        i32::MIN <= s.surf.surfaces.at(surface).position.1 - s.input.cursor.1 <= i32::MAX,
        i32::MIN <= s.surf.surfaces.at(surface).position.0 + to.0 - s.input.cursor.0 <= i32::MAX,
        i32::MIN <= s.surf.surfaces.at(surface).position.1 + to.1 - s.input.cursor.1 <= i32::MAX,
    ensures
        ({
            let begun = s.start_move_grab(surface);
            let there = StateView { input: InputsView { cursor: to, ..begun.input }, ..begun };
            let t = there.update_grab(travel);
            let (was, is) = (s.surf.surfaces.at(surface).position, t.surf.surfaces.at(surface).position);
            &&& begun.surf == s.surf
            &&& begun.input.pointer_surface is None
            &&& is.0 - was.0 == to.0 - s.input.cursor.0
            &&& is.1 - was.1 == to.1 - s.input.cursor.1
            &&& t.dirty
            &&& t.win.pointer_grab == begun.win.pointer_grab
        }),
{
    let loose = StateView { win: WindowsView { resize_anchor: None, ..s.win }, ..s };
    lemma_release_leaves_windows(loose);
}

/// A resize begins at the size the window has, with the edges it was asked for
/// with, and nothing has been asked for yet but that. By the left or the top edge
/// the opposite edge is held where it is, whatever size is committed later.
pub proof fn lemma_resize_begins_as_it_is(s: StateView, surface: ClientObjectId, edges: ResizeEdges, later: StateView)
    requires
        s.data.drag is None,
        !s.window_state_locked(surface),
        s.toplevel_for_surface(surface) is Some,
        s.surf.surfaces.has(surface),
        s.surface_size(surface).0 > 0,
        s.surface_size(surface).1 > 0,
        s.surf.surfaces.at(surface).position.0 + s.surface_size(surface).0 <= i32::MAX,
        s.surf.surfaces.at(surface).position.1 + s.surface_size(surface).1 <= i32::MAX,
        later.win.resize_anchor == s.start_resize_grab(surface, edges).win.resize_anchor,
        later.surf.surfaces.has(surface),
        later.surface_size(surface).0 > 0,
        later.surface_size(surface).1 > 0,
        s.surf.surfaces.at(surface).position.0 + s.surface_size(surface).0 - later.surface_size(surface).0 >= i32::MIN,
        s.surf.surfaces.at(surface).position.1 + s.surface_size(surface).1 - later.surface_size(surface).1 >= i32::MIN,
    ensures
        ({
            let begun = s.start_resize_grab(surface, edges);
            let (was, is) = (
                s.surf.surfaces.at(surface).position,
                later.apply_resize_anchor(surface).surf.surfaces.at(surface).position,
            );
            let (left, top) = (edges.0 & 4 != 0, edges.0 & 1 != 0);
            &&& begun.win.pointer_grab is Some
            &&& (begun.win.pointer_grab->0).surface == surface
            &&& Some((begun.win.pointer_grab->0).toplevel) == s.toplevel_for_surface(surface)
            &&& (begun.win.pointer_grab->0).kind == (GrabKind::Resize {
                edges,
                start_size: s.surface_size(surface),
                last_sent: s.surface_size(surface),
            })
            &&& begun.surf == s.surf
            &&& left ==> is.0 + later.surface_size(surface).0 == was.0 + s.surface_size(surface).0
            &&& !left ==> is.0 == later.surf.surfaces.at(surface).position.0
            &&& top ==> is.1 + later.surface_size(surface).1 == was.1 + s.surface_size(surface).1
            &&& !top ==> is.1 == later.surf.surfaces.at(surface).position.1
        }),
{
    lemma_release_leaves_windows(s);
}

/// The edges that a point of a window resizes are those of the corner it is
/// nearest to.
pub proof fn lemma_nearest_corner(s: StateView, surface: ClientObjectId, x: i32, y: i32)
    requires
        s.surf.surfaces.has(surface),
        s.surface_size(surface).0 >= 0,
        s.surface_size(surface).1 >= 0,
    ensures
        ({
            let at = s.surf.surfaces.at(surface).position;
            let size = s.surface_size(surface);
            let edges = s.edges_for_point(surface, x, y);
            let (from_left, from_right) = (x - at.0, at.0 + size.0 - x);
            let (from_top, from_bottom) = (y - at.1, at.1 + size.1 - y);
            &&& edges == 5 || edges == 6 || edges == 9 || edges == 10
            &&& from_left + 1 < from_right ==> edges == 5 || edges == 6
            &&& from_left >= from_right ==> edges == 9 || edges == 10
            &&& from_top + 1 < from_bottom ==> edges == 5 || edges == 9
            &&& from_top >= from_bottom ==> edges == 6 || edges == 10
        }),
{
}

} // verus!
