//! Windows that fill an output, and how far one can be dragged.
use crate::input::grab::MIN_WINDOW_WIDTH;
use crate::protocol::messages::{MessageView, Notice};
use crate::shell::Shell;
use crate::state::compositor_state::StateView;
use crate::state::types::{ClientObjectId, ResizeEdges};
use vstd::prelude::*;

verus! {

/// A window that fills an output and is then put back is where it was before,
/// and is asked for the size it had.
pub proof fn lemma_fill_then_restore<S: Shell>(
    s: StateView,
    shell: S,
    toplevel: ClientObjectId,
    maximized: bool,
    fullscreen: bool,
)
    requires
        maximized || fullscreen,
        s.win.xdg_toplevels.has(toplevel),
        !s.win.xdg_toplevels.at(toplevel).maximized,
        !s.win.xdg_toplevels.at(toplevel).fullscreen,
        s.surface_of_toplevel(toplevel) is Some,
        s.surf.surfaces.has(s.surface_of_toplevel(toplevel)->0),
        s.output_to_fill(shell, toplevel) is Some,
    ensures
        ({
            let surface = s.surface_of_toplevel(toplevel)->0;
            let filled = s.set_window_state(shell, toplevel, maximized, fullscreen);
            let back = filled.set_window_state(shell, toplevel, false, false);
            &&& filled.win.xdg_toplevels.at(toplevel).maximized == maximized
            &&& filled.win.xdg_toplevels.at(toplevel).fullscreen == fullscreen
            &&& back.surf.surfaces.at(surface).position == s.surf.surfaces.at(surface).position
            &&& !back.win.xdg_toplevels.at(toplevel).maximized
            &&& !back.win.xdg_toplevels.at(toplevel).fullscreen
            &&& back.win.xdg_toplevels.at(toplevel).restore is None
            &&& s.clients.has(toplevel.0) ==> back.clients.at(toplevel.0).outbox.last() == MessageView::Notice(
                Notice::ToplevelConfigure {
                    toplevel: toplevel.1,
                    width: s.surface_size(surface).0,
                    height: s.surface_size(surface).1,
                },
            )
        }),
{
    let surface = s.surface_of_toplevel(toplevel)->0;
    let free = s.ungrabbed(toplevel);
    let o = s.output_to_fill(shell, toplevel)->0;
    let place = s.filling(o, fullscreen);
    let filled = s.set_window_state(shell, toplevel, maximized, fullscreen);
    assert(filled == free.filled(toplevel, surface, place, maximized, fullscreen));
    assert(free.surf == s.surf && free.mem == s.mem);
    lemma_size_depends(s, free, surface);
    assert(filled.surface_of_toplevel(toplevel) == Some(surface));
    let was = s.place_of(surface);
    assert(filled.restore_of(toplevel) == Some(was));
    assert(filled.window_state_changes(toplevel, false, false));
}

/// A surface's size depends on nothing but the surfaces and the buffers.
proof fn lemma_size_depends(a: StateView, b: StateView, key: ClientObjectId)
    requires
        a.surf == b.surf,
        a.mem == b.mem,
    ensures
        a.surface_size(key) == b.surface_size(key),
{
}

/// Dragging an edge never makes a window narrower or shorter than the smallest
/// one allowed, nor larger than the client allows, unless the client's own
/// limits contradict each other.
pub proof fn lemma_resize_within_limits(
    s: StateView,
    surface: ClientObjectId,
    edges: ResizeEdges,
    start: (i32, i32),
    travel: (i32, i32),
)
    requires
        edges.left() || edges.right(),
    ensures
        s.resized(surface, edges, start, travel).0 >= MIN_WINDOW_WIDTH,
        s.resized(surface, edges, start, travel).0 >= s.client_size_limits(surface).0.0,
        ({
            let (min, max) = s.client_size_limits(surface);
            max.0 >= min.0 && max.0 >= MIN_WINDOW_WIDTH ==> s.resized(surface, edges, start, travel).0 <= max.0
        }),
{
}

} // verus!
