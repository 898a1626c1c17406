//! Grabs: when they begin, and what a resize leaves in place.
use crate::state::compositor_state::{BELL_DURATION, InputsView, StateView, WindowsView};
use crate::state::types::{ClientObjectId, OutputId, ResizeAnchor, ResizeEdges};
use vstd::prelude::*;

verus! {

/// No window is moved or resized while something is being dragged.
pub proof fn lemma_drag_refuses_grabs(s: StateView, surface: ClientObjectId, edges: ResizeEdges)
    requires
        s.data.drag is Some,
    ensures
        s.start_move_grab(surface) == s,
        s.start_resize_grab(surface, edges) == s,
{
}

/// Nothing is dragged while a window is being moved or resized.
pub proof fn lemma_grab_refuses_drags(
    s: StateView,
    source: Option<ClientObjectId>,
    origin_client: u32,
    origin: ClientObjectId,
    icon: Option<ClientObjectId>,
)
    requires
        s.win.pointer_grab is Some,
    ensures
        s.start_drag(source, origin_client, origin, icon) == s,
{
}

proof fn lemma_left_keeps_owner(s: StateView, surface: ClientObjectId, n: nat)
    ensures
        s.pointers_left(surface, n).win == s.win,
        s.pointers_left(surface, n).data == s.data,
    decreases n,
{
    if n > 0 && n <= s.input.pointers.len() {
        lemma_left_keeps_owner(s, surface, (n - 1) as nat);
    }
}

proof fn lemma_released_keeps_owner(s: StateView)
    ensures
        s.pointer_released().win == s.win,
        s.pointer_released().data == s.data,
{
    if let Some(surface) = s.input.pointer_surface {
        let bare = StateView { input: InputsView { pointer_surface: None, ..s.input }, ..s };
        lemma_left_keeps_owner(bare, surface, s.input.pointers.len());
    }
}

/// The pointer never carries a drag and a window at once: whichever of the three
/// begins, at most one is held after it.
pub proof fn lemma_pointer_has_one_owner(
    s: StateView,
    surface: ClientObjectId,
    edges: ResizeEdges,
    source: Option<ClientObjectId>,
    origin_client: u32,
    origin: ClientObjectId,
    icon: Option<ClientObjectId>,
)
    requires
        s.one_owner(),
    ensures
        s.start_move_grab(surface).one_owner(),
        s.start_resize_grab(surface, edges).one_owner(),
        s.start_drag(source, origin_client, origin, icon).one_owner(),
{
    lemma_released_keeps_owner(s);
    lemma_released_keeps_owner(StateView { win: WindowsView { resize_anchor: None, ..s.win }, ..s });
}

/// A window that fills its output is neither moved nor resized.
pub proof fn lemma_filling_refuses_grabs(s: StateView, surface: ClientObjectId, edges: ResizeEdges)
    requires
        s.window_state_locked(surface),
    ensures
        s.start_move_grab(surface) == s,
        s.start_resize_grab(surface, edges) == s,
{
}

/// A window resized by its left or top edge keeps its right or bottom edge
/// where it was, whatever size the client commits.
pub proof fn lemma_far_edge_stays(s: StateView, key: ClientObjectId, anchor: ResizeAnchor)
    requires
        s.win.resize_anchor == Some(anchor),
        anchor.surface == key,
        s.surf.surfaces.has(key),
        s.surface_size(key).0 > 0,
        s.surface_size(key).1 > 0,
        anchor.right - s.surface_size(key).0 >= i32::MIN,
        anchor.bottom - s.surface_size(key).1 >= i32::MIN,
    ensures
        anchor.edges.left() ==> s.apply_resize_anchor(key).surf.surfaces.at(key).position.0 + s.surface_size(key).0
            == anchor.right,
        anchor.edges.top() ==> s.apply_resize_anchor(key).surf.surfaces.at(key).position.1 + s.surface_size(key).1
            == anchor.bottom,
        !anchor.edges.left() ==> s.apply_resize_anchor(key).surf.surfaces.at(key).position.0 == s.surf.surfaces.at(
            key,
        ).position.0,
        !anchor.edges.top() ==> s.apply_resize_anchor(key).surf.surfaces.at(key).position.1 == s.surf.surfaces.at(
            key,
        ).position.1,
{
}

/// A bell flashes for a while and no longer.
pub proof fn lemma_bell_ends(s: StateView, output: OutputId, now: u64, later: u64)
    requires
        now <= u64::MAX - BELL_DURATION,
    ensures
        later < now + BELL_DURATION ==> s.ring_bell(output, now).bells_left(later).has(output),
        later >= now + BELL_DURATION ==> !s.ring_bell(output, now).bells_left(later).has(output),
{
}

} // verus!
