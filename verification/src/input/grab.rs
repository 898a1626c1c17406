//! Driving interactive moves and resizes.
use crate::layer::{half, halved};
use crate::protocol::messages::Notice;
use crate::protocol::xdg_surface::send_configure;
use crate::state::compositor_state::{CompositorState, StateView, WindowsView};
use crate::state::surfaces::{move_by, moved};
use crate::state::types::{
    clamp, clamp_i32, ClientObjectId, GrabKind, Hook, PointerGrab, ResizeEdges, saturate,
};
use vstd::prelude::*;

verus! {

/// The narrowest an interactive resize will make a window.
pub const MIN_WINDOW_WIDTH: i32 = 120;

/// The shortest an interactive resize will make a window.
pub const MIN_WINDOW_HEIGHT: i32 = 80;

/// The larger of two lengths.
pub open spec fn longer(a: i32, b: i32) -> i32 {
    if a < b {
        b
    } else {
        a
    }
}

/// The size range of one axis: the compositor's own floor and the client's,
/// whichever is higher, and the client's ceiling if it has one, but never
/// below the floor.
pub open spec fn axis_limits(floor: i32, client_min: i32, client_max: i32) -> (i32, i32) {
    let min = longer(floor, client_min);
    (
        min,
        longer(
            if client_max > 0 {
                client_max
            } else {
                i32::MAX
            },
            min,
        ),
    )
}

/// A length dragged by an edge.
pub open spec fn dragged(start: i32, travel: i32, far: bool, near: bool, limits: (i32, i32)) -> i32 {
    if far {
        clamp(start + travel, limits.0 as int, limits.1 as int) as i32
    } else if near {
        clamp(start - travel, limits.0 as int, limits.1 as int) as i32
    } else {
        start
    }
}

fn drag_length(start: i32, travel: i32, far: bool, near: bool, limits: (i32, i32)) -> (r: i32)
    requires
        limits.0 <= limits.1,
    ensures
        r == dragged(start, travel, far, near, limits),
{
    if far {
        clamp_i32(saturate(start as i64 + travel as i64), limits.0, limits.1)
    } else if near {
        clamp_i32(saturate(start as i64 - travel as i64), limits.0, limits.1)
    } else {
        start
    }
}

impl StateView {
    /// The size range an interactive resize of a window may produce.
    pub open spec fn resize_limits(self, surface: ClientObjectId) -> ((i32, i32), (i32, i32)) {
        let (min, max) = self.client_size_limits(surface);
        let w = axis_limits(MIN_WINDOW_WIDTH, min.0, max.0);
        let h = axis_limits(MIN_WINDOW_HEIGHT, min.1, max.1);
        ((w.0, h.0), (w.1, h.1))
    }

    /// The size a resize grab has reached after the pointer has travelled.
    pub open spec fn resized(
        self,
        surface: ClientObjectId,
        edges: ResizeEdges,
        start: (i32, i32),
        travel: (i32, i32),
    ) -> (i32, i32) {
        let (min, max) = self.resize_limits(surface);
        (
            dragged(start.0, travel.0, edges.right(), edges.left(), (min.0, max.0)),
            dragged(start.1, travel.1, edges.bottom(), edges.top(), (min.1, max.1)),
        )
    }

    /// With a client asked for a size in the course of a resize.
    pub open spec fn configure_resizing(self, toplevel: ClientObjectId, size: (i32, i32), resizing: bool) -> Self {
        let asked = self.notice(
            toplevel.0,
            Notice::ToplevelResize { toplevel: toplevel.1, width: size.0, height: size.1, resizing },
        );
        if self.win.xdg_toplevels.has(toplevel) {
            asked.send_configure(toplevel.0, self.win.xdg_toplevels.at(toplevel).xdg_surface_id)
        } else {
            asked
        }
    }

    /// With a grab, or none.
    pub open spec fn set_grab(self, grab: Option<PointerGrab>) -> Self {
        StateView { win: WindowsView { pointer_grab: grab, ..self.win }, ..self }
    }

    /// With a window dragged to where the pointer is, and the shell told of
    /// the output it is on.
    pub open spec fn drag_window(self, surface: ClientObjectId, offset: (i32, i32)) -> Self {
        let put = self.set_position(surface, moved(self.input.cursor, offset));
        match self.output_at(self.input.cursor.0 as int, self.input.cursor.1 as int) {
            Some(id) => put.hook(Hook::ToplevelDraggedToOutput(surface, id)),
            None => put,
        }
    }

    /// With a window asked for the size a resize has reached, unless it was
    /// asked for that last.
    pub open spec fn drag_edges(
        self,
        grab: PointerGrab,
        edges: ResizeEdges,
        start: (i32, i32),
        last: (i32, i32),
        travel: (i32, i32),
    ) -> Self {
        let size = self.resized(grab.surface, edges, start, travel);
        if size == last {
            self
        } else {
            self.set_grab(
                Some(PointerGrab { kind: GrabKind::Resize { edges, start_size: start, last_sent: size }, ..grab }),
            ).configure_resizing(grab.toplevel, size, true)
        }
    }

    /// With the active grab driven by the pointer.
    pub open spec fn update_grab(self, travel: (i32, i32)) -> Self {
        match self.win.pointer_grab {
            None => self,
            Some(g) => match g.kind {
                GrabKind::Move { offset_x, offset_y } => self.drag_window(g.surface, (offset_x, offset_y)).dirtied(),
                GrabKind::Resize { edges, start_size, last_sent } => self.drag_edges(
                    g,
                    edges,
                    start_size,
                    last_sent,
                    travel,
                ).dirtied(),
            },
        }
    }

    /// With the active grab ended, and a resized client told it has stopped
    /// resizing.
    pub open spec fn end_grab(self) -> Self {
        match self.win.pointer_grab {
            None => self,
            Some(g) => match g.kind {
                GrabKind::Resize { edges, start_size, last_sent } => self.set_grab(None).configure_resizing(
                    g.toplevel,
                    last_sent,
                    false,
                ).dirtied(),
                GrabKind::Move { offset_x, offset_y } => self.set_grab(None).dirtied(),
            },
        }
    }

    /// The edges nearest a point of a window.
    pub open spec fn edges_for_point(self, surface: ClientObjectId, x: i32, y: i32) -> u32 {
        if !self.surf.surfaces.has(surface) {
            10
        } else {
            let position = self.surf.surfaces.at(surface).position;
            let size = self.surface_size(surface);
            let horizontal: int = if x < position.0 + half(size.0 as int) {
                4
            } else {
                8
            };
            let vertical: int = if y < position.1 + half(size.1 as int) {
                1
            } else {
                2
            };
            (horizontal + vertical) as u32
        }
    }
}

fn larger(a: i32, b: i32) -> (r: i32)
    ensures
        r == longer(a, b),
{
    if a < b {
        b
    } else {
        a
    }
}

fn limits_of_axis(floor: i32, client_min: i32, client_max: i32) -> (r: (i32, i32))
    ensures
        r == axis_limits(floor, client_min, client_max),
        r.0 <= r.1,
{
    let min = larger(floor, client_min);
    (
        min,
        larger(
            if client_max > 0 {
                client_max
            } else {
                i32::MAX
            },
            min,
        ),
    )
}

/// The size range an interactive resize of a window may produce.
///
/// Two sources, and the narrowest wins where they overlap: the compositor's own
/// floor, so the window stays grabbable, and the client's `set_min_size` and
/// `set_max_size`.
///
/// Where the client's own limits contradict each other the range is widened
/// rather than inverted. A client that insists on a minimum larger than its
/// stated maximum gets the minimum.
pub fn resize_limits(state: &CompositorState, surface: ClientObjectId) -> (r: ((i32, i32), (i32, i32)))
    ensures
        r == state@.resize_limits(surface),
        r.0.0 <= r.1.0,
        r.0.1 <= r.1.1,
{
    let (min, max) = state.client_size_limits(surface);
    let w = limits_of_axis(MIN_WINDOW_WIDTH, min.0, max.0);
    let h = limits_of_axis(MIN_WINDOW_HEIGHT, min.1, max.1);
    ((w.0, h.0), (w.1, h.1))
}

fn resized(
    state: &CompositorState,
    surface: ClientObjectId,
    edges: ResizeEdges,
    start: (i32, i32),
    travel: (i32, i32),
) -> (r: (i32, i32))
    ensures
        r == state@.resized(surface, edges, start, travel),
{
    let (min, max) = resize_limits(state, surface);
    (
        drag_length(start.0, travel.0, edges.right(), edges.left(), (min.0, max.0)),
        drag_length(start.1, travel.1, edges.bottom(), edges.top(), (min.1, max.1)),
    )
}

/// Ask a client for a size, marking whether the resize is still in progress.
fn configure_resizing(state: &mut CompositorState, toplevel: ClientObjectId, size: (i32, i32), resizing: bool)
    ensures
        final(state)@ == old(state)@.configure_resizing(toplevel, size, resizing),
{
    let xdg: Option<u32> = match state.win.xdg_toplevels.get(toplevel) {
        Some(t) => Some(t.xdg_surface_id),
        None => None,
    };
    state.notice(
        toplevel.0,
        Notice::ToplevelResize { toplevel: toplevel.1, width: size.0, height: size.1, resizing },
    );
    if let Some(xdg) = xdg {
        send_configure(state, toplevel.0, xdg);
    }
}

fn drag_window(state: &mut CompositorState, surface: ClientObjectId, offset: (i32, i32))
    ensures
        final(state)@ == old(state)@.drag_window(surface, offset),
{
    let cursor: (i32, i32) = state.input.cursor;
    let output = state.output_at(cursor.0, cursor.1);
    state.set_position(surface, move_by(cursor, offset));
    if let Some(id) = output {
        state.hook(Hook::ToplevelDraggedToOutput(surface, id));
    }
}

fn drag_edges(
    state: &mut CompositorState,
    grab: PointerGrab,
    edges: ResizeEdges,
    start: (i32, i32),
    last: (i32, i32),
    travel: (i32, i32),
)
    ensures
        final(state)@ == old(state)@.drag_edges(grab, edges, start, last, travel),
{
    let size = resized(state, grab.surface, edges, start, travel);
    if size.0 == last.0 && size.1 == last.1 {
        return;
    }
    state.win.pointer_grab = Some(
        PointerGrab {
            surface: grab.surface,
            toplevel: grab.toplevel,
            kind: GrabKind::Resize { edges, start_size: start, last_sent: size },
        },
    );
    configure_resizing(state, grab.toplevel, size, true);
}

/// Drive the active grab from the pointer's position, and from how far it has
/// travelled since the grab began. Returns false if there is none.
pub fn update_grab(state: &mut CompositorState, travel: (i32, i32)) -> (r: bool)
    ensures
        r == (old(state)@.win.pointer_grab is Some),
        final(state)@ == old(state)@.update_grab(travel),
{
    let grab: PointerGrab = match state.win.pointer_grab {
        Some(grab) => grab,
        None => {
            return false;
        },
    };
    match grab.kind {
        GrabKind::Move { offset_x, offset_y } => {
            drag_window(state, grab.surface, (offset_x, offset_y));
        },
        GrabKind::Resize { edges, start_size, last_sent } => {
            drag_edges(state, grab, edges, start_size, last_sent, travel);
        },
    }
    state.dirty = true;
    true
}

/// End the active grab, telling a resized client it has stopped resizing.
pub fn end_grab(state: &mut CompositorState)
    ensures
        final(state)@ == old(state)@.end_grab(),
{
    let grab: PointerGrab = match state.win.pointer_grab {
        Some(grab) => grab,
        None => {
            return;
        },
    };
    state.win.pointer_grab = None;
    if let GrabKind::Resize { last_sent, .. } = grab.kind {
        configure_resizing(state, grab.toplevel, last_sent, false);
    }
    state.dirty = true;
}

/// Which edges a drag from anywhere in a window should pull, from where in the
/// window the pointer sits: the nearest corner, so any part of the window is
/// usable.
pub fn edges_for_point(state: &CompositorState, surface: ClientObjectId, x: i32, y: i32) -> (r: ResizeEdges)
    ensures
        r.0 == state@.edges_for_point(surface, x, y),
{
    let position: (i32, i32) = match state.surf.surfaces.get(surface) {
        Some(s) => s.position,
        None => {
            return ResizeEdges(ResizeEdges::BOTTOM + ResizeEdges::RIGHT);
        },
    };
    let (width, height) = state.surface_size(surface);
    let horizontal: u32 = if (x as i64) < position.0 as i64 + halved(width as i64) {
        ResizeEdges::LEFT
    } else {
        ResizeEdges::RIGHT
    };
    let vertical: u32 = if (y as i64) < position.1 as i64 + halved(height as i64) {
        ResizeEdges::TOP
    } else {
        ResizeEdges::BOTTOM
    };
    ResizeEdges(horizontal + vertical)
}

} // verus!
