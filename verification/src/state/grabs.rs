//! Interactive moves and resizes.
use crate::protocol::messages::Notice;
use crate::state::compositor_state::{
    CompositorState, InputsView, StateView, SurfacesView, WindowsView,
};
use crate::state::types::{
    ClientObjectId, GrabKind, minus, plus, PointerGrab, ResizeAnchor, ResizeEdges, same_key,
    SurfaceView, to_i32,
};
use vstd::prelude::*;

verus! {

impl StateView {
    /// The pointers of a client told that the pointer has left a surface, for
    /// the first few pointers there are.
    pub open spec fn pointers_left(self, surface: ClientObjectId, n: nat) -> Self
        decreases n,
    {
        if n == 0 || n > self.input.pointers.len() {
            self
        } else {
            let before = self.pointers_left(surface, (n - 1) as nat);
            let p = self.input.pointers[n - 1];
            if p.client_id == surface.0 {
                before.serial_taken().notice(
                    p.client_id,
                    Notice::PointerLeave { serial: before.next_serial, pointer: p.object_id, surface: surface.1 },
                ).notice(p.client_id, Notice::PointerFrame { pointer: p.object_id })
            } else {
                before
            }
        }
    }

    /// With the pointer taken away from whichever client has it.
    pub open spec fn pointer_released(self) -> Self {
        match self.input.pointer_surface {
            None => self,
            Some(s) => StateView { input: InputsView { pointer_surface: None, ..self.input }, ..self }.pointers_left(s, self.input.pointers.len()),
        }
    }

    /// The pointer holds no window, or drags nothing.
    pub open spec fn one_owner(self) -> bool {
        self.win.pointer_grab is None || self.data.drag is None
    }

    /// With an interactive move of a window begun, unless the pointer is
    /// dragging something or the window fills its output.
    pub open spec fn start_move_grab(self, surface: ClientObjectId) -> Self {
        if self.data.drag is Some || self.window_state_locked(surface) {
            self
        } else {
            let loose = StateView { win: WindowsView { resize_anchor: None, ..self.win }, ..self };
            if self.toplevel_for_surface(surface) is None || !self.surf.surfaces.has(surface) {
                loose
            } else {
                let position = self.surf.surfaces.at(surface).position;
                StateView { win: WindowsView { pointer_grab: Some(
                        PointerGrab {
                            surface,
                            toplevel: self.toplevel_for_surface(surface)->0,
                            kind: GrabKind::Move {
                                offset_x: to_i32(position.0 - self.input.cursor.0),
                                offset_y: to_i32(position.1 - self.input.cursor.1),
                            },
                        },
                    ), ..loose.pointer_released().win }, ..loose.pointer_released() }
            }
        }
    }

    /// With an interactive resize of a window begun, unless the pointer is
    /// dragging something, the window fills its output or it has no size.
    pub open spec fn start_resize_grab(self, surface: ClientObjectId, edges: ResizeEdges) -> Self {
        let size = self.surface_size(surface);
        if self.data.drag is Some || self.window_state_locked(surface) || self.toplevel_for_surface(surface) is None
            || !self.surf.surfaces.has(surface) || size.0 <= 0 || size.1 <= 0 {
            self
        } else {
            let position = self.surf.surfaces.at(surface).position;
            StateView { win: WindowsView { pointer_grab: Some(
                    PointerGrab {
                        surface,
                        toplevel: self.toplevel_for_surface(surface)->0,
                        kind: GrabKind::Resize { edges, start_size: size, last_sent: size },
                    },
                ), resize_anchor: if edges.left() || edges.top() {
                    Some(
                        ResizeAnchor {
                            surface,
                            edges,
                            right: to_i32(position.0 + size.0),
                            bottom: to_i32(position.1 + size.1),
                        },
                    )
                } else {
                    None
                }, ..self.pointer_released().win }, ..self.pointer_released() }
        }
    }

    /// With a resizing window put where the size it has committed leaves the
    /// edges that are not dragged where they were. The anchor is let go of
    /// once the grab has ended.
    pub open spec fn apply_resize_anchor(self, key: ClientObjectId) -> Self {
        let size = self.surface_size(key);
        match self.win.resize_anchor {
            None => self,
            Some(a) => if a.surface != key || size.0 <= 0 || size.1 <= 0 {
                self
            } else {
                StateView { surf: SurfacesView { surfaces: self.surf.surfaces.edit(
                        key,
                        |s: SurfaceView|
                            SurfaceView {
                                position: (
                                    if a.edges.left() {
                                        to_i32(a.right - size.0)
                                    } else {
                                        s.position.0
                                    },
                                    if a.edges.top() {
                                        to_i32(a.bottom - size.1)
                                    } else {
                                        s.position.1
                                    },
                                ),
                                ..s
                            },
                    ), ..self.surf }, win: WindowsView { resize_anchor: if self.win.pointer_grab is None {
                        None
                    } else {
                        Some(a)
                    }, ..self.win }, ..self }
            },
        }
    }
}

impl CompositorState {
    /// Tell the client of a surface that the pointer has left it.
    pub fn send_pointer_leave(&mut self, surface: ClientObjectId)
        ensures
            final(self)@ == old(self)@.pointers_left(surface, old(self)@.input.pointers.len()),
            final(self)@.input.pointers == old(self)@.input.pointers,
    {
        let n: usize = self.input.pointers.len();
        let mut i: usize = 0;
        while i < n
            invariant
                i <= n,
                n == old(self)@.input.pointers.len(),
                self@.input.pointers == old(self)@.input.pointers,
                self@ == old(self)@.pointers_left(surface, i as nat),
            decreases n - i,
        {
            let p = self.input.pointers[i];
            if p.client_id == surface.0 {
                let serial = self.take_serial();
                self.notice(
                    p.client_id,
                    Notice::PointerLeave { serial, pointer: p.object_id, surface: surface.1 },
                );
                self.notice(p.client_id, Notice::PointerFrame { pointer: p.object_id });
            }
            i += 1;
        }
    }

    /// Take the pointer away from whichever client currently has it.
    pub fn release_pointer_to_grab(&mut self)
        ensures
            final(self)@ == old(self)@.pointer_released(),
    {
        if let Some(surface) = self.input.pointer_surface {
            self.input.pointer_surface = None;
            self.send_pointer_leave(surface);
        }
    }

    /// Begin an interactive move of a window.
    ///
    /// Sends the client a pointer leave first: the compositor owns the pointer for
    /// the duration.
    pub fn start_move_grab(&mut self, surface: ClientObjectId)
        ensures
            final(self)@ == old(self)@.start_move_grab(surface),
    {
        if self.data.drag.is_some() || self.is_window_state_locked(surface) {
            return;
        }
        let toplevel = self.toplevel_for_surface(surface);
        self.win.resize_anchor = None;
        let toplevel = match toplevel {
            Some(toplevel) => toplevel,
            None => {
                return;
            },
        };
        let position: (i32, i32) = match self.surf.surfaces.get(surface) {
            Some(s) => s.position,
            None => {
                return;
            },
        };
        let kind = GrabKind::Move {
            offset_x: minus(position.0, self.input.cursor.0),
            offset_y: minus(position.1, self.input.cursor.1),
        };
        self.release_pointer_to_grab();
        self.win.pointer_grab = Some(PointerGrab { surface, toplevel, kind });
    }

    /// Begin an interactive resize of a window's edge or corner.
    pub fn start_resize_grab(&mut self, surface: ClientObjectId, edges: ResizeEdges)
        ensures
            final(self)@ == old(self)@.start_resize_grab(surface, edges),
    {
        if self.data.drag.is_some() || self.is_window_state_locked(surface) {
            return;
        }
        let toplevel = match self.toplevel_for_surface(surface) {
            Some(toplevel) => toplevel,
            None => {
                return;
            },
        };
        let position: (i32, i32) = match self.surf.surfaces.get(surface) {
            Some(s) => s.position,
            None => {
                return;
            },
        };
        let size = self.surface_size(surface);
        if size.0 <= 0 || size.1 <= 0 {
            return;
        }
        self.release_pointer_to_grab();
        self.win.pointer_grab = Some(
            PointerGrab {
                surface,
                toplevel,
                kind: GrabKind::Resize { edges, start_size: size, last_sent: size },
            },
        );
        self.win.resize_anchor = if edges.left() || edges.top() {
            Some(
                ResizeAnchor { surface, edges, right: plus(position.0, size.0), bottom: plus(position.1, size.1) },
            )
        } else {
            None
        };
    }

    /// Re-derive a resizing window's position from the size it actually
    /// committed, keeping the grabbed resize's fixed edges fixed.
    ///
    /// Called as a commit's state applies. Doing this per commit rather than
    /// per pointer motion is what keeps a left- or top-edge resize steady.
    pub fn apply_resize_anchor(&mut self, key: ClientObjectId)
        ensures
            final(self)@ == old(self)@.apply_resize_anchor(key),
    {
        let anchor = match self.win.resize_anchor {
            Some(anchor) => anchor,
            None => {
                return;
            },
        };
        if !same_key(anchor.surface, key) {
            return;
        }
        let (width, height) = self.surface_size(key);
        if width <= 0 || height <= 0 {
            return;
        }
        if let Some(surface) = self.surf.surfaces.get_mut(key) {
            if anchor.edges.left() {
                surface.position.0 = minus(anchor.right, width);
            }
            if anchor.edges.top() {
                surface.position.1 = minus(anchor.bottom, height);
            }
        }
        if self.win.pointer_grab.is_none() {
            self.win.resize_anchor = None;
        }
    }
}

} // verus!
