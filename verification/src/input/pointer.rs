//! Telling clients what the pointer is over.
use crate::input::drag::update_drag;
use crate::input::focus::switch_focus;
use crate::input::grab::update_grab;
use crate::input::hit::{hit_test, HitResult};
use crate::protocol::messages::Notice;
use crate::shell::Shell;
use crate::state::compositor_state::{CompositorState, InputsView, StateView};
use crate::state::types::{ClientObjectId, same_opt_key};
use vstd::prelude::*;

verus! {

impl StateView {
    /// The pointers of a client told that the pointer is over a surface, for
    /// the first few pointers there are.
    pub open spec fn pointers_entered(self, hit: HitResult, n: nat) -> Self
        decreases n,
    {
        if n == 0 || n > self.input.pointers.len() {
            self
        } else {
            let before = self.pointers_entered(hit, (n - 1) as nat);
            let p = self.input.pointers[n - 1];
            let c = hit.surface.0;
            if p.client_id == c {
                before.serial_taken().notice(
                    c,
                    Notice::PointerEnter {
                        serial: before.next_serial,
                        pointer: p.object_id,
                        surface: hit.surface.1,
                        x: hit.surface_x,
                        y: hit.surface_y,
                    },
                ).notice(c, Notice::PointerFrame { pointer: p.object_id })
            } else {
                before
            }
        }
    }

    /// The pointers of a client told that the pointer has moved, for the first
    /// few pointers there are.
    pub open spec fn pointers_moved(self, hit: HitResult, time: u32, n: nat) -> Self
        decreases n,
    {
        if n == 0 || n > self.input.pointers.len() {
            self
        } else {
            let before = self.pointers_moved(hit, time, (n - 1) as nat);
            let p = self.input.pointers[n - 1];
            let c = hit.surface.0;
            if p.client_id == c {
                before.notice(
                    c,
                    Notice::PointerMotion { time, pointer: p.object_id, x: hit.surface_x, y: hit.surface_y },
                ).notice(c, Notice::PointerFrame { pointer: p.object_id })
            } else {
                before
            }
        }
    }

    /// With the serial of a client's last press noted, if it is one.
    pub open spec fn note_click(self, client_id: u32, serial: u32, pressed: bool) -> Self {
        if pressed {
            StateView {
                input: InputsView {
                    last_button_serial: self.input.last_button_serial.put(client_id, serial),
                    ..self.input
                },
                ..self
            }
        } else {
            self
        }
    }

    /// The pointers of a client told of a button, for the first few pointers
    /// there are.
    pub open spec fn pointers_clicked(self, client_id: u32, time: u32, button: u32, pressed: bool, n: nat) -> Self
        decreases n,
    {
        if n == 0 || n > self.input.pointers.len() {
            self
        } else {
            let before = self.pointers_clicked(client_id, time, button, pressed, (n - 1) as nat);
            let p = self.input.pointers[n - 1];
            if p.client_id == client_id {
                before.serial_taken().notice(
                    client_id,
                    Notice::PointerButton { serial: before.next_serial, time, pointer: p.object_id, button, pressed },
                ).note_click(client_id, before.next_serial, pressed).notice(
                    client_id,
                    Notice::PointerFrame { pointer: p.object_id },
                )
            } else {
                before
            }
        }
    }

    /// With the pointer over a surface, or over none, and nobody told.
    pub open spec fn set_pointed(self, surface: Option<ClientObjectId>) -> Self {
        StateView { input: InputsView { pointer_surface: surface, ..self.input }, ..self }
    }

    /// With the client the pointer was over told it has left.
    pub open spec fn leave_pointed(self) -> Self {
        match self.input.pointer_surface {
            Some(s) => self.pointers_left(s, self.input.pointers.len()),
            None => self,
        }
    }

    /// With the pointer over something else than before, and both clients told.
    pub open spec fn point_at(self, hit: Option<HitResult>) -> Self {
        match hit {
            Some(h) => if self.input.pointer_surface == Some(h.surface) {
                self
            } else {
                self.leave_pointed().set_pointed(Some(h.surface)).pointers_entered(h, self.input.pointers.len())
            },
            None => if self.input.pointer_surface is None {
                self
            } else {
                self.leave_pointed().set_pointed(None)
            },
        }
    }

    /// With what is under the pointer told where it is.
    pub open spec fn move_over(self, hit: Option<HitResult>, time: u32) -> Self {
        match hit {
            Some(h) => self.pointers_moved(h, time, self.input.pointers.len()),
            None => self,
        }
    }

    /// With keyboard focus on the topmost window, if nothing has it and there
    /// is one.
    pub open spec fn focus_something<S: Shell>(self, shell: S) -> Self {
        match self.top_visible_toplevel(shell) {
            Some(k) => if self.input.focused_surface is None && self.surf.surfaces.has(k) {
                self.switch_focus(k)
            } else {
                self
            },
            None => self,
        }
    }

    /// With the pointer where it is: driving a grab or a drag if there is one,
    /// and otherwise over whatever is there.
    pub open spec fn pointer_motion<S: Shell>(self, shell: S, time: u32, travel: (i32, i32)) -> Self {
        let moved = StateView { cursor_dirty: true, ..self };
        if self.win.pointer_grab is Some {
            moved.update_grab(travel)
        } else if self.data.drag is Some {
            moved.update_drag(shell, time)
        } else {
            let focused = moved.focus_something(shell);
            let hit = focused.hit_test(shell, focused.input.cursor);
            focused.point_at(hit).move_over(hit, time)
        }
    }
}

/// Tell every pointer of a client that the pointer is over a surface of its.
pub fn tell_entered(state: &mut CompositorState, hit: HitResult)
    ensures
        final(state)@ == old(state)@.pointers_entered(hit, old(state)@.input.pointers.len()),
        final(state)@.input.pointers == old(state)@.input.pointers,
{
    let n: usize = state.input.pointers.len();
    let mut i: usize = 0;
    while i < n
        invariant
            i <= n,
            n == old(state)@.input.pointers.len(),
            state@.input.pointers == old(state)@.input.pointers,
            state@ == old(state)@.pointers_entered(hit, i as nat),
        decreases n - i,
    {
        let p = state.input.pointers[i];
        let c: u32 = hit.surface.0;
        if p.client_id == c {
            let serial = state.take_serial();
            state.notice(
                c,
                Notice::PointerEnter {
                    serial,
                    pointer: p.object_id,
                    surface: hit.surface.1,
                    x: hit.surface_x,
                    y: hit.surface_y,
                },
            );
            state.notice(c, Notice::PointerFrame { pointer: p.object_id });
        }
        i += 1;
    }
}

fn tell_moved(state: &mut CompositorState, hit: HitResult, time: u32)
    ensures
        final(state)@ == old(state)@.pointers_moved(hit, time, old(state)@.input.pointers.len()),
{
    let n: usize = state.input.pointers.len();
    let mut i: usize = 0;
    while i < n
        invariant
            i <= n,
            n == old(state)@.input.pointers.len(),
            state@.input.pointers == old(state)@.input.pointers,
            state@ == old(state)@.pointers_moved(hit, time, i as nat),
        decreases n - i,
    {
        let p = state.input.pointers[i];
        let c: u32 = hit.surface.0;
        if p.client_id == c {
            state.notice(
                c,
                Notice::PointerMotion { time, pointer: p.object_id, x: hit.surface_x, y: hit.surface_y },
            );
            state.notice(c, Notice::PointerFrame { pointer: p.object_id });
        }
        i += 1;
    }
}

/// Tell every pointer of a client of a button pressed or released.
pub fn tell_clicked(state: &mut CompositorState, client_id: u32, time: u32, button: u32, pressed: bool)
    ensures
        final(state)@ == old(state)@.pointers_clicked(
            client_id,
            time,
            button,
            pressed,
            old(state)@.input.pointers.len(),
        ),
{
    let n: usize = state.input.pointers.len();
    let mut i: usize = 0;
    while i < n
        invariant
            i <= n,
            n == old(state)@.input.pointers.len(),
            state@.input.pointers == old(state)@.input.pointers,
            state@ == old(state)@.pointers_clicked(client_id, time, button, pressed, i as nat),
        decreases n - i,
    {
        let p = state.input.pointers[i];
        if p.client_id == client_id {
            let serial = state.take_serial();
            state.notice(
                client_id,
                Notice::PointerButton { serial, time, pointer: p.object_id, button, pressed },
            );
            if pressed {
                state.input.last_button_serial.insert(client_id, serial);
            }
            state.notice(client_id, Notice::PointerFrame { pointer: p.object_id });
        }
        i += 1;
    }
}

fn leave_pointed(state: &mut CompositorState)
    ensures
        final(state)@ == old(state)@.leave_pointed(),
        final(state)@.input.pointers == old(state)@.input.pointers,
{
    if let Some(s) = state.input.pointer_surface {
        state.send_pointer_leave(s);
    }
}

/// Tell the client the pointer was over, and the one it is over now, if that
/// has changed.
pub fn point_at(state: &mut CompositorState, hit: Option<HitResult>)
    ensures
        final(state)@ == old(state)@.point_at(hit),
{
    match hit {
        Some(h) => {
            if !same_opt_key(state.input.pointer_surface, Some(h.surface)) {
                leave_pointed(state);
                state.input.pointer_surface = Some(h.surface);
                tell_entered(state, h);
            }
        },
        None => {
            if state.input.pointer_surface.is_some() {
                leave_pointed(state);
                state.input.pointer_surface = None;
            }
        },
    }
}

/// Give the topmost window keyboard focus, if nothing has it.
fn focus_something<S: Shell>(state: &mut CompositorState, shell: &S)
    ensures
        final(state)@ == old(state)@.focus_something(*shell),
{
    if state.input.focused_surface.is_none() {
        if let Some(k) = state.top_visible_toplevel(shell) {
            if state.surf.surfaces.contains(k) {
                switch_focus(state, k);
            }
        }
    }
}

/// Work out what the pointer is now over, and tell the client about it.
///
/// Reads the position from state rather than taking one, because by this point
/// it has been constrained onto an output and the raw value the backend sent is
/// no longer the truth. `travel` is how far the pointer has come since the
/// active grab began.
pub fn deliver_pointer_motion<S: Shell>(state: &mut CompositorState, shell: &S, time_ms: u32, travel: (i32, i32))
    ensures
        final(state)@ == old(state)@.pointer_motion(*shell, time_ms, travel),
{
    state.cursor_dirty = true;
    if update_grab(state, travel) {
        return;
    }
    if update_drag(state, shell, time_ms) {
        return;
    }
    focus_something(state, shell);
    let hit = hit_test(state, shell, state.input.cursor.0, state.input.cursor.1);
    point_at(state, hit);
    if let Some(h) = hit {
        tell_moved(state, h, time_ms);
    }
}

} // verus!
