//! Keyboard focus: who is told when it moves.
use crate::protocol::messages::Notice;
use crate::protocol::zwp_primary_selection_device::send_selection_to_client;
use crate::state::compositor_state::{CompositorState, InputsView, StateView};
use crate::state::types::{ClientObjectId, KeyboardInteractivity, same_opt_key};
use vstd::prelude::*;

verus! {

impl StateView {
    /// The keyboards of a client told that focus has left a surface, for the
    /// first few keyboards there are.
    pub open spec fn keyboards_left(self, surface: ClientObjectId, n: nat) -> Self
        decreases n,
    {
        if n == 0 || n > self.input.keyboards.len() {
            self
        } else {
            let before = self.keyboards_left(surface, (n - 1) as nat);
            let k = self.input.keyboards[n - 1];
            if k.client_id == surface.0 {
                before.serial_taken().notice(
                    surface.0,
                    Notice::KeyboardLeave { serial: before.next_serial, keyboard: k.object_id, surface: surface.1 },
                )
            } else {
                before
            }
        }
    }

    /// The keyboards of a client told that focus is on a surface and what the
    /// modifiers are, for the first few keyboards there are.
    pub open spec fn keyboards_entered(self, surface: ClientObjectId, n: nat) -> Self
        decreases n,
    {
        if n == 0 || n > self.input.keyboards.len() {
            self
        } else {
            let before = self.keyboards_entered(surface, (n - 1) as nat);
            let k = self.input.keyboards[n - 1];
            if k.client_id == surface.0 {
                let entered = before.serial_taken().notice(
                    surface.0,
                    Notice::KeyboardEnter { serial: before.next_serial, keyboard: k.object_id, surface: surface.1 },
                );
                entered.serial_taken().notice(
                    surface.0,
                    Notice::KeyboardModifiers { serial: entered.next_serial, keyboard: k.object_id },
                )
            } else {
                before
            }
        }
    }

    /// With focus on a surface, or on none, and nobody told.
    pub open spec fn set_focused(self, surface: Option<ClientObjectId>) -> Self {
        StateView { input: InputsView { focused_surface: surface, ..self.input }, ..self }
    }

    /// With focus taken away, and the client that had it told.
    pub open spec fn clear_focus(self) -> Self {
        match self.input.focused_surface {
            None => self,
            Some(s) => self.set_focused(None).keyboards_left(s, self.input.keyboards.len()).notice(
                s.0,
                Notice::ToplevelActivated { surface: s.1, activated: false },
            ),
        }
    }

    /// With focus moved to a surface: the client that had it told it is gone,
    /// and the one that has it told it is there, and what the selections are.
    pub open spec fn switch_focus(self, new_key: ClientObjectId) -> Self {
        if self.input.focused_surface == Some(new_key) {
            self
        } else {
            self.clear_focus().set_focused(Some(new_key)).keyboards_entered(
                new_key,
                self.input.keyboards.len(),
            ).notice(new_key.0, Notice::ToplevelActivated { surface: new_key.1, activated: true }).notice(
                new_key.0,
                Notice::Clipboard,
            ).primary_to_client(new_key.0)
        }
    }

    /// Whether clicking a surface may focus it: a layer surface must want the
    /// keyboard at all.
    pub open spec fn accepts_click_focus(self, surface: ClientObjectId) -> bool {
        match self.layer_surface_of(surface) {
            None => true,
            Some(k) => self.layers.layer_surfaces.has(k) && !(
            self.layers.layer_surfaces.at(k).current.keyboard_interactivity is Never),
        }
    }
}

fn tell_left(state: &mut CompositorState, surface: ClientObjectId)
    ensures
        final(state)@ == old(state)@.keyboards_left(surface, old(state)@.input.keyboards.len()),
        final(state)@.input.keyboards == old(state)@.input.keyboards,
{
    let n: usize = state.input.keyboards.len();
    let mut i: usize = 0;
    while i < n
        invariant
            i <= n,
            n == old(state)@.input.keyboards.len(),
            state@.input.keyboards == old(state)@.input.keyboards,
            state@ == old(state)@.keyboards_left(surface, i as nat),
        decreases n - i,
    {
        let k = state.input.keyboards[i];
        if k.client_id == surface.0 {
            let serial = state.take_serial();
            state.notice(
                surface.0,
                Notice::KeyboardLeave { serial, keyboard: k.object_id, surface: surface.1 },
            );
        }
        i += 1;
    }
}

fn tell_entered(state: &mut CompositorState, surface: ClientObjectId)
    ensures
        final(state)@ == old(state)@.keyboards_entered(surface, old(state)@.input.keyboards.len()),
{
    let n: usize = state.input.keyboards.len();
    let mut i: usize = 0;
    while i < n
        invariant
            i <= n,
            n == old(state)@.input.keyboards.len(),
            state@.input.keyboards == old(state)@.input.keyboards,
            state@ == old(state)@.keyboards_entered(surface, i as nat),
        decreases n - i,
    {
        let k = state.input.keyboards[i];
        if k.client_id == surface.0 {
            let serial = state.take_serial();
            state.notice(
                surface.0,
                Notice::KeyboardEnter { serial, keyboard: k.object_id, surface: surface.1 },
            );
            let serial = state.take_serial();
            state.notice(surface.0, Notice::KeyboardModifiers { serial, keyboard: k.object_id });
        }
        i += 1;
    }
}

/// Take keyboard focus away from whoever has it, telling them.
pub fn clear_focus(state: &mut CompositorState)
    ensures
        final(state)@ == old(state)@.clear_focus(),
        final(state)@.input.keyboards == old(state)@.input.keyboards,
{
    if let Some(s) = state.input.focused_surface {
        state.input.focused_surface = None;
        tell_left(state, s);
        state.notice(s.0, Notice::ToplevelActivated { surface: s.1, activated: false });
    }
}

/// Switch keyboard focus to a new toplevel surface. Sends keyboard enter/leave
/// and `xdg_toplevel` activated/deactivated configure events. Pointer focus is
/// tracked separately.
pub fn switch_focus(state: &mut CompositorState, new_key: ClientObjectId)
    ensures
        final(state)@ == old(state)@.switch_focus(new_key),
{
    if same_opt_key(state.input.focused_surface, Some(new_key)) {
        return;
    }
    clear_focus(state);
    state.input.focused_surface = Some(new_key);
    tell_entered(state, new_key);
    state.notice(new_key.0, Notice::ToplevelActivated { surface: new_key.1, activated: true });
    state.notice(new_key.0, Notice::Clipboard);
    send_selection_to_client(state, new_key.0);
}

/// Whether clicking a surface may focus it.
pub fn accepts_click_focus(state: &CompositorState, surface: ClientObjectId) -> (r: bool)
    ensures
        r == state@.accepts_click_focus(surface),
{
    match state.layer_surface_of(surface) {
        None => true,
        Some(k) => match state.layers.layer_surfaces.get(k) {
            Some(l) => l.current.keyboard_interactivity != KeyboardInteractivity::Never,
            None => false,
        },
    }
}

} // verus!
