//! What a mouse button does.
use crate::input::drag::finish_drag;
use crate::input::grab::end_grab;
use crate::input::hit::{hit_test, HitResult};
use crate::input::pointer::{tell_clicked, tell_entered};
use crate::input::popups::dismiss_popups_outside_click;
use crate::shell::Shell;
use crate::state::compositor_state::{CompositorState, InputsView, StateView};
use crate::state::types::same_opt_key;
use crate::table::{set_put, set_without};
use vstd::prelude::*;

verus! {

/// What is to be done about a button next.
#[derive(Debug, Clone, Copy, PartialEq, Eq)]
pub enum ButtonStep {
    /// Nothing
    Done,
    /// Ask the shell whether it takes the press, on what is given
    Ask(Option<HitResult>),
    /// Tell the client
    Deliver,
}

/// What is to be done about a press that nobody has taken.
#[derive(Debug, Clone, Copy, PartialEq, Eq)]
pub enum PressStep {
    /// Nothing: it dismissed a popup
    Dismissed,
    /// Tell the shell that a window other than the focused one was clicked
    Clicked(HitResult),
    /// Tell the client
    Deliver,
}

impl StateView {
    /// With a button held or not.
    pub open spec fn note_button(self, button: u32, pressed: bool) -> Self {
        StateView {
            input: InputsView {
                pressed_buttons: if pressed {
                    set_put(self.input.pressed_buttons, button)
                } else {
                    set_without(self.input.pressed_buttons, button)
                },
                ..self.input
            },
            ..self
        }
    }

    /// With a button pressed or released, before anyone is told. A grab or a
    /// drag takes every button, and ends with the first release.
    pub open spec fn start_button(self, button: u32, pressed: bool) -> Self {
        let noted = self.note_button(button, pressed);
        if pressed {
            noted
        } else if self.win.pointer_grab is Some {
            noted.end_grab()
        } else if self.data.drag is Some {
            noted.finish_drag()
        } else {
            noted
        }
    }

    /// What is to be done about a button next.
    pub open spec fn button_step<S: Shell>(self, shell: S, button: u32, pressed: bool) -> ButtonStep {
        if self.win.pointer_grab is Some || self.data.drag is Some {
            ButtonStep::Done
        } else if pressed {
            let noted = self.note_button(button, pressed);
            ButtonStep::Ask(noted.hit_test(shell, noted.input.cursor))
        } else {
            ButtonStep::Deliver
        }
    }

    /// What is to be done about a press that the shell has not taken: one that
    /// dismisses a popup does nothing more, and one on a window that has not
    /// the focus is a click.
    pub open spec fn press_step<S: Shell>(self, shell: S) -> PressStep {
        if self.dismisses_popups() {
            PressStep::Dismissed
        } else {
            let left = self.dismiss_popups();
            match left.hit_test(shell, left.input.cursor) {
                Some(h) => if left.input.focused_surface == Some(h.toplevel) {
                    PressStep::Deliver
                } else {
                    PressStep::Clicked(h)
                },
                None => PressStep::Deliver,
            }
        }
    }

    /// With the pointer over what was clicked, and its client told if it was
    /// not over it before.
    pub open spec fn enter_clicked(self, hit: HitResult) -> Self {
        if self.input.pointer_surface == Some(hit.surface) {
            self
        } else {
            self.set_pointed(Some(hit.surface)).pointers_entered(hit, self.input.pointers.len())
        }
    }

    /// With the client under the pointer told of a button.
    pub open spec fn deliver_button(self, time: u32, button: u32, pressed: bool) -> Self {
        match self.input.pointer_surface {
            Some(s) => self.pointers_clicked(s.0, time, button, pressed, self.input.pointers.len()),
            None => self,
        }
    }
}

fn note_button(state: &mut CompositorState, button: u32, pressed: bool)
    ensures
        final(state)@ == old(state)@.note_button(button, pressed),
{
    if pressed {
        state.input.pressed_buttons.insert(button);
    } else {
        state.input.pressed_buttons.remove(button);
    }
}

/// A button has been pressed or released.
pub fn start_button<S: Shell>(state: &mut CompositorState, shell: &S, button: u32, pressed: bool) -> (r: ButtonStep)
    ensures
        final(state)@ == old(state)@.start_button(button, pressed),
        r == old(state)@.button_step(*shell, button, pressed),
{
    note_button(state, button, pressed);
    if state.win.pointer_grab.is_some() {
        if !pressed {
            end_grab(state);
        }
        return ButtonStep::Done;
    }
    if state.data.drag.is_some() {
        if !pressed {
            finish_drag(state);
        }
        return ButtonStep::Done;
    }
    if pressed {
        ButtonStep::Ask(hit_test(state, shell, state.input.cursor.0, state.input.cursor.1))
    } else {
        ButtonStep::Deliver
    }
}

/// The shell has not taken a press.
pub fn start_press<S: Shell>(state: &mut CompositorState, shell: &S) -> (r: PressStep)
    ensures
        final(state)@ == old(state)@.dismiss_popups(),
        r == old(state)@.press_step(*shell),
{
    if dismiss_popups_outside_click(state) {
        return PressStep::Dismissed;
    }
    match hit_test(state, shell, state.input.cursor.0, state.input.cursor.1) {
        Some(h) => if same_opt_key(state.input.focused_surface, Some(h.toplevel)) {
            PressStep::Deliver
        } else {
            PressStep::Clicked(h)
        },
        None => PressStep::Deliver,
    }
}

/// The shell has been told of a click.
pub fn enter_clicked(state: &mut CompositorState, hit: HitResult)
    ensures
        final(state)@ == old(state)@.enter_clicked(hit),
{
    if !same_opt_key(state.input.pointer_surface, Some(hit.surface)) {
        state.input.pointer_surface = Some(hit.surface);
        tell_entered(state, hit);
    }
}

/// Tell the client under the pointer of a button.
pub fn deliver_button(state: &mut CompositorState, time_ms: u32, button: u32, pressed: bool)
    ensures
        final(state)@ == old(state)@.deliver_button(time_ms, button, pressed),
{
    if let Some(s) = state.input.pointer_surface {
        tell_clicked(state, s.0, time_ms, button, pressed);
    }
}

} // verus!
