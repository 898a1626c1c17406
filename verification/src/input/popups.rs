//! Dismissing popups.
use crate::protocol::messages::Notice;
use crate::state::compositor_state::{CompositorState, StateView, WindowsView};
use crate::state::types::ClientObjectId;
use vstd::prelude::*;

verus! {

impl StateView {
    /// The surface a popup is made of, if all of it is there.
    pub open spec fn popup_surface(self, popup: ClientObjectId) -> Option<ClientObjectId> {
        if self.win.xdg_popups.has(popup) {
            let xdg = (popup.0, self.win.xdg_popups.at(popup).xdg_surface_id);
            if self.win.xdg_surfaces.has(xdg) {
                Some((popup.0, self.win.xdg_surfaces.at(xdg).wl_surface_id))
            } else {
                None
            }
        } else {
            None
        }
    }

    /// Whether a point is on a surface.
    pub open spec fn surface_covers(self, key: ClientObjectId, p: (i32, i32)) -> bool {
        let at = self.global_position(key);
        let size = self.surface_size(key);
        at.0 <= p.0 < at.0 + size.0 && at.1 <= p.1 < at.1 + size.1
    }

    /// With the topmost grabbed popup out of the stack.
    pub open spec fn pop_popup(self) -> Self {
        StateView { win: WindowsView { grabbed_popups: self.win.grabbed_popups.drop_last(), ..self.win }, ..self }
    }

    /// With grabbed popups dismissed from the top of the stack until one
    /// contains the pointer. What has no surface any more goes without a word.
    pub open spec fn dismiss_popups(self) -> Self
        decreases self.win.grabbed_popups.len(),
    {
        if self.win.grabbed_popups.len() == 0 {
            self
        } else {
            let popup = self.win.grabbed_popups.last();
            match self.popup_surface(popup) {
                None => self.pop_popup().dismiss_popups(),
                Some(s) => if self.surface_covers(s, self.input.cursor) {
                    self
                } else {
                    self.pop_popup().notice(popup.0, Notice::PopupDone { popup: popup.1 }).dismiss_popups()
                },
            }
        }
    }

    /// Whether dismissing grabbed popups dismisses any.
    pub open spec fn dismisses_popups(self) -> bool
        decreases self.win.grabbed_popups.len(),
    {
        if self.win.grabbed_popups.len() == 0 {
            false
        } else {
            match self.popup_surface(self.win.grabbed_popups.last()) {
                None => self.pop_popup().dismisses_popups(),
                Some(s) => !self.surface_covers(s, self.input.cursor),
            }
        }
    }
}

fn popup_surface(state: &CompositorState, popup: ClientObjectId) -> (r: Option<ClientObjectId>)
    ensures
        r == state@.popup_surface(popup),
{
    match state.win.xdg_popups.get(popup) {
        Some(p) => match state.win.xdg_surfaces.get((popup.0, p.xdg_surface_id)) {
            Some(x) => Some((popup.0, x.wl_surface_id)),
            None => None,
        },
        None => None,
    }
}

fn surface_covers(state: &CompositorState, key: ClientObjectId, p: (i32, i32)) -> (r: bool)
    ensures
        r == state@.surface_covers(key, p),
{
    let at = state.global_position_of(key);
    let size = state.surface_size(key);
    at.0 <= p.0 && at.1 <= p.1 && (p.0 as i64) < at.0 as i64 + size.0 as i64 && (p.1 as i64) < at.1 as i64
        + size.1 as i64
}

/// Check if the pointer is outside the topmost grabbed popup. If so, dismiss
/// popups from the top of the grab stack until one contains the pointer, or
/// the stack is empty. Returns true if any popup was dismissed.
pub fn dismiss_popups_outside_click(state: &mut CompositorState) -> (r: bool)
    ensures
        final(state)@ == old(state)@.dismiss_popups(),
        r == old(state)@.dismisses_popups(),
{
    let mut dismissed: bool = false;
    while state.win.grabbed_popups.len() > 0
        invariant
            state@.dismiss_popups() == old(state)@.dismiss_popups(),
            old(state)@.dismisses_popups() == (dismissed || state@.dismisses_popups()),
        decreases state@.win.grabbed_popups.len(),
    {
        let popup: ClientObjectId = state.win.grabbed_popups[state.win.grabbed_popups.len() - 1];
        match popup_surface(state, popup) {
            Some(s) => {
                if surface_covers(state, s, state.input.cursor) {
                    return dismissed;
                }
                state.win.grabbed_popups.pop();
                state.notice(popup.0, Notice::PopupDone { popup: popup.1 });
                dismissed = true;
            },
            None => {
                state.win.grabbed_popups.pop();
            },
        }
    }
    dismissed
}

} // verus!
