//! `zxdg_toplevel_decoration_v1` protocol handler.
//!
//! One object per toplevel. The mode is decided outright by the settings, not
//! negotiated - `set_mode`/`unset_mode` are accepted but do not change the
//! answer, matching the protocol's own allowance for the compositor to enforce
//! whatever mode it prefers.
use crate::protocol::reject_unknown_request;
use crate::protocol::messages::{build_message, event, one_arg};
use crate::protocol::wire_utils::{ArgView, ClientMessage};
use crate::state::compositor_state::{CompositorState, StateView};
use vstd::prelude::*;

verus! {

/// `configure`
pub const DECORATION_CONFIGURE: u16 = 0;

/// The client draws its own decorations.
pub const MODE_CLIENT_SIDE: u32 = 1;

/// The client draws none.
pub const MODE_SERVER_SIDE: u32 = 2;

impl StateView {
    /// The mode in effect: client-side unless the settings say otherwise.
    pub open spec fn decoration_mode(self) -> u32 {
        if self.settings.client_side_decorations {
            MODE_CLIENT_SIDE
        } else {
            MODE_SERVER_SIDE
        }
    }

    /// With a client told which mode is in effect.
    pub open spec fn send_decoration_mode(self, client_id: u32, decoration_id: u32) -> Self {
        self.tell(
            client_id,
            event(decoration_id, DECORATION_CONFIGURE, seq![ArgView::Uint(self.decoration_mode())]),
        )
    }

    /// Any request on a decoration.
    pub open spec fn decoration_request(self, msg: ClientMessage) -> Self {
        if msg.op_code == 0 {
            self.destroy_decoration(msg.client_id, msg.object_id).unregister(msg.client_id, msg.object_id)
        } else if msg.op_code == 1 || msg.op_code == 2 {
            self.send_decoration_mode(msg.client_id, msg.object_id)
        } else {
            self.reject_unknown(msg, "zxdg_toplevel_decoration_v1"@)
        }
    }
}

/// Tell the client which mode is in effect.
///
/// Sent once when the decoration object is created, and again whenever the
/// client asks - never anything but this fixed answer.
pub fn send_configure(state: &mut CompositorState, client_id: u32, decoration_id: u32)
    ensures
        final(state)@ == old(state)@.send_decoration_mode(client_id, decoration_id),
{
    let mode: u32 = if state.settings.client_side_decorations {
        MODE_CLIENT_SIDE
    } else {
        MODE_SERVER_SIDE
    };
    state.tell(client_id, build_message(decoration_id, DECORATION_CONFIGURE, one_arg(mode)));
}

pub fn handle(state: &mut CompositorState, msg: &ClientMessage)
    ensures
        final(state)@ == old(state)@.decoration_request(*msg),
{
    match msg.op_code {
        0 => {
            state.destroy_decoration(msg.client_id, msg.object_id);
            state.unregister(msg.client_id, msg.object_id);
        },
        1 => send_configure(state, msg.client_id, msg.object_id),
        2 => send_configure(state, msg.client_id, msg.object_id),
        _ => reject_unknown_request(state, msg, "zxdg_toplevel_decoration_v1"),
    }
}

} // verus!
