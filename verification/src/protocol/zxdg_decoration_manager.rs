//! `zxdg_decoration_manager_v1` protocol handler.
//!
//! Lets a client ask whether it or the compositor should draw a toplevel's
//! window chrome. This compositor draws none of its own, so there is nothing to
//! negotiate per window.
use crate::protocol::{ObjectType, reject_unknown_request};
use crate::protocol::wire_utils::ClientMessage;
use crate::state::compositor_state::{CompositorState, StateView};
use vstd::prelude::*;
use vstd::string::*;

verus! {

/// `zxdg_toplevel_decoration_v1.error.already_constructed`
pub const ERROR_ALREADY_CONSTRUCTED: u32 = 1;

impl StateView {
    /// `get_toplevel_decoration`: one per toplevel, told its mode at once. The
    /// error is on the object the request would have created.
    pub open spec fn get_decoration(self, msg: ClientMessage) -> Self {
        let c = msg.client_id;
        if !self.clients.has(c) {
            self
        } else {
            match (msg.word(0), msg.word(1)) {
                (Some(id), Some(toplevel)) => if self.win.toplevel_decoration.has((c, toplevel)) {
                    self.fail(c, id, ERROR_ALREADY_CONSTRUCTED, "toplevel already has a decoration object"@)
                } else {
                    let named = self.register(c, id, ObjectType::ZxdgToplevelDecoration);
                    if self.may_register(c, id) {
                        named.create_decoration(c, id, toplevel).send_decoration_mode(c, id)
                    } else {
                        named
                    }
                },
                _ => self.fail(
                    c,
                    msg.object_id,
                    0,
                    "zxdg_decoration_manager_v1.get_toplevel_decoration: malformed args"@,
                ),
            }
        }
    }

    /// Any request on a decoration manager.
    pub open spec fn decoration_manager_request(self, msg: ClientMessage) -> Self {
        if msg.op_code == 0 {
            self.unregister(msg.client_id, msg.object_id)
        } else if msg.op_code == 1 {
            self.get_decoration(msg)
        } else {
            self.reject_unknown(msg, "zxdg_decoration_manager_v1"@)
        }
    }
}

fn handle_get_toplevel_decoration(state: &mut CompositorState, msg: &ClientMessage)
    ensures
        final(state)@ == old(state)@.get_decoration(*msg),
{
    let c: u32 = msg.client_id;
    if state.clients.peek(c).is_none() {
        return;
    }
    match (msg.unsigned(0), msg.unsigned(1)) {
        (Some(id), Some(toplevel)) => {
            if state.win.toplevel_decoration.contains((c, toplevel)) {
                state.fail(
                    c,
                    id,
                    ERROR_ALREADY_CONSTRUCTED,
                    String::from_str("toplevel already has a decoration object"),
                );
                return;
            }
            if state.register(c, id, ObjectType::ZxdgToplevelDecoration) {
                state.create_decoration(c, id, toplevel);
                crate::protocol::zxdg_toplevel_decoration::send_configure(state, c, id);
            }
        },
        _ => {
            state.fail(
                c,
                msg.object_id,
                0,
                String::from_str("zxdg_decoration_manager_v1.get_toplevel_decoration: malformed args"),
            );
        },
    }
}

pub fn handle(state: &mut CompositorState, msg: &ClientMessage)
    ensures
        final(state)@ == old(state)@.decoration_manager_request(*msg),
{
    match msg.op_code {
        0 => state.unregister(msg.client_id, msg.object_id),
        1 => handle_get_toplevel_decoration(state, msg),
        _ => reject_unknown_request(state, msg, "zxdg_decoration_manager_v1"),
    }
}

} // verus!
