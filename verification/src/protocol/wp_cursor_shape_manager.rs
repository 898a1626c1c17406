//! `wp_cursor_shape_manager_v1` protocol handler.
//!
//! Hands out a cursor shape device for a pointer, which is the object a client
//! names shapes through.
use crate::protocol::{ObjectType, reject_malformed_request, reject_unknown_request};
use crate::protocol::wire_utils::ClientMessage;
use crate::state::compositor_state::{CompositorState, StateView};
use vstd::prelude::*;

verus! {

pub const SHAPE_MANAGER_INTERFACE: &'static str = "wp_cursor_shape_manager_v1";

/// Version 1. Version 2 adds two shapes, and this advertises the version whose
/// shapes it can actually draw.
pub const SHAPE_MANAGER_VERSION: u32 = 1;

impl StateView {
    /// `get_pointer` and `get_tablet_tool_v2`: a new id and the input object it
    /// is for, of which the second is not kept.
    pub open spec fn get_shape_device(self, msg: ClientMessage) -> Self {
        match (msg.word(0), msg.word(1)) {
            (Some(id), Some(_)) => self.register_at(
                msg.client_id,
                id,
                ObjectType::WpCursorShapeDevice,
                self.object_version((msg.client_id, msg.object_id)),
            ),
            _ => self.reject_malformed(msg, SHAPE_MANAGER_INTERFACE@),
        }
    }

    /// Any request on a cursor shape manager.
    pub open spec fn shape_manager_request(self, msg: ClientMessage) -> Self {
        if msg.op_code == 0 {
            self.unregister(msg.client_id, msg.object_id)
        } else if msg.op_code == 1 || msg.op_code == 2 {
            self.get_shape_device(msg)
        } else {
            self.reject_unknown(msg, SHAPE_MANAGER_INTERFACE@)
        }
    }
}

/// Both constructors are the same shape, and neither keeps the second
/// argument: there is one pointer and one cursor. It stays decoded so a short
/// request is still caught as malformed.
fn handle_get_device(state: &mut CompositorState, msg: &ClientMessage)
    ensures
        final(state)@ == old(state)@.get_shape_device(*msg),
{
    match (msg.unsigned(0), msg.unsigned(1)) {
        (Some(id), Some(_)) => {
            let version = state.object_version((msg.client_id, msg.object_id));
            let _ = state.register_at(msg.client_id, id, ObjectType::WpCursorShapeDevice, version);
        },
        _ => {
            reject_malformed_request(state, msg, SHAPE_MANAGER_INTERFACE);
        },
    }
}

pub fn handle(state: &mut CompositorState, msg: &ClientMessage)
    ensures
        final(state)@ == old(state)@.shape_manager_request(*msg),
{
    match msg.op_code {
        0 => state.unregister(msg.client_id, msg.object_id),
        1 => handle_get_device(state, msg),
        2 => handle_get_device(state, msg),
        _ => reject_unknown_request(state, msg, SHAPE_MANAGER_INTERFACE),
    }
}

} // verus!
