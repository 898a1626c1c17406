//! `zwp_primary_selection_device_manager_v1` protocol handler.
//!
//! The manager global for the middle-click clipboard: it makes the sources a
//! client offers a selection with, and the devices it is told about one on.
use crate::protocol::{ObjectType, reject_unknown_request};
use crate::protocol::wire_utils::ClientMessage;
use crate::protocol::zwp_primary_selection_device::send_selection_to_device;
use crate::state::compositor_state::{CompositorState, ExchangeView, StateView};
use crate::state::types::{DataInterface, DataSource, PrimaryDeviceBinding};
use vstd::prelude::*;
use vstd::string::*;

verus! {

pub const PRIMARY_MANAGER_INTERFACE: &'static str = "zwp_primary_selection_device_manager_v1";

/// Version 1, which is every version this protocol has.
pub const PRIMARY_MANAGER_VERSION: u32 = 1;

impl StateView {
    /// `create_source`
    pub open spec fn primary_create_source(self, msg: ClientMessage) -> Self {
        let c = msg.client_id;
        if !self.clients.has(c) {
            self
        } else {
            match msg.word(0) {
                None => self.fail(
                    c,
                    msg.object_id,
                    0,
                    "zwp_primary_selection_device_manager_v1.create_source: malformed args"@,
                ),
                Some(id) => {
                    let named = self.register(c, id, ObjectType::ZwpPrimarySelectionSource);
                    if self.may_register(c, id) {
                        named.put_source((c, id), DataInterface::PrimarySelection)
                    } else {
                        named
                    }
                },
            }
        }
    }

    /// With a new primary selection device.
    pub open spec fn push_primary_device(self, client_id: u32, object_id: u32) -> Self {
        StateView {
            data: ExchangeView {
                primary_devices: self.data.primary_devices.push(PrimaryDeviceBinding { client_id, object_id }),
                ..self.data
            },
            ..self
        }
    }

    /// Whether a client has focus.
    pub open spec fn has_focus(self, client_id: u32) -> bool {
        match self.input.focused_surface {
            Some(s) => s.0 == client_id,
            None => false,
        }
    }

    /// `get_device`: a client that has focus is told the selection at once.
    pub open spec fn primary_get_device(self, msg: ClientMessage) -> Self {
        let c = msg.client_id;
        if !self.clients.has(c) {
            self
        } else {
            match (msg.word(0), msg.word(1)) {
                (Some(id), Some(_)) => {
                    let named = self.register(c, id, ObjectType::ZwpPrimarySelectionDevice);
                    if !self.may_register(c, id) {
                        named
                    } else if self.has_focus(c) {
                        named.push_primary_device(c, id).primary_to_device(c, id)
                    } else {
                        named.push_primary_device(c, id)
                    }
                },
                _ => self.fail(
                    c,
                    msg.object_id,
                    0,
                    "zwp_primary_selection_device_manager_v1.get_device: malformed args"@,
                ),
            }
        }
    }

    /// Any request on a primary selection manager. What it made outlives it.
    pub open spec fn primary_manager_request(self, msg: ClientMessage) -> Self {
        if msg.op_code == 0 {
            self.primary_create_source(msg)
        } else if msg.op_code == 1 {
            self.primary_get_device(msg)
        } else if msg.op_code == 2 {
            self.unregister(msg.client_id, msg.object_id)
        } else {
            self.reject_unknown(msg, PRIMARY_MANAGER_INTERFACE@)
        }
    }
}

fn handle_create_source(state: &mut CompositorState, msg: &ClientMessage)
    ensures
        final(state)@ == old(state)@.primary_create_source(*msg),
{
    let c: u32 = msg.client_id;
    if state.clients.peek(c).is_none() {
        return;
    }
    match msg.unsigned(0) {
        None => {
            state.fail(
                c,
                msg.object_id,
                0,
                String::from_str("zwp_primary_selection_device_manager_v1.create_source: malformed args"),
            );
        },
        Some(id) => {
            if state.register(c, id, ObjectType::ZwpPrimarySelectionSource) {
                state.data.data_sources.insert((c, id), DataSource::new(DataInterface::PrimarySelection));
            }
        },
    }
}

/// Make a device.
///
/// A client binds this well after its first window is focused, and the
/// selection is otherwise only sent on a focus change - so without telling it
/// here a client that never loses and regains focus would find the
/// middle-click clipboard empty for the rest of its life.
fn handle_get_device(state: &mut CompositorState, msg: &ClientMessage)
    ensures
        final(state)@ == old(state)@.primary_get_device(*msg),
{
    let c: u32 = msg.client_id;
    if state.clients.peek(c).is_none() {
        return;
    }
    match (msg.unsigned(0), msg.unsigned(1)) {
        (Some(id), Some(_)) => {
            let focused: bool = match state.input.focused_surface {
                Some(s) => s.0 == c,
                None => false,
            };
            if state.register(c, id, ObjectType::ZwpPrimarySelectionDevice) {
                state.data.primary_devices.push(PrimaryDeviceBinding { client_id: c, object_id: id });
                if focused {
                    send_selection_to_device(state, c, id);
                }
            }
        },
        _ => {
            state.fail(
                c,
                msg.object_id,
                0,
                String::from_str("zwp_primary_selection_device_manager_v1.get_device: malformed args"),
            );
        },
    }
}

pub fn handle(state: &mut CompositorState, msg: &ClientMessage)
    ensures
        final(state)@ == old(state)@.primary_manager_request(*msg),
{
    match msg.op_code {
        0 => handle_create_source(state, msg),
        1 => handle_get_device(state, msg),
        2 => state.unregister(msg.client_id, msg.object_id),
        _ => reject_unknown_request(state, msg, PRIMARY_MANAGER_INTERFACE),
    }
}

} // verus!
