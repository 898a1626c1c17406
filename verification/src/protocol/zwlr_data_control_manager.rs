//! `zwlr_data_control_manager_v1` protocol handler.
//!
//! The manager global a clipboard manager binds: it makes the sources such a
//! client sets a selection with, and the devices it is told about every
//! selection on.
use crate::protocol::{ObjectType, reject_unknown_request};
use crate::protocol::wire_utils::ClientMessage;
use crate::protocol::zwlr_data_control_device::send_current_selections;
use crate::state::compositor_state::{CompositorState, ExchangeView, StateView};
use crate::state::types::{
    ClientObjectId, DataControlDeviceBinding, DataInterface, DataSource, DataSourceView,
};
use vstd::prelude::*;
use vstd::string::*;

verus! {

pub const CONTROL_MANAGER_INTERFACE: &'static str = "zwlr_data_control_manager_v1";

/// Version 2, which adds the primary selection half of the device interface.
pub const CONTROL_MANAGER_VERSION: u32 = 2;

impl StateView {
    /// With a new source.
    pub open spec fn put_source(self, key: ClientObjectId, interface: DataInterface) -> Self {
        StateView {
            data: ExchangeView {
                data_sources: self.data.data_sources.put(key, DataSourceView::fresh(interface)),
                ..self.data
            },
            ..self
        }
    }

    /// `create_data_source`
    pub open spec fn control_create_source(self, msg: ClientMessage) -> Self {
        let c = msg.client_id;
        if !self.clients.has(c) {
            self
        } else {
            match msg.word(0) {
                None => self.fail(
                    c,
                    msg.object_id,
                    0,
                    "zwlr_data_control_manager_v1.create_data_source: malformed args"@,
                ),
                Some(id) => {
                    let named = self.register_at(
                        c,
                        id,
                        ObjectType::ZwlrDataControlSource,
                        self.object_version((c, msg.object_id)),
                    );
                    if self.may_register(c, id) {
                        named.put_source((c, id), DataInterface::DataControl)
                    } else {
                        named
                    }
                },
            }
        }
    }

    /// With a new data-control device.
    pub open spec fn push_control_device(self, client_id: u32, object_id: u32) -> Self {
        StateView {
            data: ExchangeView {
                data_control_devices: self.data.data_control_devices.push(
                    DataControlDeviceBinding { client_id, object_id },
                ),
                ..self.data
            },
            ..self
        }
    }

    /// `get_data_device`: the device has the manager's version, and is told
    /// both selections at once.
    pub open spec fn control_get_device(self, msg: ClientMessage) -> Self {
        let c = msg.client_id;
        if !self.clients.has(c) {
            self
        } else {
            match (msg.word(0), msg.word(1)) {
                (Some(id), Some(_)) => {
                    let named = self.register_at(
                        c,
                        id,
                        ObjectType::ZwlrDataControlDevice,
                        self.object_version((c, msg.object_id)),
                    );
                    if self.may_register(c, id) {
                        named.push_control_device(c, id).control_current(c, id)
                    } else {
                        named
                    }
                },
                _ => self.fail(
                    c,
                    msg.object_id,
                    0,
                    "zwlr_data_control_manager_v1.get_data_device: malformed args"@,
                ),
            }
        }
    }

    /// Any request on a data-control manager. What it made outlives it.
    pub open spec fn control_manager_request(self, msg: ClientMessage) -> Self {
        if msg.op_code == 0 {
            self.control_create_source(msg)
        } else if msg.op_code == 1 {
            self.control_get_device(msg)
        } else if msg.op_code == 2 {
            self.unregister(msg.client_id, msg.object_id)
        } else {
            self.reject_unknown(msg, CONTROL_MANAGER_INTERFACE@)
        }
    }
}

fn handle_create_data_source(state: &mut CompositorState, msg: &ClientMessage)
    ensures
        final(state)@ == old(state)@.control_create_source(*msg),
{
    let c: u32 = msg.client_id;
    if state.clients.peek(c).is_none() {
        return;
    }
    match msg.unsigned(0) {
        None => {
            state.fail(
                c,
                msg.object_id,
                0,
                String::from_str("zwlr_data_control_manager_v1.create_data_source: malformed args"),
            );
        },
        Some(id) => {
            let version = state.object_version((c, msg.object_id));
            if state.register_at(c, id, ObjectType::ZwlrDataControlSource, version) {
                state.data.data_sources.insert((c, id), DataSource::new(DataInterface::DataControl));
            }
        },
    }
}

fn handle_get_data_device(state: &mut CompositorState, msg: &ClientMessage)
    ensures
        final(state)@ == old(state)@.control_get_device(*msg),
{
    let c: u32 = msg.client_id;
    if state.clients.peek(c).is_none() {
        return;
    }
    match (msg.unsigned(0), msg.unsigned(1)) {
        (Some(id), Some(_)) => {
            let version = state.object_version((c, msg.object_id));
            if state.register_at(c, id, ObjectType::ZwlrDataControlDevice, version) {
                state.data.data_control_devices.push(DataControlDeviceBinding { client_id: c, object_id: id });
                send_current_selections(state, c, id);
            }
        },
        _ => {
            state.fail(
                c,
                msg.object_id,
                0,
                String::from_str("zwlr_data_control_manager_v1.get_data_device: malformed args"),
            );
        },
    }
}

pub fn handle(state: &mut CompositorState, msg: &ClientMessage)
    ensures
        final(state)@ == old(state)@.control_manager_request(*msg),
{
    match msg.op_code {
        0 => handle_create_data_source(state, msg),
        1 => handle_get_data_device(state, msg),
        2 => state.unregister(msg.client_id, msg.object_id),
        _ => reject_unknown_request(state, msg, CONTROL_MANAGER_INTERFACE),
    }
}

} // verus!
