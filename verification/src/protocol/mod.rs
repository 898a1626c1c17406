//! The protocol: what objects there are, what a client may ask of them, and
//! what is done about it.
use crate::protocol::signature::{request_at, request_spec};
use crate::protocol::wire_utils::ClientMessage;
use crate::state::client_state::ClientView;
use crate::state::compositor_state::{CompositorState, StateView};
use crate::text::{decimal, decimal_text};
use vstd::prelude::*;
use vstd::string::*;

pub mod data_common;
pub mod dispatch;
pub mod messages;
pub mod signature;
pub mod wire_utils;
pub mod wl_callback;
pub mod wl_output;
pub mod wl_registry;
pub mod wl_shm_pool;
pub mod wl_subcompositor;
pub mod wl_subsurface;
pub mod wl_surface;
pub mod wp_cursor_shape_device;
pub mod wp_cursor_shape_manager;
pub mod wp_fractional_scale;
pub mod wp_fractional_scale_manager;
pub mod wp_presentation_feedback;
pub mod xdg_surface;
pub mod zwlr_data_control_device;
pub mod zwlr_data_control_manager;
pub mod zwlr_data_control_offer;
pub mod zwlr_data_control_source;
pub mod zwlr_layer_shell;
pub mod zwlr_layer_surface;
pub mod zwp_primary_selection_device;
pub mod zwp_primary_selection_device_manager;
pub mod zwp_primary_selection_offer;
pub mod zwp_primary_selection_source;
pub mod zxdg_decoration_manager;
pub mod zxdg_toplevel_decoration;

verus! {

/// `wl_display.error` - The object named does not exist, or the client is not allowed to name it.
pub const ERROR_INVALID_OBJECT: u32 = 0;

/// `wl_display.error` - The object exists, but the request named is not one of its own.
pub const ERROR_INVALID_METHOD: u32 = 1;

/// The type of a Wayland protocol object.
#[derive(Debug, Clone, Copy, PartialEq, Eq, Structural)]
pub enum ObjectType {
    WlDisplay,
    WlRegistry,
    WlFixes,
    WlCallback,
    WlShm,
    WlShmPool,
    WlBuffer,
    WlCompositor,
    WlSurface,
    WlRegion,
    WlSeat,
    WlPointer,
    WlKeyboard,
    WlTouch,
    WlOutput,
    WlSubcompositor,
    WlSubsurface,
    WlDataDeviceManager,
    WlDataDevice,
    WlDataSource,
    WlDataOffer,
    XdgWmBase,
    XdgSurface,
    XdgSystemBell,
    XdgToplevel,
    XdgPopup,
    XdgPositioner,
    WpPresentation,
    WpPresentationFeedback,
    WpViewporter,
    WpViewport,
    WpFractionalScaleManager,
    WpFractionalScale,
    WpCursorShapeManager,
    WpCursorShapeDevice,
    ZxdgDecorationManager,
    ZxdgToplevelDecoration,
    ZwpLinuxDmabuf,
    ZwpLinuxBufferParams,
    ZwpPrimarySelectionDeviceManager,
    ZwpPrimarySelectionDevice,
    ZwpPrimarySelectionSource,
    ZwpPrimarySelectionOffer,
    ZwlrDataControlManager,
    ZwlrDataControlDevice,
    ZwlrDataControlSource,
    ZwlrDataControlOffer,
    ZwlrLayerShell,
    ZwlrLayerSurface,
}

impl View for ObjectType {
    type V = ObjectType;

    open spec fn view(&self) -> ObjectType {
        *self
    }
}

/// Hand out the next serial. Every event that carries one takes it from here.
pub fn next_serial(state: &mut CompositorState) -> (r: u32)
    ensures
        r == old(state)@.next_serial,
        final(state)@ == old(state)@.serial_taken(),
{
    state.take_serial()
}

impl StateView {
    /// Whether a client is connected and may give an object this id.
    pub open spec fn may_register(self, client_id: u32, id: u32) -> bool {
        self.clients.has(client_id) && self.clients.at(client_id).may_name(id)
    }

    /// After a client has named an object.
    pub open spec fn register(self, client_id: u32, id: u32, object_type: ObjectType) -> Self {
        StateView { clients: self.clients.edit(client_id, |c: ClientView| c.registered(id, object_type)), ..self }
    }

    /// After a client has named an object with a version.
    pub open spec fn register_at(self, client_id: u32, id: u32, object_type: ObjectType, version: u32) -> Self {
        StateView {
            clients: self.clients.edit(client_id, |c: ClientView| c.registered_at(id, object_type, version)),
            ..self
        }
    }

    /// After a request whose opcode the interface does not have.
    pub open spec fn reject_unknown(self, msg: ClientMessage, interface: Seq<char>) -> Self {
        self.fail(
            msg.client_id,
            msg.object_id,
            ERROR_INVALID_METHOD,
            interface + " has no request "@ + decimal(msg.op_code as int),
        )
    }

    /// The type of a client's object, if it has such an object.
    pub open spec fn type_of(self, client_id: u32, object_id: u32) -> Option<ObjectType> {
        if self.clients.has(client_id) && self.clients.at(client_id).objects.has(object_id) {
            Some(self.clients.at(client_id).objects.at(object_id))
        } else {
            None
        }
    }

    /// What a request is called: by its name if it has one, by its opcode if
    /// it has none.
    pub open spec fn request_named(self, msg: ClientMessage, interface: Seq<char>) -> Seq<char> {
        match self.type_of(msg.client_id, msg.object_id) {
            Some(t) => match request_spec(t, msg.op_code) {
                Some(q) => interface + "."@ + q.name,
                None => interface + " request "@ + decimal(msg.op_code as int),
            },
            None => interface + " request "@ + decimal(msg.op_code as int),
        }
    }

    /// After a request whose arguments do not decode.
    pub open spec fn reject_malformed(self, msg: ClientMessage, interface: Seq<char>) -> Self {
        self.fail(
            msg.client_id,
            msg.object_id,
            ERROR_INVALID_METHOD,
            "malformed arguments for "@ + self.request_named(msg, interface),
        )
    }
}

impl CompositorState {
    /// Register an object a client has named, if the client may name it so.
    pub fn register(&mut self, client_id: u32, id: u32, object_type: ObjectType) -> (r: bool)
        ensures
            r == old(self)@.may_register(client_id, id),
            final(self)@ == old(self)@.register(client_id, id, object_type),
    {
        match self.clients.get(client_id) {
            Some(client) => client.register_client_object(id, object_type).is_ok(),
            None => false,
        }
    }

    /// Register an object a client has named, with a version.
    pub fn register_at(&mut self, client_id: u32, id: u32, object_type: ObjectType, version: u32) -> (r: bool)
        ensures
            r == old(self)@.may_register(client_id, id),
            final(self)@ == old(self)@.register_at(client_id, id, object_type, version),
    {
        match self.clients.get(client_id) {
            Some(client) => client.register_client_object_with_version(id, object_type, version).is_ok(),
            None => false,
        }
    }

    /// The type of a client's object, if it has such an object.
    pub fn type_of(&self, client_id: u32, object_id: u32) -> (r: Option<ObjectType>)
        ensures
            r == self@.type_of(client_id, object_id),
    {
        match self.clients.peek(client_id) {
            Some(client) => match client.objects.get(object_id) {
                Some(t) => Some(*t),
                None => None,
            },
            None => None,
        }
    }
}

/// Reject a request whose opcode the interface does not have.
pub fn reject_unknown_request(state: &mut CompositorState, msg: &ClientMessage, interface: &str)
    ensures
        final(state)@ == old(state)@.reject_unknown(*msg, interface@),
{
    let mut text = String::from_str(interface);
    text.append(" has no request ");
    let n = decimal_text(msg.op_code as i64);
    text.append(n.as_str());
    state.fail(msg.client_id, msg.object_id, ERROR_INVALID_METHOD, text);
}

fn request_name(state: &CompositorState, msg: &ClientMessage, interface: &str) -> (r: String)
    ensures
        r@ == state@.request_named(*msg, interface@),
{
    let mut text = String::from_str(interface);
    if let Some(t) = state.type_of(msg.client_id, msg.object_id) {
        if let Some(q) = request_at(t, msg.op_code) {
            text.append(".");
            text.append(q.name);
            return text;
        }
    }
    text.append(" request ");
    let n = decimal_text(msg.op_code as i64);
    text.append(n.as_str());
    text
}

/// Reject a request whose arguments do not decode.
pub fn reject_malformed_request(state: &mut CompositorState, msg: &ClientMessage, interface: &str)
    ensures
        final(state)@ == old(state)@.reject_malformed(*msg, interface@),
{
    let mut text = String::from_str("malformed arguments for ");
    let named = request_name(state, msg, interface);
    text.append(named.as_str());
    state.fail(msg.client_id, msg.object_id, ERROR_INVALID_METHOD, text);
}

} // verus!
