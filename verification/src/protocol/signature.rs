//! Every request the compositor advertises, in opcode order, with the
//! arguments it carries.
use crate::protocol::ObjectType;
use vstd::prelude::*;

verus! {

/// Argument Type
#[derive(Debug, Clone, Copy, PartialEq, Eq, Structural)]
pub enum ArgType {
    /// A signed 32-bit integer
    Int,
    /// An unsigned 32-bit integer
    Uint,
    /// 24.8 signed fixed point
    Fixed,
    /// A wayland string - A length, the bytes, a null, and padding to four
    String,
    /// The id of an existing object, or zero for null
    Object,
    /// An id the client is allocating
    NewId,
    /// A length and that many bytes, padded to four
    Array,
    /// A descriptor, sent out of band and occupying no wire bytes
    Fd,
}

/// A wayland request
#[derive(Debug, Clone)]
pub struct Request {
    /// Request's name in the protocol
    pub name: &'static str,
    /// Arguments' types, in the order they appear
    pub args: Vec<ArgType>,
}

/// What a request is called and carries.
#[verifier::ext_equal]
pub struct RequestView {
    pub name: Seq<char>,
    pub args: Seq<ArgType>,
}

impl View for Request {
    type V = RequestView;

    open spec fn view(&self) -> RequestView {
        RequestView { name: self.name@, args: self.args@ }
    }
}

fn request(name: &'static str, args: Vec<ArgType>) -> (r: Request)
    ensures
        r@ == (RequestView { name: name@, args: args@ }),
{
    Request { name, args }
}

/// The requests of an interface, by opcode.
pub open spec fn requests_of(object_type: ObjectType) -> Seq<RequestView> {
    match object_type {
        ObjectType::WlDisplay => seq![
            RequestView { name: "sync"@, args: seq![ArgType::NewId] },
            RequestView { name: "get_registry"@, args: seq![ArgType::NewId] },
        ],
        ObjectType::WlRegistry => seq![
            RequestView { name: "bind"@, args: seq![ArgType::Uint, ArgType::String, ArgType::Uint, ArgType::NewId] },
        ],
        ObjectType::WlCallback => Seq::empty(),
        ObjectType::WlCompositor => seq![
            RequestView { name: "create_surface"@, args: seq![ArgType::NewId] },
            RequestView { name: "create_region"@, args: seq![ArgType::NewId] },
        ],
        ObjectType::WlShm => seq![
            RequestView { name: "create_pool"@, args: seq![ArgType::NewId, ArgType::Fd, ArgType::Int] },
        ],
        ObjectType::WlShmPool => seq![
            RequestView { name: "create_buffer"@, args: seq![ArgType::NewId, ArgType::Int, ArgType::Int, ArgType::Int, ArgType::Int, ArgType::Uint] },
            RequestView { name: "destroy"@, args: Seq::empty() },
            RequestView { name: "resize"@, args: seq![ArgType::Int] },
        ],
        ObjectType::WlBuffer => seq![
            RequestView { name: "destroy"@, args: Seq::empty() },
        ],
        ObjectType::WlSurface => seq![
            RequestView { name: "destroy"@, args: Seq::empty() },
            RequestView { name: "attach"@, args: seq![ArgType::Object, ArgType::Int, ArgType::Int] },
            RequestView { name: "damage"@, args: seq![ArgType::Int, ArgType::Int, ArgType::Int, ArgType::Int] },
            RequestView { name: "frame"@, args: seq![ArgType::NewId] },
            RequestView { name: "set_opaque_region"@, args: seq![ArgType::Object] },
            RequestView { name: "set_input_region"@, args: seq![ArgType::Object] },
            RequestView { name: "commit"@, args: Seq::empty() },
            RequestView { name: "set_buffer_transform"@, args: seq![ArgType::Int] },
            RequestView { name: "set_buffer_scale"@, args: seq![ArgType::Int] },
            RequestView { name: "damage_buffer"@, args: seq![ArgType::Int, ArgType::Int, ArgType::Int, ArgType::Int] },
            RequestView { name: "offset"@, args: seq![ArgType::Int, ArgType::Int] },
        ],
        ObjectType::WlRegion => seq![
            RequestView { name: "destroy"@, args: Seq::empty() },
            RequestView { name: "add"@, args: seq![ArgType::Int, ArgType::Int, ArgType::Int, ArgType::Int] },
            RequestView { name: "subtract"@, args: seq![ArgType::Int, ArgType::Int, ArgType::Int, ArgType::Int] },
        ],
        ObjectType::WlSeat => seq![
            RequestView { name: "get_pointer"@, args: seq![ArgType::NewId] },
            RequestView { name: "get_keyboard"@, args: seq![ArgType::NewId] },
            RequestView { name: "get_touch"@, args: seq![ArgType::NewId] },
            RequestView { name: "release"@, args: Seq::empty() },
        ],
        ObjectType::WlPointer => seq![
            RequestView { name: "set_cursor"@, args: seq![ArgType::Uint, ArgType::Object, ArgType::Int, ArgType::Int] },
            RequestView { name: "release"@, args: Seq::empty() },
        ],
        ObjectType::WlKeyboard => seq![
            RequestView { name: "release"@, args: Seq::empty() },
        ],
        ObjectType::WlTouch => seq![
            RequestView { name: "release"@, args: Seq::empty() },
        ],
        ObjectType::WlOutput => seq![
            RequestView { name: "release"@, args: Seq::empty() },
        ],
        ObjectType::WlSubcompositor => seq![
            RequestView { name: "destroy"@, args: Seq::empty() },
            RequestView { name: "get_subsurface"@, args: seq![ArgType::NewId, ArgType::Object, ArgType::Object] },
        ],
        ObjectType::WlSubsurface => seq![
            RequestView { name: "destroy"@, args: Seq::empty() },
            RequestView { name: "set_position"@, args: seq![ArgType::Int, ArgType::Int] },
            RequestView { name: "place_above"@, args: seq![ArgType::Object] },
            RequestView { name: "place_below"@, args: seq![ArgType::Object] },
            RequestView { name: "set_sync"@, args: Seq::empty() },
            RequestView { name: "set_desync"@, args: Seq::empty() },
        ],
        ObjectType::WlDataDeviceManager => seq![
            RequestView { name: "create_data_source"@, args: seq![ArgType::NewId] },
            RequestView { name: "get_data_device"@, args: seq![ArgType::NewId, ArgType::Object] },
        ],
        ObjectType::WlDataDevice => seq![
            RequestView { name: "start_drag"@, args: seq![ArgType::Object, ArgType::Object, ArgType::Object, ArgType::Uint] },
            RequestView { name: "set_selection"@, args: seq![ArgType::Object, ArgType::Uint] },
            RequestView { name: "release"@, args: Seq::empty() },
        ],
        ObjectType::WlDataSource => seq![
            RequestView { name: "offer"@, args: seq![ArgType::String] },
            RequestView { name: "destroy"@, args: Seq::empty() },
            RequestView { name: "set_actions"@, args: seq![ArgType::Uint] },
        ],
        ObjectType::WlDataOffer => seq![
            RequestView { name: "accept"@, args: seq![ArgType::Uint, ArgType::String] },
            RequestView { name: "receive"@, args: seq![ArgType::String, ArgType::Fd] },
            RequestView { name: "destroy"@, args: Seq::empty() },
            RequestView { name: "finish"@, args: Seq::empty() },
            RequestView { name: "set_actions"@, args: seq![ArgType::Uint, ArgType::Uint] },
        ],
        ObjectType::ZwpPrimarySelectionDeviceManager => seq![
            RequestView { name: "create_source"@, args: seq![ArgType::NewId] },
            RequestView { name: "get_device"@, args: seq![ArgType::NewId, ArgType::Object] },
            RequestView { name: "destroy"@, args: Seq::empty() },
        ],
        ObjectType::ZwpPrimarySelectionDevice => seq![
            RequestView { name: "set_selection"@, args: seq![ArgType::Object, ArgType::Uint] },
            RequestView { name: "destroy"@, args: Seq::empty() },
        ],
        ObjectType::ZwpPrimarySelectionSource => seq![
            RequestView { name: "offer"@, args: seq![ArgType::String] },
            RequestView { name: "destroy"@, args: Seq::empty() },
        ],
        ObjectType::ZwpPrimarySelectionOffer => seq![
            RequestView { name: "receive"@, args: seq![ArgType::String, ArgType::Fd] },
            RequestView { name: "destroy"@, args: Seq::empty() },
        ],
        ObjectType::ZwlrDataControlManager => seq![
            RequestView { name: "create_data_source"@, args: seq![ArgType::NewId] },
            RequestView { name: "get_data_device"@, args: seq![ArgType::NewId, ArgType::Object] },
            RequestView { name: "destroy"@, args: Seq::empty() },
        ],
        ObjectType::ZwlrDataControlDevice => seq![
            RequestView { name: "set_selection"@, args: seq![ArgType::Object] },
            RequestView { name: "destroy"@, args: Seq::empty() },
            RequestView { name: "set_primary_selection"@, args: seq![ArgType::Object] },
        ],
        ObjectType::ZwlrDataControlSource => seq![
            RequestView { name: "offer"@, args: seq![ArgType::String] },
            RequestView { name: "destroy"@, args: Seq::empty() },
        ],
        ObjectType::ZwlrDataControlOffer => seq![
            RequestView { name: "receive"@, args: seq![ArgType::String, ArgType::Fd] },
            RequestView { name: "destroy"@, args: Seq::empty() },
        ],
        ObjectType::WlFixes => seq![
            RequestView { name: "destroy"@, args: Seq::empty() },
            RequestView { name: "destroy_registry"@, args: seq![ArgType::Object] },
        ],
        ObjectType::XdgWmBase => seq![
            RequestView { name: "destroy"@, args: Seq::empty() },
            RequestView { name: "create_positioner"@, args: seq![ArgType::NewId] },
            RequestView { name: "get_xdg_surface"@, args: seq![ArgType::NewId, ArgType::Object] },
            RequestView { name: "pong"@, args: seq![ArgType::Uint] },
        ],
        ObjectType::XdgSurface => seq![
            RequestView { name: "destroy"@, args: Seq::empty() },
            RequestView { name: "get_toplevel"@, args: seq![ArgType::NewId] },
            RequestView { name: "get_popup"@, args: seq![ArgType::NewId, ArgType::Object, ArgType::Object] },
            RequestView { name: "set_window_geometry"@, args: seq![ArgType::Int, ArgType::Int, ArgType::Int, ArgType::Int] },
            RequestView { name: "ack_configure"@, args: seq![ArgType::Uint] },
        ],
        ObjectType::XdgToplevel => seq![
            RequestView { name: "destroy"@, args: Seq::empty() },
            RequestView { name: "set_parent"@, args: seq![ArgType::Object] },
            RequestView { name: "set_title"@, args: seq![ArgType::String] },
            RequestView { name: "set_app_id"@, args: seq![ArgType::String] },
            RequestView { name: "show_window_menu"@, args: seq![ArgType::Object, ArgType::Uint, ArgType::Int, ArgType::Int] },
            RequestView { name: "move"@, args: seq![ArgType::Object, ArgType::Uint] },
            RequestView { name: "resize"@, args: seq![ArgType::Object, ArgType::Uint, ArgType::Uint] },
            RequestView { name: "set_max_size"@, args: seq![ArgType::Int, ArgType::Int] },
            RequestView { name: "set_min_size"@, args: seq![ArgType::Int, ArgType::Int] },
            RequestView { name: "set_maximized"@, args: Seq::empty() },
            RequestView { name: "unset_maximized"@, args: Seq::empty() },
            RequestView { name: "set_fullscreen"@, args: seq![ArgType::Object] },
            RequestView { name: "unset_fullscreen"@, args: Seq::empty() },
            RequestView { name: "set_minimized"@, args: Seq::empty() },
        ],
        ObjectType::XdgPopup => seq![
            RequestView { name: "destroy"@, args: Seq::empty() },
            RequestView { name: "grab"@, args: seq![ArgType::Object, ArgType::Uint] },
            RequestView { name: "reposition"@, args: seq![ArgType::Object, ArgType::Uint] },
        ],
        ObjectType::XdgPositioner => seq![
            RequestView { name: "destroy"@, args: Seq::empty() },
            RequestView { name: "set_size"@, args: seq![ArgType::Int, ArgType::Int] },
            RequestView { name: "set_anchor_rect"@, args: seq![ArgType::Int, ArgType::Int, ArgType::Int, ArgType::Int] },
            RequestView { name: "set_anchor"@, args: seq![ArgType::Uint] },
            RequestView { name: "set_gravity"@, args: seq![ArgType::Uint] },
            RequestView { name: "set_constraint_adjustment"@, args: seq![ArgType::Uint] },
            RequestView { name: "set_offset"@, args: seq![ArgType::Int, ArgType::Int] },
            RequestView { name: "set_reactive"@, args: Seq::empty() },
            RequestView { name: "set_parent_size"@, args: seq![ArgType::Int, ArgType::Int] },
            RequestView { name: "set_parent_configure"@, args: seq![ArgType::Uint] },
        ],
        ObjectType::XdgSystemBell => seq![
            RequestView { name: "destroy"@, args: Seq::empty() },
            RequestView { name: "ring"@, args: seq![ArgType::Object] },
        ],
        ObjectType::WpViewporter => seq![
            RequestView { name: "destroy"@, args: Seq::empty() },
            RequestView { name: "get_viewport"@, args: seq![ArgType::NewId, ArgType::Object] },
        ],
        ObjectType::WpViewport => seq![
            RequestView { name: "destroy"@, args: Seq::empty() },
            RequestView { name: "set_source"@, args: seq![ArgType::Fixed, ArgType::Fixed, ArgType::Fixed, ArgType::Fixed] },
            RequestView { name: "set_destination"@, args: seq![ArgType::Int, ArgType::Int] },
        ],
        ObjectType::WpCursorShapeManager => seq![
            RequestView { name: "destroy"@, args: Seq::empty() },
            RequestView { name: "get_pointer"@, args: seq![ArgType::NewId, ArgType::Object] },
            RequestView { name: "get_tablet_tool_v2"@, args: seq![ArgType::NewId, ArgType::Object] },
        ],
        ObjectType::WpCursorShapeDevice => seq![
            RequestView { name: "destroy"@, args: Seq::empty() },
            RequestView { name: "set_shape"@, args: seq![ArgType::Uint, ArgType::Uint] },
        ],
        ObjectType::WpFractionalScaleManager => seq![
            RequestView { name: "destroy"@, args: Seq::empty() },
            RequestView { name: "get_fractional_scale"@, args: seq![ArgType::NewId, ArgType::Object] },
        ],
        ObjectType::WpFractionalScale => seq![
            RequestView { name: "destroy"@, args: Seq::empty() },
        ],
        ObjectType::WpPresentation => seq![
            RequestView { name: "destroy"@, args: Seq::empty() },
            RequestView { name: "feedback"@, args: seq![ArgType::Object, ArgType::NewId] },
        ],
        ObjectType::WpPresentationFeedback => Seq::empty(),
        ObjectType::ZwpLinuxDmabuf => seq![
            RequestView { name: "destroy"@, args: Seq::empty() },
            RequestView { name: "create_params"@, args: seq![ArgType::NewId] },
        ],
        ObjectType::ZwpLinuxBufferParams => seq![
            RequestView { name: "destroy"@, args: Seq::empty() },
            RequestView { name: "add"@, args: seq![ArgType::Fd, ArgType::Uint, ArgType::Uint, ArgType::Uint, ArgType::Uint, ArgType::Uint] },
            RequestView { name: "create"@, args: seq![ArgType::Int, ArgType::Int, ArgType::Uint, ArgType::Uint] },
            RequestView { name: "create_immed"@, args: seq![ArgType::NewId, ArgType::Int, ArgType::Int, ArgType::Uint, ArgType::Uint] },
        ],
        ObjectType::ZxdgDecorationManager => seq![
            RequestView { name: "destroy"@, args: Seq::empty() },
            RequestView { name: "get_toplevel_decoration"@, args: seq![ArgType::NewId, ArgType::Object] },
        ],
        ObjectType::ZxdgToplevelDecoration => seq![
            RequestView { name: "destroy"@, args: Seq::empty() },
            RequestView { name: "set_mode"@, args: seq![ArgType::Uint] },
            RequestView { name: "unset_mode"@, args: Seq::empty() },
        ],
        ObjectType::ZwlrLayerShell => seq![
            RequestView { name: "get_layer_surface"@, args: seq![ArgType::NewId, ArgType::Object, ArgType::Object, ArgType::Uint, ArgType::String] },
            RequestView { name: "destroy"@, args: Seq::empty() },
        ],
        ObjectType::ZwlrLayerSurface => seq![
            RequestView { name: "set_size"@, args: seq![ArgType::Uint, ArgType::Uint] },
            RequestView { name: "set_anchor"@, args: seq![ArgType::Uint] },
            RequestView { name: "set_exclusive_zone"@, args: seq![ArgType::Int] },
            RequestView { name: "set_margin"@, args: seq![ArgType::Int, ArgType::Int, ArgType::Int, ArgType::Int] },
            RequestView { name: "set_keyboard_interactivity"@, args: seq![ArgType::Uint] },
            RequestView { name: "get_popup"@, args: seq![ArgType::Object] },
            RequestView { name: "ack_configure"@, args: seq![ArgType::Uint] },
            RequestView { name: "destroy"@, args: Seq::empty() },
            RequestView { name: "set_layer"@, args: seq![ArgType::Uint] },
        ],
    }
}

/// The requests of some exec values, as contracts read them.
pub open spec fn requests_view(s: Seq<Request>) -> Seq<RequestView> {
    s.map_values(|r: Request| r@)
}

/// Lookup by `ObjectType`
pub fn requests(object_type: ObjectType) -> (r: Vec<Request>)
    ensures
        requests_view(r@) == requests_of(object_type),
{
    let r = match object_type {
        ObjectType::WlDisplay => vec![
            request("sync", vec![ArgType::NewId]),
            request("get_registry", vec![ArgType::NewId]),
        ],
        ObjectType::WlRegistry => vec![
            request("bind", vec![ArgType::Uint, ArgType::String, ArgType::Uint, ArgType::NewId]),
        ],
        ObjectType::WlCallback => Vec::new(),
        ObjectType::WlCompositor => vec![
            request("create_surface", vec![ArgType::NewId]),
            request("create_region", vec![ArgType::NewId]),
        ],
        ObjectType::WlShm => vec![
            request("create_pool", vec![ArgType::NewId, ArgType::Fd, ArgType::Int]),
        ],
        ObjectType::WlShmPool => vec![
            request("create_buffer", vec![ArgType::NewId, ArgType::Int, ArgType::Int, ArgType::Int, ArgType::Int, ArgType::Uint]),
            request("destroy", vec![]),
            request("resize", vec![ArgType::Int]),
        ],
        ObjectType::WlBuffer => vec![
            request("destroy", vec![]),
        ],
        ObjectType::WlSurface => vec![
            request("destroy", vec![]),
            request("attach", vec![ArgType::Object, ArgType::Int, ArgType::Int]),
            request("damage", vec![ArgType::Int, ArgType::Int, ArgType::Int, ArgType::Int]),
            request("frame", vec![ArgType::NewId]),
            request("set_opaque_region", vec![ArgType::Object]),
            request("set_input_region", vec![ArgType::Object]),
            request("commit", vec![]),
            request("set_buffer_transform", vec![ArgType::Int]),
            request("set_buffer_scale", vec![ArgType::Int]),
            request("damage_buffer", vec![ArgType::Int, ArgType::Int, ArgType::Int, ArgType::Int]),
            request("offset", vec![ArgType::Int, ArgType::Int]),
        ],
        ObjectType::WlRegion => vec![
            request("destroy", vec![]),
            request("add", vec![ArgType::Int, ArgType::Int, ArgType::Int, ArgType::Int]),
            request("subtract", vec![ArgType::Int, ArgType::Int, ArgType::Int, ArgType::Int]),
        ],
        ObjectType::WlSeat => vec![
            request("get_pointer", vec![ArgType::NewId]),
            request("get_keyboard", vec![ArgType::NewId]),
            request("get_touch", vec![ArgType::NewId]),
            request("release", vec![]),
        ],
        ObjectType::WlPointer => vec![
            request("set_cursor", vec![ArgType::Uint, ArgType::Object, ArgType::Int, ArgType::Int]),
            request("release", vec![]),
        ],
        ObjectType::WlKeyboard => vec![
            request("release", vec![]),
        ],
        ObjectType::WlTouch => vec![
            request("release", vec![]),
        ],
        ObjectType::WlOutput => vec![
            request("release", vec![]),
        ],
        ObjectType::WlSubcompositor => vec![
            request("destroy", vec![]),
            request("get_subsurface", vec![ArgType::NewId, ArgType::Object, ArgType::Object]),
        ],
        ObjectType::WlSubsurface => vec![
            request("destroy", vec![]),
            request("set_position", vec![ArgType::Int, ArgType::Int]),
            request("place_above", vec![ArgType::Object]),
            request("place_below", vec![ArgType::Object]),
            request("set_sync", vec![]),
            request("set_desync", vec![]),
        ],
        ObjectType::WlDataDeviceManager => vec![
            request("create_data_source", vec![ArgType::NewId]),
            request("get_data_device", vec![ArgType::NewId, ArgType::Object]),
        ],
        ObjectType::WlDataDevice => vec![
            request("start_drag", vec![ArgType::Object, ArgType::Object, ArgType::Object, ArgType::Uint]),
            request("set_selection", vec![ArgType::Object, ArgType::Uint]),
            request("release", vec![]),
        ],
        ObjectType::WlDataSource => vec![
            request("offer", vec![ArgType::String]),
            request("destroy", vec![]),
            request("set_actions", vec![ArgType::Uint]),
        ],
        ObjectType::WlDataOffer => vec![
            request("accept", vec![ArgType::Uint, ArgType::String]),
            request("receive", vec![ArgType::String, ArgType::Fd]),
            request("destroy", vec![]),
            request("finish", vec![]),
            request("set_actions", vec![ArgType::Uint, ArgType::Uint]),
        ],
        ObjectType::ZwpPrimarySelectionDeviceManager => vec![
            request("create_source", vec![ArgType::NewId]),
            request("get_device", vec![ArgType::NewId, ArgType::Object]),
            request("destroy", vec![]),
        ],
        ObjectType::ZwpPrimarySelectionDevice => vec![
            request("set_selection", vec![ArgType::Object, ArgType::Uint]),
            request("destroy", vec![]),
        ],
        ObjectType::ZwpPrimarySelectionSource => vec![
            request("offer", vec![ArgType::String]),
            request("destroy", vec![]),
        ],
        ObjectType::ZwpPrimarySelectionOffer => vec![
            request("receive", vec![ArgType::String, ArgType::Fd]),
            request("destroy", vec![]),
        ],
        ObjectType::ZwlrDataControlManager => vec![
            request("create_data_source", vec![ArgType::NewId]),
            request("get_data_device", vec![ArgType::NewId, ArgType::Object]),
            request("destroy", vec![]),
        ],
        ObjectType::ZwlrDataControlDevice => vec![
            request("set_selection", vec![ArgType::Object]),
            request("destroy", vec![]),
            request("set_primary_selection", vec![ArgType::Object]),
        ],
        ObjectType::ZwlrDataControlSource => vec![
            request("offer", vec![ArgType::String]),
            request("destroy", vec![]),
        ],
        ObjectType::ZwlrDataControlOffer => vec![
            request("receive", vec![ArgType::String, ArgType::Fd]),
            request("destroy", vec![]),
        ],
        ObjectType::WlFixes => vec![
            request("destroy", vec![]),
            request("destroy_registry", vec![ArgType::Object]),
        ],
        ObjectType::XdgWmBase => vec![
            request("destroy", vec![]),
            request("create_positioner", vec![ArgType::NewId]),
            request("get_xdg_surface", vec![ArgType::NewId, ArgType::Object]),
            request("pong", vec![ArgType::Uint]),
        ],
        ObjectType::XdgSurface => vec![
            request("destroy", vec![]),
            request("get_toplevel", vec![ArgType::NewId]),
            request("get_popup", vec![ArgType::NewId, ArgType::Object, ArgType::Object]),
            request("set_window_geometry", vec![ArgType::Int, ArgType::Int, ArgType::Int, ArgType::Int]),
            request("ack_configure", vec![ArgType::Uint]),
        ],
        ObjectType::XdgToplevel => vec![
            request("destroy", vec![]),
            request("set_parent", vec![ArgType::Object]),
            request("set_title", vec![ArgType::String]),
            request("set_app_id", vec![ArgType::String]),
            request("show_window_menu", vec![ArgType::Object, ArgType::Uint, ArgType::Int, ArgType::Int]),
            request("move", vec![ArgType::Object, ArgType::Uint]),
            request("resize", vec![ArgType::Object, ArgType::Uint, ArgType::Uint]),
            request("set_max_size", vec![ArgType::Int, ArgType::Int]),
            request("set_min_size", vec![ArgType::Int, ArgType::Int]),
            request("set_maximized", vec![]),
            request("unset_maximized", vec![]),
            request("set_fullscreen", vec![ArgType::Object]),
            request("unset_fullscreen", vec![]),
            request("set_minimized", vec![]),
        ],
        ObjectType::XdgPopup => vec![
            request("destroy", vec![]),
            request("grab", vec![ArgType::Object, ArgType::Uint]),
            request("reposition", vec![ArgType::Object, ArgType::Uint]),
        ],
        ObjectType::XdgPositioner => vec![
            request("destroy", vec![]),
            request("set_size", vec![ArgType::Int, ArgType::Int]),
            request("set_anchor_rect", vec![ArgType::Int, ArgType::Int, ArgType::Int, ArgType::Int]),
            request("set_anchor", vec![ArgType::Uint]),
            request("set_gravity", vec![ArgType::Uint]),
            request("set_constraint_adjustment", vec![ArgType::Uint]),
            request("set_offset", vec![ArgType::Int, ArgType::Int]),
            request("set_reactive", vec![]),
            request("set_parent_size", vec![ArgType::Int, ArgType::Int]),
            request("set_parent_configure", vec![ArgType::Uint]),
        ],
        ObjectType::XdgSystemBell => vec![
            request("destroy", vec![]),
            request("ring", vec![ArgType::Object]),
        ],
        ObjectType::WpViewporter => vec![
            request("destroy", vec![]),
            request("get_viewport", vec![ArgType::NewId, ArgType::Object]),
        ],
        ObjectType::WpViewport => vec![
            request("destroy", vec![]),
            request("set_source", vec![ArgType::Fixed, ArgType::Fixed, ArgType::Fixed, ArgType::Fixed]),
            request("set_destination", vec![ArgType::Int, ArgType::Int]),
        ],
        ObjectType::WpCursorShapeManager => vec![
            request("destroy", vec![]),
            request("get_pointer", vec![ArgType::NewId, ArgType::Object]),
            request("get_tablet_tool_v2", vec![ArgType::NewId, ArgType::Object]),
        ],
        ObjectType::WpCursorShapeDevice => vec![
            request("destroy", vec![]),
            request("set_shape", vec![ArgType::Uint, ArgType::Uint]),
        ],
        ObjectType::WpFractionalScaleManager => vec![
            request("destroy", vec![]),
            request("get_fractional_scale", vec![ArgType::NewId, ArgType::Object]),
        ],
        ObjectType::WpFractionalScale => vec![
            request("destroy", vec![]),
        ],
        ObjectType::WpPresentation => vec![
            request("destroy", vec![]),
            request("feedback", vec![ArgType::Object, ArgType::NewId]),
        ],
        ObjectType::WpPresentationFeedback => Vec::new(),
        ObjectType::ZwpLinuxDmabuf => vec![
            request("destroy", vec![]),
            request("create_params", vec![ArgType::NewId]),
        ],
        ObjectType::ZwpLinuxBufferParams => vec![
            request("destroy", vec![]),
            request("add", vec![ArgType::Fd, ArgType::Uint, ArgType::Uint, ArgType::Uint, ArgType::Uint, ArgType::Uint]),
            request("create", vec![ArgType::Int, ArgType::Int, ArgType::Uint, ArgType::Uint]),
            request("create_immed", vec![ArgType::NewId, ArgType::Int, ArgType::Int, ArgType::Uint, ArgType::Uint]),
        ],
        ObjectType::ZxdgDecorationManager => vec![
            request("destroy", vec![]),
            request("get_toplevel_decoration", vec![ArgType::NewId, ArgType::Object]),
        ],
        ObjectType::ZxdgToplevelDecoration => vec![
            request("destroy", vec![]),
            request("set_mode", vec![ArgType::Uint]),
            request("unset_mode", vec![]),
        ],
        ObjectType::ZwlrLayerShell => vec![
            request("get_layer_surface", vec![ArgType::NewId, ArgType::Object, ArgType::Object, ArgType::Uint, ArgType::String]),
            request("destroy", vec![]),
        ],
        ObjectType::ZwlrLayerSurface => vec![
            request("set_size", vec![ArgType::Uint, ArgType::Uint]),
            request("set_anchor", vec![ArgType::Uint]),
            request("set_exclusive_zone", vec![ArgType::Int]),
            request("set_margin", vec![ArgType::Int, ArgType::Int, ArgType::Int, ArgType::Int]),
            request("set_keyboard_interactivity", vec![ArgType::Uint]),
            request("get_popup", vec![ArgType::Object]),
            request("ack_configure", vec![ArgType::Uint]),
            request("destroy", vec![]),
            request("set_layer", vec![ArgType::Uint]),
        ],
    };
    proof {
        assert(requests_view(r@) =~~= requests_of(object_type));
    }
    r
}

/// The request at an opcode of an interface.
pub open spec fn request_spec(object_type: ObjectType, op_code: u16) -> Option<RequestView> {
    if (op_code as int) < requests_of(object_type).len() {
        Some(requests_of(object_type)[op_code as int])
    } else {
        None
    }
}

/// Lookup a specific operation by `ObjectType` and op code
pub fn request_at(object_type: ObjectType, op_code: u16) -> (r: Option<Request>)
    ensures
        match r {
            Some(q) => request_spec(object_type, op_code) == Some(q@),
            None => request_spec(object_type, op_code) is None,
        },
{
    let mut all = requests(object_type);
    proof {
        assert(requests_view(all@).len() == all@.len());
    }
    if (op_code as usize) < all.len() {
        proof {
            assert(requests_view(all@)[op_code as int] == all@[op_code as int]@);
        }
        Some(all.swap_remove(op_code as usize))
    } else {
        None
    }
}

} // verus!
