//! `wl_registry` protocol handler.
//!
//! Advertises available globals to clients and handles bind requests,
//! which create new protocol objects for specific interfaces.
use crate::protocol::{ERROR_INVALID_OBJECT, ObjectType, reject_unknown_request};
use crate::protocol::messages::{
    build_message, event, Message, messages_view, MessageView, Notice, one_arg,
};
use crate::protocol::wire_utils::{Arg, args_view, ArgView, ClientMessage, string_at, word_at};
use crate::protocol::wl_output::{push_message, send_output_info};
use crate::protocol::wp_cursor_shape_manager::{SHAPE_MANAGER_INTERFACE, SHAPE_MANAGER_VERSION};
use crate::protocol::wp_fractional_scale_manager::{
    FRACTIONAL_MANAGER_INTERFACE, FRACTIONAL_MANAGER_VERSION,
};
use crate::protocol::zwlr_data_control_manager::{
    CONTROL_MANAGER_INTERFACE, CONTROL_MANAGER_VERSION,
};
use crate::protocol::zwlr_layer_shell::{LAYER_SHELL_INTERFACE, LAYER_SHELL_VERSION};
use crate::protocol::zwp_primary_selection_device_manager::{
    PRIMARY_MANAGER_INTERFACE, PRIMARY_MANAGER_VERSION,
};
use crate::state::client_state::{ClientState, ClientView};
use crate::state::compositor_state::{CompositorState, DisplaysView, StateView, STATIC_GLOBALS};
use crate::state::types::{ClientObjectId, OutputId};
use crate::table::{Dict, Table};
use crate::text::{decimal, decimal_text, same_text, with_number};
use vstd::prelude::*;
use vstd::string::*;

verus! {

/// `global`
pub const REGISTRY_GLOBAL: u16 = 0;

/// `global_remove`
pub const REGISTRY_GLOBAL_REMOVE: u16 = 1;

/// The `wl_output` version we support. These are globals, but there's one per monitor.
pub const WL_OUTPUT_VERSION: u32 = 4;

/// The interface name those dynamic globals are advertised under.
pub const WL_OUTPUT_INTERFACE: &'static str = "wl_output";

/// The interface dma-buf is advertised under, once the backend has answered.
pub const DMABUF_INTERFACE: &'static str = "zwp_linux_dmabuf_v1";

/// The version of it.
pub const DMABUF_VERSION: u32 = 3;

/// A global interface that clients can bind via `wl_registry`.
#[derive(Debug, Clone, Copy)]
pub struct Global {
    pub interface: &'static str,
    pub version: u32,
}

/// What a global is.
#[verifier::ext_equal]
pub struct GlobalView {
    pub interface: Seq<char>,
    pub version: u32,
}

impl View for Global {
    type V = GlobalView;

    open spec fn view(&self) -> GlobalView {
        GlobalView { interface: self.interface@, version: self.version }
    }
}

/// Static globals provided by the compositor, by the name they have.
pub open spec fn static_global(name: u32) -> Option<GlobalView> {
    match name {
        0 => Some(GlobalView { interface: "wl_compositor"@, version: 5 }),
        1 => Some(GlobalView { interface: "wl_subcompositor"@, version: 1 }),
        2 => Some(GlobalView { interface: "wl_data_device_manager"@, version: 3 }),
        3 => Some(GlobalView { interface: PRIMARY_MANAGER_INTERFACE@, version: PRIMARY_MANAGER_VERSION }),
        4 => Some(GlobalView { interface: CONTROL_MANAGER_INTERFACE@, version: CONTROL_MANAGER_VERSION }),
        5 => Some(GlobalView { interface: "wl_shm"@, version: 1 }),
        6 => Some(GlobalView { interface: "wl_seat"@, version: 8 }),
        7 => Some(GlobalView { interface: "xdg_wm_base"@, version: 5 }),
        8 => Some(GlobalView { interface: "xdg_system_bell_v1"@, version: 1 }),
        9 => Some(GlobalView { interface: "wp_viewporter"@, version: 1 }),
        10 => Some(GlobalView { interface: "wp_presentation"@, version: 1 }),
        11 => Some(GlobalView { interface: FRACTIONAL_MANAGER_INTERFACE@, version: FRACTIONAL_MANAGER_VERSION }),
        12 => Some(GlobalView { interface: SHAPE_MANAGER_INTERFACE@, version: SHAPE_MANAGER_VERSION }),
        13 => Some(GlobalView { interface: "wl_fixes"@, version: 1 }),
        14 => Some(GlobalView { interface: "zxdg_decoration_manager_v1"@, version: 1 }),
        15 => Some(GlobalView { interface: LAYER_SHELL_INTERFACE@, version: LAYER_SHELL_VERSION }),
        _ => None,
    }
}

/// The static global that has a name.
pub fn global_at(name: u32) -> (r: Option<Global>)
    ensures
        match r {
            Some(g) => static_global(name) == Some(g@),
            None => static_global(name) is None,
        },
        r is Some <==> name < STATIC_GLOBALS,
{
    match name {
        0 => Some(Global { interface: "wl_compositor", version: 5 }),
        1 => Some(Global { interface: "wl_subcompositor", version: 1 }),
        2 => Some(Global { interface: "wl_data_device_manager", version: 3 }),
        3 => Some(Global { interface: PRIMARY_MANAGER_INTERFACE, version: PRIMARY_MANAGER_VERSION }),
        4 => Some(Global { interface: CONTROL_MANAGER_INTERFACE, version: CONTROL_MANAGER_VERSION }),
        5 => Some(Global { interface: "wl_shm", version: 1 }),
        6 => Some(Global { interface: "wl_seat", version: 8 }),
        7 => Some(Global { interface: "xdg_wm_base", version: 5 }),
        8 => Some(Global { interface: "xdg_system_bell_v1", version: 1 }),
        9 => Some(Global { interface: "wp_viewporter", version: 1 }),
        10 => Some(Global { interface: "wp_presentation", version: 1 }),
        11 => Some(Global { interface: FRACTIONAL_MANAGER_INTERFACE, version: FRACTIONAL_MANAGER_VERSION }),
        12 => Some(Global { interface: SHAPE_MANAGER_INTERFACE, version: SHAPE_MANAGER_VERSION }),
        13 => Some(Global { interface: "wl_fixes", version: 1 }),
        14 => Some(Global { interface: "zxdg_decoration_manager_v1", version: 1 }),
        15 => Some(Global { interface: LAYER_SHELL_INTERFACE, version: LAYER_SHELL_VERSION }),
        _ => None,
    }
}

/// The object a static global's interface name creates when bound.
pub open spec fn object_for(interface: Seq<char>) -> Option<ObjectType> {
    if interface == "wl_shm"@ {
        Some(ObjectType::WlShm)
    } else if interface == "wl_compositor"@ {
        Some(ObjectType::WlCompositor)
    } else if interface == "wl_subcompositor"@ {
        Some(ObjectType::WlSubcompositor)
    } else if interface == "wl_data_device_manager"@ {
        Some(ObjectType::WlDataDeviceManager)
    } else if interface == PRIMARY_MANAGER_INTERFACE@ {
        Some(ObjectType::ZwpPrimarySelectionDeviceManager)
    } else if interface == CONTROL_MANAGER_INTERFACE@ {
        Some(ObjectType::ZwlrDataControlManager)
    } else if interface == "xdg_wm_base"@ {
        Some(ObjectType::XdgWmBase)
    } else if interface == "xdg_system_bell_v1"@ {
        Some(ObjectType::XdgSystemBell)
    } else if interface == "wl_seat"@ {
        Some(ObjectType::WlSeat)
    } else if interface == "wp_viewporter"@ {
        Some(ObjectType::WpViewporter)
    } else if interface == "wp_presentation"@ {
        Some(ObjectType::WpPresentation)
    } else if interface == FRACTIONAL_MANAGER_INTERFACE@ {
        Some(ObjectType::WpFractionalScaleManager)
    } else if interface == SHAPE_MANAGER_INTERFACE@ {
        Some(ObjectType::WpCursorShapeManager)
    } else if interface == "wl_fixes"@ {
        Some(ObjectType::WlFixes)
    } else if interface == "zxdg_decoration_manager_v1"@ {
        Some(ObjectType::ZxdgDecorationManager)
    } else if interface == LAYER_SHELL_INTERFACE@ {
        Some(ObjectType::ZwlrLayerShell)
    } else {
        None
    }
}

/// The object a static global's interface name creates when bound.
///
/// `None` for an interface with no handler behind it.
pub fn static_object_type(interface: &str) -> (r: Option<ObjectType>)
    ensures
        r == object_for(interface@),
{
    if same_text(interface, "wl_shm") {
        return Some(ObjectType::WlShm);
    }
    if same_text(interface, "wl_compositor") {
        return Some(ObjectType::WlCompositor);
    }
    if same_text(interface, "wl_subcompositor") {
        return Some(ObjectType::WlSubcompositor);
    }
    if same_text(interface, "wl_data_device_manager") {
        return Some(ObjectType::WlDataDeviceManager);
    }
    if same_text(interface, PRIMARY_MANAGER_INTERFACE) {
        return Some(ObjectType::ZwpPrimarySelectionDeviceManager);
    }
    if same_text(interface, CONTROL_MANAGER_INTERFACE) {
        return Some(ObjectType::ZwlrDataControlManager);
    }
    if same_text(interface, "xdg_wm_base") {
        return Some(ObjectType::XdgWmBase);
    }
    if same_text(interface, "xdg_system_bell_v1") {
        return Some(ObjectType::XdgSystemBell);
    }
    if same_text(interface, "wl_seat") {
        return Some(ObjectType::WlSeat);
    }
    if same_text(interface, "wp_viewporter") {
        return Some(ObjectType::WpViewporter);
    }
    if same_text(interface, "wp_presentation") {
        return Some(ObjectType::WpPresentation);
    }
    if same_text(interface, FRACTIONAL_MANAGER_INTERFACE) {
        return Some(ObjectType::WpFractionalScaleManager);
    }
    if same_text(interface, SHAPE_MANAGER_INTERFACE) {
        return Some(ObjectType::WpCursorShapeManager);
    }
    if same_text(interface, "wl_fixes") {
        return Some(ObjectType::WlFixes);
    }
    if same_text(interface, "zxdg_decoration_manager_v1") {
        return Some(ObjectType::ZxdgDecorationManager);
    }
    if same_text(interface, LAYER_SHELL_INTERFACE) {
        return Some(ObjectType::ZwlrLayerShell);
    }
    None
}

/// An output that was advertised under a name.
pub open spec fn named(name: u32) -> spec_fn(u32, u32) -> bool {
    |id: u32, n: u32| n == name
}

/// The interface a registry name was advertised under, or `None` if nothing
/// was advertised under it at all.
pub open spec fn advertised(name: u32, dmabuf: Option<u32>, outputs: Dict<u32, u32>) -> Option<Seq<char>> {
    match static_global(name) {
        Some(g) => Some(g.interface),
        None => if dmabuf == Some(name) {
            Some(DMABUF_INTERFACE@)
        } else if outputs.any(named(name)) {
            Some(WL_OUTPUT_INTERFACE@)
        } else {
            None
        },
    }
}

/// The interface a registry name was advertised under, or `None` if nothing
/// was advertised under it at all.
///
/// Globals come from three places - the static table, dma-buf once the backend
/// has answered, and one per output - and a name means whatever the place it
/// came from says it means.
pub fn advertised_interface(name: u32, dmabuf: Option<u32>, outputs: &Table<u32, u32>) -> (r: Option<&'static str>)
    ensures
        match r {
            Some(s) => advertised(name, dmabuf, outputs@) == Some(s@),
            None => advertised(name, dmabuf, outputs@) is None,
        },
{
    if let Some(g) = global_at(name) {
        return Some(g.interface);
    }
    if dmabuf == Some(name) {
        return Some(DMABUF_INTERFACE);
    }
    let is_output = outputs.any(
        |id: &u32, n: &u32| -> (r: bool) ensures r == named(name)(*id, n@) { *n == name },
        Ghost(named(name)),
    );
    if is_output {
        Some(WL_OUTPUT_INTERFACE)
    } else {
        None
    }
}

/// The smaller of two versions.
pub open spec fn lower(a: u32, b: u32) -> u32 {
    if a < b {
        a
    } else {
        b
    }
}

/// The arguments of a `bind`: a name, an interface, a version and a new id.
pub open spec fn bind_args(msg: ClientMessage) -> Option<(u32, Seq<char>, u32, u32)> {
    match (msg.word(0), string_at(msg.args@, 4)) {
        (Some(name), Some((interface, end))) => match (word_at(msg.args@, end), word_at(msg.args@, end + 4)) {
            (Some(version), Some(id)) => Some((name, interface, version, id)),
            _ => None,
        },
        _ => None,
    }
}

/// The registries a client has.
pub open spec fn registries(c: ClientView) -> Seq<u32> {
    c.objects.keys_where(|id: u32, t: ObjectType| t == ObjectType::WlRegistry)
}

/// What a registry is told of a global.
pub open spec fn global_event(registry: u32, name: u32, g: GlobalView) -> MessageView {
    event(registry, REGISTRY_GLOBAL, seq![ArgView::Uint(name), ArgView::Str(g.interface), ArgView::Uint(g.version)])
}

/// What a registry is told of the first few static globals.
pub open spec fn static_events(registry: u32, n: nat) -> Seq<MessageView> {
    Seq::new(n, |i: int| global_event(registry, i as u32, static_global(i as u32)->0))
}

/// The global an output is.
pub open spec fn output_global() -> GlobalView {
    GlobalView { interface: WL_OUTPUT_INTERFACE@, version: WL_OUTPUT_VERSION }
}

/// The global dma-buf is.
pub open spec fn dmabuf_global() -> GlobalView {
    GlobalView { interface: DMABUF_INTERFACE@, version: DMABUF_VERSION }
}

/// What a registry is told of dma-buf.
pub open spec fn dmabuf_events(registry: u32, dmabuf: Option<u32>) -> Seq<MessageView> {
    match dmabuf {
        Some(name) => seq![global_event(registry, name, dmabuf_global())],
        None => Seq::empty(),
    }
}

/// What a registry is told of the outputs.
pub open spec fn output_events(registry: u32, outputs: Dict<u32, u32>, ids: Seq<u32>) -> Seq<MessageView> {
    ids.map_values(|id: u32| global_event(registry, outputs.at(id), output_global()))
}

/// A client whose registries have been told of a global.
pub open spec fn told_global(name: u32, g: GlobalView) -> spec_fn(u32, ClientView) -> ClientView {
    |id: u32, c: ClientView|
        ClientView {
            outbox: c.outbox + registries(c).map_values(|r: u32| global_event(r, name, g)),
            ..c
        }
}

/// A client whose registries have been told that a global is gone.
pub open spec fn told_removed(name: u32) -> spec_fn(u32, ClientView) -> ClientView {
    |id: u32, c: ClientView|
        ClientView {
            outbox: c.outbox + registries(c).map_values(
                |r: u32| event(r, REGISTRY_GLOBAL_REMOVE, seq![ArgView::Uint(name)]),
            ),
            ..c
        }
}

impl StateView {
    /// With what an object of a type is told when it is bound.
    pub open spec fn greet(self, client_id: u32, id: u32, object_type: ObjectType) -> Self {
        match object_type {
            ObjectType::WlShm => self.notice(client_id, Notice::ShmFormats { shm: id }),
            ObjectType::WlSeat => self.notice(client_id, Notice::SeatCapabilities { seat: id }),
            ObjectType::WpPresentation => self.notice(client_id, Notice::PresentationClock { presentation: id }),
            _ => self,
        }
    }

    /// With a static global bound.
    pub open spec fn bind_static(self, client_id: u32, id: u32, g: GlobalView, version: u32) -> Self {
        match object_for(g.interface) {
            None => self,
            Some(t) => {
                let bound = self.register_at(client_id, id, t, lower(version, g.version));
                if self.may_register(client_id, id) {
                    bound.greet(client_id, id, t)
                } else {
                    bound
                }
            },
        }
    }

    /// With dma-buf bound.
    pub open spec fn bind_dmabuf(self, client_id: u32, id: u32, version: u32) -> Self {
        let bound = self.register_at(client_id, id, ObjectType::ZwpLinuxDmabuf, lower(version, DMABUF_VERSION));
        if self.may_register(client_id, id) {
            bound.notice(client_id, Notice::DmabufFormats { dmabuf: id })
        } else {
            bound
        }
    }

    /// With an object standing for an output.
    pub open spec fn put_binding(self, key: ClientObjectId, output_id: OutputId) -> Self {
        StateView {
            out: DisplaysView { output_bindings: self.out.output_bindings.put(key, output_id), ..self.out },
            ..self
        }
    }

    /// With an output bound.
    pub open spec fn bind_output(self, client_id: u32, id: u32, name: u32, version: u32) -> Self {
        match self.out.output_global_names.first_where(named(name)) {
            None => self,
            Some(output_id) => {
                let bound = self.register_at(client_id, id, ObjectType::WlOutput, lower(version, WL_OUTPUT_VERSION));
                if self.may_register(client_id, id) {
                    bound.put_binding((client_id, id), output_id).send_output_info(client_id, id, output_id)
                } else {
                    bound
                }
            },
        }
    }

    /// With whatever has a name bound.
    pub open spec fn bind_name(self, client_id: u32, id: u32, name: u32, version: u32) -> Self {
        match static_global(name) {
            Some(g) => self.bind_static(client_id, id, g, version),
            None => if self.out.dmabuf_global_name == Some(name) {
                self.bind_dmabuf(client_id, id, version)
            } else {
                self.bind_output(client_id, id, name, version)
            },
        }
    }

    /// `bind`: the interface must be the one the name was advertised under,
    /// and the version not zero.
    pub open spec fn registry_bind(self, msg: ClientMessage) -> Self {
        let c = msg.client_id;
        if !self.clients.has(c) {
            self
        } else {
            match bind_args(msg) {
                None => self.fail(c, msg.object_id, 0, "wl_registry.bind: malformed args"@),
                Some((name, interface, version, id)) => if version == 0 || advertised(
                    name,
                    self.out.dmabuf_global_name,
                    self.out.output_global_names,
                ) != Some(interface) {
                    self.fail(
                        c,
                        msg.object_id,
                        ERROR_INVALID_OBJECT,
                        "wl_registry.bind: global "@ + decimal(name as int) + " is not \""@ + interface
                            + "\" version "@ + decimal(version as int),
                    )
                } else {
                    self.bind_name(c, id, name, version)
                },
            }
        }
    }

    /// With a registry told of every global there is.
    pub open spec fn advertise_globals(self, client_id: u32, registry_id: u32) -> Self {
        self.tell_all(
            client_id,
            static_events(registry_id, STATIC_GLOBALS as nat) + dmabuf_events(
                registry_id,
                self.out.dmabuf_global_name,
            ) + output_events(registry_id, self.out.output_global_names, self.out.output_global_names.order),
        )
    }

    /// With every registry told of a global that has appeared.
    pub open spec fn broadcast_global(self, name: u32, g: GlobalView) -> Self {
        StateView { clients: self.clients.each(told_global(name, g)), ..self }
    }

    /// With every registry told of a global that has gone.
    pub open spec fn broadcast_global_remove(self, name: u32) -> Self {
        StateView { clients: self.clients.each(told_removed(name)), ..self }
    }

    /// Any request on a registry.
    pub open spec fn registry_request(self, msg: ClientMessage) -> Self {
        if msg.op_code == 0 {
            self.registry_bind(msg)
        } else {
            self.reject_unknown(msg, "wl_registry"@)
        }
    }
}

fn greet(state: &mut CompositorState, client_id: u32, id: u32, object_type: ObjectType)
    ensures
        final(state)@ == old(state)@.greet(client_id, id, object_type),
{
    match object_type {
        ObjectType::WlShm => state.notice(client_id, Notice::ShmFormats { shm: id }),
        ObjectType::WlSeat => state.notice(client_id, Notice::SeatCapabilities { seat: id }),
        ObjectType::WpPresentation => state.notice(client_id, Notice::PresentationClock { presentation: id }),
        _ => {},
    }
}

fn min_version(a: u32, b: u32) -> (r: u32)
    ensures
        r == lower(a, b),
{
    if a < b {
        a
    } else {
        b
    }
}

fn bind_static(state: &mut CompositorState, client_id: u32, id: u32, g: Global, version: u32)
    ensures
        final(state)@ == old(state)@.bind_static(client_id, id, g@, version),
{
    let t = match static_object_type(g.interface) {
        Some(t) => t,
        None => {
            return;
        },
    };
    if state.register_at(client_id, id, t, min_version(version, g.version)) {
        greet(state, client_id, id, t);
    }
}

fn bind_dmabuf(state: &mut CompositorState, client_id: u32, id: u32, version: u32)
    ensures
        final(state)@ == old(state)@.bind_dmabuf(client_id, id, version),
{
    if state.register_at(client_id, id, ObjectType::ZwpLinuxDmabuf, min_version(version, DMABUF_VERSION)) {
        state.notice(client_id, Notice::DmabufFormats { dmabuf: id });
    }
}

fn bind_output(state: &mut CompositorState, client_id: u32, id: u32, name: u32, version: u32)
    ensures
        final(state)@ == old(state)@.bind_output(client_id, id, name, version),
{
    let output_id: OutputId = match state.out.output_global_names.first_where(
        |id: &u32, n: &u32| -> (r: bool) ensures r == named(name)(*id, n@) { *n == name },
        Ghost(named(name)),
    ) {
        Some(output_id) => output_id,
        None => {
            return;
        },
    };
    if state.register_at(client_id, id, ObjectType::WlOutput, min_version(version, WL_OUTPUT_VERSION)) {
        state.out.output_bindings.insert((client_id, id), output_id);
        send_output_info(state, client_id, id, output_id);
    }
}

fn read_bind(msg: &ClientMessage) -> (r: Option<(u32, String, u32, u32)>)
    ensures
        match r {
            Some((name, interface, version, id)) => bind_args(*msg) == Some((name, interface@, version, id)),
            None => bind_args(*msg) is None,
        },
{
    match (msg.unsigned(0), msg.string(4)) {
        (Some(name), Some((interface, end))) => {
            let version: u32 = match msg.read(end) {
                Some(v) => v,
                None => {
                    return None;
                },
            };
            let n: usize = msg.args.len();
            match msg.read(end + 4) {
                Some(id) => Some((name, interface, version, id)),
                None => None,
            }
        },
        _ => None,
    }
}

fn refusal(name: u32, interface: &String, version: u32) -> (r: String)
    ensures
        r@ == "wl_registry.bind: global "@ + decimal(name as int) + " is not \""@ + interface@ + "\" version "@ + decimal(
            version as int,
        ),
{
    let mut text = with_number("wl_registry.bind: global ", name as i64, " is not \"");
    text.append(interface.as_str());
    text.append("\" version ");
    let n = decimal_text(version as i64);
    text.append(n.as_str());
    text
}

/// Make an object of what was advertised under a name.
///
/// The client names the interface as well as the name, and the two must
/// agree. Binding by name alone would turn a client that has got its globals
/// out of step into one holding a working object of a type it does not expect,
/// whose every later request decodes against the wrong interface.
///
/// Version zero is refused with it: a client cannot speak version zero of
/// anything.
fn handle_bind(state: &mut CompositorState, msg: &ClientMessage)
    ensures
        final(state)@ == old(state)@.registry_bind(*msg),
{
    let c: u32 = msg.client_id;
    if state.clients.peek(c).is_none() {
        return;
    }
    let (name, interface, version, id): (u32, String, u32, u32) = match read_bind(msg) {
        Some(args) => args,
        None => {
            state.fail(c, msg.object_id, 0, String::from_str("wl_registry.bind: malformed args"));
            return;
        },
    };
    let agrees: bool = match advertised_interface(
        name,
        state.out.dmabuf_global_name,
        &state.out.output_global_names,
    ) {
        Some(s) => same_text(s, interface.as_str()),
        None => false,
    };
    if !agrees || version == 0 {
        let text = refusal(name, &interface, version);
        state.fail(c, msg.object_id, ERROR_INVALID_OBJECT, text);
        return;
    }
    if let Some(g) = global_at(name) {
        bind_static(state, c, id, g, version);
    } else if state.out.dmabuf_global_name == Some(name) {
        bind_dmabuf(state, c, id, version);
    } else {
        bind_output(state, c, id, name, version);
    }
}

pub fn handle(state: &mut CompositorState, msg: &ClientMessage)
    ensures
        final(state)@ == old(state)@.registry_request(*msg),
{
    match msg.op_code {
        0 => handle_bind(state, msg),
        _ => reject_unknown_request(state, msg, "wl_registry"),
    }
}

fn global_message(registry: u32, name: u32, interface: &str, version: u32) -> (r: Message)
    ensures
        r@ == global_event(registry, name, GlobalView { interface: interface@, version }),
{
    let args: Vec<Arg> = vec![Arg::Uint(name), Arg::Str(String::from_str(interface)), Arg::Uint(version)];
    proof {
        assert(args_view(args@) =~= seq![ArgView::Uint(name), ArgView::Str(interface@), ArgView::Uint(version)]);
    }
    build_message(registry, REGISTRY_GLOBAL, args)
}

fn static_messages(registry: u32) -> (r: Vec<Message>)
    ensures
        messages_view(r@) == static_events(registry, STATIC_GLOBALS as nat),
{
    let mut r: Vec<Message> = Vec::new();
    let mut i: u32 = 0;
    proof {
        assert(messages_view(r@) =~= static_events(registry, 0));
    }
    while i < STATIC_GLOBALS
        invariant
            i <= STATIC_GLOBALS,
            messages_view(r@) == static_events(registry, i as nat),
        decreases STATIC_GLOBALS - i,
    {
        if let Some(g) = global_at(i) {
            push_message(&mut r, global_message(registry, i, g.interface, g.version));
            proof {
                assert(messages_view(r@) =~= static_events(registry, (i + 1) as nat));
            }
        }
        i += 1;
    }
    r
}

fn push_output_messages(r: &mut Vec<Message>, registry: u32, outputs: &Table<u32, u32>)
    ensures
        messages_view(final(r)@) == messages_view(old(r)@) + output_events(registry, outputs@, outputs@.order),
{
    let ghost all = output_events(registry, outputs@, outputs@.order);
    let mut i: usize = 0;
    proof {
        assert(messages_view(r@) =~= messages_view(old(r)@) + all.take(0));
    }
    while i < outputs.len()
        invariant
            i <= outputs@.order.len(),
            all == output_events(registry, outputs@, outputs@.order),
            messages_view(r@) == messages_view(old(r)@) + all.take(i as int),
        decreases outputs@.order.len() - i,
    {
        let name: u32 = *outputs.value_at(i);
        push_message(r, global_message(registry, name, WL_OUTPUT_INTERFACE, WL_OUTPUT_VERSION));
        i += 1;
        proof {
            assert(all.take(i as int) =~= all.take(i - 1).push(all[i - 1]));
            assert(messages_view(r@) =~= messages_view(old(r)@) + all.take(i as int));
        }
    }
    proof {
        assert(all.take(i as int) =~= all);
    }
}

/// Send `wl_registry.global` events for all static globals and dynamic output globals.
pub fn advertise_globals(state: &mut CompositorState, client_id: u32, registry_id: u32)
    ensures
        final(state)@ == old(state)@.advertise_globals(client_id, registry_id),
{
    let mut messages = static_messages(registry_id);
    if let Some(name) = state.out.dmabuf_global_name {
        push_message(&mut messages, global_message(registry_id, name, DMABUF_INTERFACE, DMABUF_VERSION));
    }
    proof {
        assert(messages_view(messages@) =~= static_events(registry_id, STATIC_GLOBALS as nat) + dmabuf_events(
            registry_id,
            state@.out.dmabuf_global_name,
        ));
    }
    push_output_messages(&mut messages, registry_id, &state.out.output_global_names);
    state.tell_all(client_id, messages);
}

fn registries_of(client: &ClientState) -> (r: Vec<u32>)
    ensures
        r@ == registries(client@),
{
    client.objects.keys_where(
        |id: &u32, t: &ObjectType| -> (r: bool) ensures r == (t@ == ObjectType::WlRegistry) { *t == ObjectType::WlRegistry },
        Ghost(|id: u32, t: ObjectType| t == ObjectType::WlRegistry),
    )
}

fn tell_global(client: &mut ClientState, name: u32, interface: &str, version: u32)
    ensures
        final(client)@ == told_global(name, GlobalView { interface: interface@, version })(0, old(client)@),
{
    let ghost g = GlobalView { interface: interface@, version };
    let ids = registries_of(client);
    let ghost all = ids@.map_values(|r: u32| global_event(r, name, g));
    let mut messages: Vec<Message> = Vec::new();
    let mut i: usize = 0;
    proof {
        assert(messages_view(messages@) =~= all.take(0));
    }
    while i < ids.len()
        invariant
            i <= ids@.len(),
            g == (GlobalView { interface: interface@, version }),
            all == ids@.map_values(|r: u32| global_event(r, name, g)),
            messages_view(messages@) == all.take(i as int),
        decreases ids@.len() - i,
    {
        push_message(&mut messages, global_message(ids[i], name, interface, version));
        i += 1;
        proof {
            assert(all.take(i as int) =~= all.take(i - 1).push(all[i - 1]));
        }
    }
    proof {
        assert(all.take(i as int) =~= all);
    }
    client.send_all(messages);
}

fn tell_removed(client: &mut ClientState, name: u32)
    ensures
        final(client)@ == told_removed(name)(0, old(client)@),
{
    let ids = registries_of(client);
    let ghost all = ids@.map_values(|r: u32| event(r, REGISTRY_GLOBAL_REMOVE, seq![ArgView::Uint(name)]));
    let mut messages: Vec<Message> = Vec::new();
    let mut i: usize = 0;
    proof {
        assert(messages_view(messages@) =~= all.take(0));
    }
    while i < ids.len()
        invariant
            i <= ids@.len(),
            all == ids@.map_values(|r: u32| event(r, REGISTRY_GLOBAL_REMOVE, seq![ArgView::Uint(name)])),
            messages_view(messages@) == all.take(i as int),
        decreases ids@.len() - i,
    {
        push_message(&mut messages, build_message(ids[i], REGISTRY_GLOBAL_REMOVE, one_arg(name)));
        i += 1;
        proof {
            assert(all.take(i as int) =~= all.take(i - 1).push(all[i - 1]));
        }
    }
    proof {
        assert(all.take(i as int) =~= all);
    }
    client.send_all(messages);
}

/// Broadcast a global that has appeared since the clients did.
///
/// Most globals exist before any client connects. Some cannot: an output
/// arrives when the display is plugged in, and dma-buf support is only known
/// once the backend has a GL context to ask. Those are announced to whoever is
/// already connected here, and by `advertise_globals` to whoever connects
/// later.
pub fn broadcast_global(state: &mut CompositorState, global_name: u32, interface: &str, version: u32)
    ensures
        final(state)@ == old(state)@.broadcast_global(global_name, GlobalView { interface: interface@, version }),
{
    let ghost f = told_global(global_name, GlobalView { interface: interface@, version });
    let ghost before = state@.clients;
    state.clients.known();
    proof {
        before.lemma_each(f);
    }
    let n: usize = state.clients.len();
    let mut i: usize = 0;
    while i < n
        invariant
            i <= n,
            n == before.order.len(),
            before.ok(),
            f == told_global(global_name, GlobalView { interface: interface@, version }),
            state@ == (StateView { clients: before.each_first(i as int, f), ..old(state)@ }),
        decreases n - i,
    {
        proof {
            before.lemma_each_step(i as int, f);
        }
        let id: u32 = state.clients.id_at(i);
        if let Some(client) = state.clients.get(id) {
            tell_global(client, global_name, interface, version);
        }
        i += 1;
    }
}

/// Withdraw a global that has gone away.
///
/// A global announced and never withdrawn leaves every client holding a name it
/// may still try to bind, and an object for a thing that no longer exists. An
/// unplugged display is the case this exists for.
pub fn broadcast_global_remove(state: &mut CompositorState, global_name: u32)
    ensures
        final(state)@ == old(state)@.broadcast_global_remove(global_name),
{
    let ghost f = told_removed(global_name);
    let ghost before = state@.clients;
    state.clients.known();
    proof {
        before.lemma_each(f);
    }
    let n: usize = state.clients.len();
    let mut i: usize = 0;
    while i < n
        invariant
            i <= n,
            n == before.order.len(),
            before.ok(),
            f == told_removed(global_name),
            state@ == (StateView { clients: before.each_first(i as int, f), ..old(state)@ }),
        decreases n - i,
    {
        proof {
            before.lemma_each_step(i as int, f);
        }
        let id: u32 = state.clients.id_at(i);
        if let Some(client) = state.clients.get(id) {
            tell_removed(client, global_name);
        }
        i += 1;
    }
}

} // verus!
