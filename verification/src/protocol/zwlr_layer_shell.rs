//! `zwlr_layer_shell_v1` protocol handler.
//!
//! The shell a panel, bar, wallpaper or lock screen binds instead of
//! `xdg_wm_base`. What it adds over a toplevel is a *band*: a wallpaper has to
//! be under every window and a lock screen over every one.
use crate::protocol::{ObjectType, reject_malformed_request, reject_unknown_request};
use crate::protocol::wire_utils::{ClientMessage, string_at};
use crate::protocol::zwlr_layer_surface::layer_named;
use crate::state::compositor_state::{CompositorState, LayersView, StateView};
use crate::state::types::{
    LayerKind, LayerSurfaceState, LayerSurfaceStatePending, LayerSurfaceStateView, OutputId,
};
use crate::text::{decimal, with_number};
use vstd::prelude::*;
use vstd::string::*;

verus! {

pub const LAYER_SHELL_INTERFACE: &'static str = "zwlr_layer_shell_v1";

/// Version 4. Version 5 adds `set_exclusive_edge`, which is not implemented,
/// and advertising a version whose requests are missing is worse than
/// advertising a lower one.
pub const LAYER_SHELL_VERSION: u32 = 4;

/// `zwlr_layer_shell_v1.error.role`: the surface already has one.
pub const ERROR_ROLE: u32 = 0;

/// `zwlr_layer_shell_v1.error.invalid_layer`.
pub const ERROR_INVALID_LAYER: u32 = 1;

impl StateView {
    /// The output a layer surface goes on: the one it names, or for null the
    /// one a window would open on.
    pub open spec fn layer_output(self, client_id: u32, output_id: u32) -> Option<OutputId> {
        if output_id == 0 {
            self.output_for_new_window()
        } else {
            self.out.output_bindings.get((client_id, output_id))
        }
    }

    /// With a surface made a layer surface.
    pub open spec fn make_layer(
        self,
        client_id: u32,
        layer_id: u32,
        surface_id: u32,
        output: Option<OutputId>,
        layer: LayerKind,
        namespace: Seq<char>,
    ) -> Self {
        StateView {
            layers: LayersView {
                layer_surfaces: self.layers.layer_surfaces.put(
                    (client_id, layer_id),
                    LayerSurfaceStateView {
                        client_id,
                        wl_surface_id: surface_id,
                        output,
                        pending: LayerSurfaceStatePending::start(layer),
                        current: LayerSurfaceStatePending::start(layer),
                        namespace,
                        configured: false,
                        pending_configures: Seq::empty(),
                        highest_configure: 0,
                        configured_size: None,
                    },
                ),
                surface_layer: self.layers.surface_layer.put((client_id, surface_id), layer_id),
            },
            dirty: true,
            ..self
        }
    }

    /// `get_layer_surface`: refused for a layer there is none of, and for a
    /// surface that is not there or has a role.
    pub open spec fn get_layer_surface(self, msg: ClientMessage) -> Self {
        let c = msg.client_id;
        match (msg.word(0), msg.word(1), msg.word(2), msg.word(3), string_at(msg.args@, 16)) {
            (Some(id), Some(surface), Some(output), Some(n), Some((namespace, _))) => match layer_named(n) {
                None => self.fail(
                    c,
                    msg.object_id,
                    ERROR_INVALID_LAYER,
                    "zwlr_layer_shell_v1.get_layer_surface: "@ + decimal(n as int) + " is not a layer"@,
                ),
                Some(layer) => if !self.surf.surfaces.has((c, surface)) || self.has_role((c, surface)) {
                    self.fail(
                        c,
                        msg.object_id,
                        ERROR_ROLE,
                        "zwlr_layer_shell_v1.get_layer_surface: the surface already has a role"@,
                    )
                } else {
                    let named = self.register_at(
                        c,
                        id,
                        ObjectType::ZwlrLayerSurface,
                        self.object_version((c, msg.object_id)),
                    );
                    if self.may_register(c, id) {
                        named.make_layer(c, id, surface, self.layer_output(c, output), layer, namespace)
                    } else {
                        named
                    }
                },
            },
            _ => self.reject_malformed(msg, LAYER_SHELL_INTERFACE@),
        }
    }

    /// Any request on a layer shell.
    pub open spec fn layer_shell_request(self, msg: ClientMessage) -> Self {
        if msg.op_code == 0 {
            self.get_layer_surface(msg)
        } else if msg.op_code == 1 {
            self.unregister(msg.client_id, msg.object_id)
        } else {
            self.reject_unknown(msg, LAYER_SHELL_INTERFACE@)
        }
    }
}

fn make_layer(
    state: &mut CompositorState,
    client_id: u32,
    layer_id: u32,
    surface_id: u32,
    output: Option<OutputId>,
    layer: LayerKind,
    namespace: String,
)
    ensures
        final(state)@ == old(state)@.make_layer(client_id, layer_id, surface_id, output, layer, namespace@),
{
    let l = LayerSurfaceState {
        client_id,
        wl_surface_id: surface_id,
        output,
        pending: LayerSurfaceStatePending::on_layer(layer),
        current: LayerSurfaceStatePending::on_layer(layer),
        namespace,
        configured: false,
        pending_configures: Vec::new(),
        highest_configure: 0,
        configured_size: None,
    };
    proof {
        assert(l@.pending_configures =~= Seq::<u32>::empty());
    }
    state.layers.layer_surfaces.insert((client_id, layer_id), l);
    state.layers.surface_layer.insert((client_id, surface_id), layer_id);
    state.dirty = true;
}

/// Make a surface a layer surface.
///
/// A surface has one role for its whole life. A null output lets the
/// compositor choose, and is resolved now: a surface with no output has no
/// size to be configured against.
fn handle_get_layer_surface(state: &mut CompositorState, msg: &ClientMessage)
    ensures
        final(state)@ == old(state)@.get_layer_surface(*msg),
{
    let c: u32 = msg.client_id;
    match (msg.unsigned(0), msg.unsigned(1), msg.unsigned(2), msg.unsigned(3), msg.string(16)) {
        (Some(id), Some(surface), Some(output_id), Some(n), Some((namespace, _))) => {
            let layer = match LayerKind::from_repr(n) {
                Some(layer) => layer,
                None => {
                    let text = with_number(
                        "zwlr_layer_shell_v1.get_layer_surface: ",
                        n as i64,
                        " is not a layer",
                    );
                    state.fail(c, msg.object_id, ERROR_INVALID_LAYER, text);
                    return;
                },
            };
            if !state.surf.surfaces.contains((c, surface)) || state.has_role((c, surface)) {
                state.fail(
                    c,
                    msg.object_id,
                    ERROR_ROLE,
                    String::from_str("zwlr_layer_shell_v1.get_layer_surface: the surface already has a role"),
                );
                return;
            }
            let output: Option<OutputId> = if output_id == 0 {
                state.output_for_new_window()
            } else {
                match state.out.output_bindings.get((c, output_id)) {
                    Some(id) => Some(*id),
                    None => None,
                }
            };
            let version = state.object_version((c, msg.object_id));
            if state.register_at(c, id, ObjectType::ZwlrLayerSurface, version) {
                make_layer(state, c, id, surface, output, layer, namespace);
            }
        },
        _ => {
            reject_malformed_request(state, msg, LAYER_SHELL_INTERFACE);
        },
    }
}

pub fn handle(state: &mut CompositorState, msg: &ClientMessage)
    ensures
        final(state)@ == old(state)@.layer_shell_request(*msg),
{
    match msg.op_code {
        0 => handle_get_layer_surface(state, msg),
        1 => state.unregister(msg.client_id, msg.object_id),
        _ => reject_unknown_request(state, msg, LAYER_SHELL_INTERFACE),
    }
}

} // verus!
