//! `zwlr_layer_surface_v1` protocol handler.
//!
//! One panel, bar, wallpaper or lock screen. The client says which edges to
//! stick to, how big it wants to be, what margins to leave and how much room
//! to reserve; the compositor works out the rectangle and configures the
//! client with it. All of that is double-buffered like any other surface
//! state, so a surface that changes its anchor and its size gets both in one
//! frame.
use crate::protocol::{reject_malformed_request, reject_unknown_request};
use crate::protocol::wire_utils::ClientMessage;
use crate::protocol::wl_subcompositor::push_child;
use crate::protocol::wl_subsurface::set_subsurface_position;
use crate::protocol::xdg_surface::configure_popup;
use crate::seqs::position;
use crate::state::compositor_state::{
    CompositorState, LayersView, StateView, SurfacesView, WindowsView,
};
use crate::state::panels::resettle;
use crate::state::types::{
    Anchor, clamp_surface_offset, clamped_offset, ClientObjectId, KeyboardInteractivity,
    LayerKind, LayerSurfaceStatePending, LayerSurfaceStateView, SurfaceView, XdgPopupState,
};
use crate::text::{decimal, hex_digits, hex_text, with_number};
use vstd::prelude::*;
use vstd::string::*;

verus! {

/// `zwlr_layer_surface_v1.error.invalid_size`
pub const ERROR_INVALID_SIZE: u32 = 1;

/// `zwlr_layer_surface_v1.error.invalid_anchor`
pub const ERROR_INVALID_ANCHOR: u32 = 2;

/// `zwlr_layer_surface_v1.error.invalid_keyboard_interactivity`
pub const ERROR_INVALID_KEYBOARD_INTERACTIVITY: u32 = 3;

/// The layer a number names.
pub open spec fn layer_named(n: u32) -> Option<LayerKind> {
    if n == 0 {
        Some(LayerKind::Background)
    } else if n == 1 {
        Some(LayerKind::Bottom)
    } else if n == 2 {
        Some(LayerKind::Top)
    } else if n == 3 {
        Some(LayerKind::Overlay)
    } else {
        None
    }
}

/// Take the items of a list up to and with a place in it.
pub fn drop_through(v: &mut Vec<u32>, at: usize)
    requires
        at < old(v)@.len(),
    ensures
        final(v)@ == old(v)@.skip(at + 1),
{
    let n: usize = v.len();
    let rest = v.split_off(at + 1);
    proof {
        assert(rest@ =~= old(v)@.skip(at + 1));
    }
    *v = rest;
}

fn pending_of(state: &CompositorState, key: ClientObjectId) -> (r: Option<LayerSurfaceStatePending>)
    ensures
        match r {
            Some(p) => state@.layers.layer_surfaces.has(key) && p == state@.layer_pending(key),
            None => !state@.layers.layer_surfaces.has(key),
        },
{
    match state.layers.layer_surfaces.get(key) {
        Some(l) => Some(l.pending),
        None => None,
    }
}

fn set_size(state: &mut CompositorState, msg: &ClientMessage)
    ensures
        final(state)@ == old(state)@.layer_set_size(*msg),
{
    let key = (msg.client_id, msg.object_id);
    match (msg.unsigned(0), msg.unsigned(1)) {
        (Some(width), Some(height)) => {
            if width > 0x7fff_ffff || height > 0x7fff_ffff {
                state.fail(
                    msg.client_id,
                    msg.object_id,
                    ERROR_INVALID_SIZE,
                    String::from_str("zwlr_layer_surface_v1.set_size: that is not a size"),
                );
                return;
            }
            if let Some(p) = pending_of(state, key) {
                let mut p = p;
                p.size = (width as i32, height as i32);
                state.set_layer_pending(key, p);
            }
        },
        _ => {
            reject_malformed_request(state, msg, "zwlr_layer_surface_v1");
        },
    }
}

fn set_anchor(state: &mut CompositorState, msg: &ClientMessage)
    ensures
        final(state)@ == old(state)@.layer_set_anchor(*msg),
{
    let key = (msg.client_id, msg.object_id);
    match msg.unsigned(0) {
        Some(anchor) => {
            if anchor > Anchor::ALL {
                let mut text = String::from_str("zwlr_layer_surface_v1.set_anchor: ");
                let hex = hex_text(anchor);
                text.append(hex.as_str());
                text.append(" has bits that are not edges");
                state.fail(msg.client_id, msg.object_id, ERROR_INVALID_ANCHOR, text);
                return;
            }
            if let Some(p) = pending_of(state, key) {
                let mut p = p;
                p.anchor = Anchor(anchor);
                state.set_layer_pending(key, p);
            }
        },
        None => {
            reject_malformed_request(state, msg, "zwlr_layer_surface_v1");
        },
    }
}

fn set_exclusive_zone(state: &mut CompositorState, msg: &ClientMessage)
    ensures
        final(state)@ == old(state)@.layer_set_exclusive_zone(*msg),
{
    let key = (msg.client_id, msg.object_id);
    match msg.signed(0) {
        Some(zone) => {
            if let Some(p) = pending_of(state, key) {
                let mut p = p;
                p.exclusive_zone = zone;
                state.set_layer_pending(key, p);
            }
        },
        None => {
            reject_malformed_request(state, msg, "zwlr_layer_surface_v1");
        },
    }
}

fn set_margin(state: &mut CompositorState, msg: &ClientMessage)
    ensures
        final(state)@ == old(state)@.layer_set_margin(*msg),
{
    let key = (msg.client_id, msg.object_id);
    match (msg.signed(0), msg.signed(1), msg.signed(2), msg.signed(3)) {
        (Some(top), Some(right), Some(bottom), Some(left)) => {
            if let Some(p) = pending_of(state, key) {
                let mut p = p;
                p.margin = (top, right, bottom, left);
                state.set_layer_pending(key, p);
            }
        },
        _ => {
            reject_malformed_request(state, msg, "zwlr_layer_surface_v1");
        },
    }
}

fn set_keyboard_interactivity(state: &mut CompositorState, msg: &ClientMessage)
    ensures
        final(state)@ == old(state)@.layer_set_interactivity(*msg),
{
    let key = (msg.client_id, msg.object_id);
    match msg.unsigned(0) {
        Some(value) => {
            let interactivity = match KeyboardInteractivity::from_repr(value) {
                Some(i) => i,
                None => {
                    let text = with_number(
                        "zwlr_layer_surface_v1.set_keyboard_interactivity: ",
                        value as i64,
                        " is not one",
                    );
                    state.fail(msg.client_id, msg.object_id, ERROR_INVALID_KEYBOARD_INTERACTIVITY, text);
                    return;
                },
            };
            if let Some(p) = pending_of(state, key) {
                let mut p = p;
                p.keyboard_interactivity = interactivity;
                state.set_layer_pending(key, p);
            }
        },
        None => {
            reject_malformed_request(state, msg, "zwlr_layer_surface_v1");
        },
    }
}

fn set_layer(state: &mut CompositorState, msg: &ClientMessage)
    ensures
        final(state)@ == old(state)@.layer_set_layer(*msg),
{
    let key = (msg.client_id, msg.object_id);
    match msg.unsigned(0) {
        Some(value) => {
            let layer = match LayerKind::from_repr(value) {
                Some(layer) => layer,
                None => {
                    let text = with_number("zwlr_layer_surface_v1.set_layer: ", value as i64, " is not a layer");
                    state.fail(msg.client_id, msg.object_id, 1, text);
                    return;
                },
            };
            if let Some(p) = pending_of(state, key) {
                let mut p = p;
                p.layer = layer;
                state.set_layer_pending(key, p);
            }
        },
        None => {
            reject_malformed_request(state, msg, "zwlr_layer_surface_v1");
        },
    }
}

fn ack_configure(state: &mut CompositorState, msg: &ClientMessage)
    ensures
        final(state)@ == old(state)@.layer_ack_configure(*msg),
{
    let key = (msg.client_id, msg.object_id);
    let serial: u32 = match msg.unsigned(0) {
        Some(serial) => serial,
        None => {
            reject_malformed_request(state, msg, "zwlr_layer_surface_v1");
            return;
        },
    };
    let highest: u32 = match state.layers.layer_surfaces.get(key) {
        Some(l) => l.highest_configure,
        None => {
            return;
        },
    };
    if serial > highest {
        let text = with_number("zwlr_layer_surface_v1.ack_configure: ", serial as i64, " was never sent");
        state.fail(msg.client_id, msg.object_id, 0, text);
        return;
    }
    state.layer_acked(key, serial);
}

fn destroy(state: &mut CompositorState, msg: &ClientMessage)
    ensures
        final(state)@ == old(state)@.layer_destroy(*msg),
{
    let key = (msg.client_id, msg.object_id);
    let output = state.panel_output(key);
    state.drop_layer(key);
    state.unregister(msg.client_id, msg.object_id);
    resettle(state, output);
}

impl StateView {
    /// With what a layer surface is asked for changed.
    pub open spec fn set_layer_pending(self, key: ClientObjectId, p: LayerSurfaceStatePending) -> Self {
        StateView {
            layers: LayersView {
                layer_surfaces: self.layers.layer_surfaces.edit(
                    key,
                    |l: LayerSurfaceStateView| LayerSurfaceStateView { pending: p, ..l },
                ),
                ..self.layers
            },
            ..self
        }
    }

    /// What a layer surface has been asked for.
    pub open spec fn layer_pending(self, key: ClientObjectId) -> LayerSurfaceStatePending {
        self.layers.layer_surfaces.at(key).pending
    }

    /// `set_size`: both must be sizes a coordinate can hold.
    pub open spec fn layer_set_size(self, msg: ClientMessage) -> Self {
        let key = (msg.client_id, msg.object_id);
        match (msg.word(0), msg.word(1)) {
            (Some(w), Some(h)) => if w > i32::MAX || h > i32::MAX {
                self.fail(msg.client_id, msg.object_id, ERROR_INVALID_SIZE, "zwlr_layer_surface_v1.set_size: that is not a size"@)
            } else {
                self.set_layer_pending(key, LayerSurfaceStatePending { size: (w as i32, h as i32), ..self.layer_pending(key) })
            },
            _ => self.reject_malformed(msg, "zwlr_layer_surface_v1"@),
        }
    }

    /// `set_anchor`: every bit must be an edge.
    pub open spec fn layer_set_anchor(self, msg: ClientMessage) -> Self {
        let key = (msg.client_id, msg.object_id);
        match msg.word(0) {
            Some(a) => if a > Anchor::ALL {
                self.fail(
                    msg.client_id,
                    msg.object_id,
                    ERROR_INVALID_ANCHOR,
                    "zwlr_layer_surface_v1.set_anchor: "@ + ("0x"@ + hex_digits(a as nat)) + " has bits that are not edges"@,
                )
            } else {
                self.set_layer_pending(key, LayerSurfaceStatePending { anchor: Anchor(a), ..self.layer_pending(key) })
            },
            _ => self.reject_malformed(msg, "zwlr_layer_surface_v1"@),
        }
    }

    /// `set_exclusive_zone`
    pub open spec fn layer_set_exclusive_zone(self, msg: ClientMessage) -> Self {
        let key = (msg.client_id, msg.object_id);
        match msg.number(0) {
            Some(zone) => self.set_layer_pending(
                key,
                LayerSurfaceStatePending { exclusive_zone: zone, ..self.layer_pending(key) },
            ),
            _ => self.reject_malformed(msg, "zwlr_layer_surface_v1"@),
        }
    }

    /// `set_margin`
    pub open spec fn layer_set_margin(self, msg: ClientMessage) -> Self {
        let key = (msg.client_id, msg.object_id);
        match (msg.number(0), msg.number(1), msg.number(2), msg.number(3)) {
            (Some(t), Some(r), Some(b), Some(l)) => self.set_layer_pending(
                key,
                LayerSurfaceStatePending { margin: (t, r, b, l), ..self.layer_pending(key) },
            ),
            _ => self.reject_malformed(msg, "zwlr_layer_surface_v1"@),
        }
    }

    /// `set_keyboard_interactivity`: one of the three the protocol has.
    pub open spec fn layer_set_interactivity(self, msg: ClientMessage) -> Self {
        let key = (msg.client_id, msg.object_id);
        match msg.word(0) {
            Some(n) => if n > 2 {
                self.fail(
                    msg.client_id,
                    msg.object_id,
                    ERROR_INVALID_KEYBOARD_INTERACTIVITY,
                    "zwlr_layer_surface_v1.set_keyboard_interactivity: "@ + decimal(n as int) + " is not one"@,
                )
            } else {
                self.set_layer_pending(
                    key,
                    LayerSurfaceStatePending {
                        keyboard_interactivity: if n == 0 {
                            KeyboardInteractivity::Never
                        } else if n == 1 {
                            KeyboardInteractivity::Exclusive
                        } else {
                            KeyboardInteractivity::OnDemand
                        },
                        ..self.layer_pending(key)
                    },
                )
            },
            _ => self.reject_malformed(msg, "zwlr_layer_surface_v1"@),
        }
    }

    /// `set_layer`: one of the four there are.
    pub open spec fn layer_set_layer(self, msg: ClientMessage) -> Self {
        let key = (msg.client_id, msg.object_id);
        match msg.word(0) {
            Some(n) => match layer_named(n) {
                None => self.fail(
                    msg.client_id,
                    msg.object_id,
                    1,
                    "zwlr_layer_surface_v1.set_layer: "@ + decimal(n as int) + " is not a layer"@,
                ),
                Some(layer) => self.set_layer_pending(key, LayerSurfaceStatePending { layer, ..self.layer_pending(key) }),
            },
            _ => self.reject_malformed(msg, "zwlr_layer_surface_v1"@),
        }
    }

    /// With a layer surface's configures acknowledged up to one.
    pub open spec fn layer_acked(self, key: ClientObjectId, serial: u32) -> Self {
        StateView {
            layers: LayersView {
                layer_surfaces: self.layers.layer_surfaces.edit(
                    key,
                    |l: LayerSurfaceStateView|
                        match l.pending_configures.index_of_first(serial) {
                            Some(i) => LayerSurfaceStateView {
                                pending_configures: l.pending_configures.skip(i + 1),
                                configured: true,
                                ..l
                            },
                            None => l,
                        },
                ),
                ..self.layers
            },
            ..self
        }
    }

    /// `ack_configure`: acknowledging one configure acknowledges every earlier
    /// one. One that was never sent is an error; one already passed is not.
    pub open spec fn layer_ack_configure(self, msg: ClientMessage) -> Self {
        let key = (msg.client_id, msg.object_id);
        match msg.word(0) {
            Some(serial) => if !self.layers.layer_surfaces.has(key) {
                self
            } else if serial > self.layers.layer_surfaces.at(key).highest_configure {
                self.fail(
                    msg.client_id,
                    msg.object_id,
                    0,
                    "zwlr_layer_surface_v1.ack_configure: "@ + decimal(serial as int) + " was never sent"@,
                )
            } else {
                self.layer_acked(key, serial)
            },
            _ => self.reject_malformed(msg, "zwlr_layer_surface_v1"@),
        }
    }

    /// With a layer surface gone, its surface without a role, and the room it
    /// reserved given back.
    pub open spec fn drop_layer(self, key: ClientObjectId) -> Self {
        if self.layers.layer_surfaces.has(key) {
            let l = self.layers.layer_surfaces.at(key);
            StateView {
                layers: LayersView {
                    layer_surfaces: self.layers.layer_surfaces.without(key),
                    surface_layer: self.layers.surface_layer.without((l.client_id, l.wl_surface_id)),
                },
                dirty: true,
                ..self
            }
        } else {
            self
        }
    }

    /// `destroy`: the panels beside it take the room it leaves.
    pub open spec fn layer_destroy(self, msg: ClientMessage) -> Self {
        let key = (msg.client_id, msg.object_id);
        self.drop_layer(key).unregister(msg.client_id, msg.object_id).resettle(self.panel_output(key))
    }
}

/// A popup that a layer surface is to take in, once it is known where it goes.
#[derive(Debug, Clone, Copy, PartialEq, Eq)]
pub struct AdoptRequest {
    pub client_id: u32,
    pub popup_id: u32,
    pub xdg_surface_id: u32,
    pub positioner_id: u32,
    /// The popup's `wl_surface`
    pub popup_wl: u32,
    /// The layer surface's `wl_surface`
    pub layer_wl: u32,
}

impl StateView {
    /// The popup a `get_popup` would have a layer surface take in: one that
    /// exists, has no parent yet, and is no ancestor of the layer surface.
    pub open spec fn adoptable(self, layer: ClientObjectId, popup_id: u32) -> Option<AdoptRequest> {
        let c = layer.0;
        if !self.layers.layer_surfaces.has(layer) || !self.win.xdg_popups.has((c, popup_id)) {
            None
        } else {
            let layer_wl = self.layers.layer_surfaces.at(layer).wl_surface_id;
            let popup = self.win.xdg_popups.at((c, popup_id));
            match self.wl_surface_of((c, popup.xdg_surface_id)) {
                None => None,
                Some(popup_wl) => if !self.surf.surfaces.has((c, popup_wl))
                    || self.surf.surfaces.at((c, popup_wl)).parent is Some || self.ancestor(c, popup_wl, layer_wl) {
                    None
                } else {
                    Some(
                        AdoptRequest {
                            client_id: c,
                            popup_id,
                            xdg_surface_id: popup.xdg_surface_id,
                            positioner_id: popup.positioner,
                            popup_wl,
                            layer_wl,
                        },
                    )
                },
            }
        }
    }

    /// With a popup where it goes.
    pub open spec fn move_popup(self, key: ClientObjectId, at: (i32, i32, i32, i32)) -> Self {
        StateView {
            win: WindowsView {
                xdg_popups: self.win.xdg_popups.edit(
                    key,
                    |p: XdgPopupState| XdgPopupState { x: at.0, y: at.1, width: at.2, height: at.3, ..p },
                ),
                ..self.win
            },
            ..self
        }
    }

    /// With a surface's parent set, and nothing else of it.
    pub open spec fn set_parent(self, key: ClientObjectId, parent: u32) -> Self {
        StateView {
            surf: SurfacesView {
                surfaces: self.surf.surfaces.edit(key, |s: SurfaceView| SurfaceView { parent: Some(parent), ..s }),
                ..self.surf
            },
            ..self
        }
    }

    /// With a popup linked under the layer surface that takes it in.
    pub open spec fn adopt_popup(self, q: AdoptRequest) -> Self {
        self.set_parent((q.client_id, q.popup_wl), q.layer_wl).push_child(q.client_id, q.layer_wl, q.popup_wl)
    }

    /// With a popup that was taken in put where it goes, and configured.
    pub open spec fn finish_adopt(self, q: AdoptRequest, at: (i32, i32, i32, i32)) -> Self {
        self.set_subsurface_position((q.client_id, q.popup_wl), clamped_offset(at.0, at.1)).move_popup(
            (q.client_id, q.popup_id),
            at,
        ).configure_popup(q.client_id, q.popup_id, q.xdg_surface_id, at).dirtied()
    }

    /// Any request on a layer surface but one for a popup.
    pub open spec fn layer_request(self, msg: ClientMessage) -> Self {
        if msg.op_code == 0 {
            self.layer_set_size(msg)
        } else if msg.op_code == 1 {
            self.layer_set_anchor(msg)
        } else if msg.op_code == 2 {
            self.layer_set_exclusive_zone(msg)
        } else if msg.op_code == 3 {
            self.layer_set_margin(msg)
        } else if msg.op_code == 4 {
            self.layer_set_interactivity(msg)
        } else if msg.op_code == 6 {
            self.layer_ack_configure(msg)
        } else if msg.op_code == 7 {
            self.layer_destroy(msg)
        } else if msg.op_code == 8 {
            self.layer_set_layer(msg)
        } else {
            self.reject_unknown(msg, "zwlr_layer_surface_v1"@)
        }
    }
}

impl CompositorState {
    fn set_layer_pending(&mut self, key: ClientObjectId, p: LayerSurfaceStatePending)
        ensures
            final(self)@ == old(self)@.set_layer_pending(key, p),
    {
        if let Some(l) = self.layers.layer_surfaces.get_mut(key) {
            l.pending = p;
        }
    }

    fn layer_acked(&mut self, key: ClientObjectId, serial: u32)
        ensures
            final(self)@ == old(self)@.layer_acked(key, serial),
    {
        if let Some(l) = self.layers.layer_surfaces.get_mut(key) {
            if let Some(at) = position(&l.pending_configures, serial) {
                drop_through(&mut l.pending_configures, at);
                l.configured = true;
            }
        }
    }

    fn drop_layer(&mut self, key: ClientObjectId)
        ensures
            final(self)@ == old(self)@.drop_layer(key),
    {
        let surface: ClientObjectId = match self.layers.layer_surfaces.get(key) {
            Some(l) => (l.client_id, l.wl_surface_id),
            None => {
                return;
            },
        };
        let _ = self.layers.layer_surfaces.remove(key);
        let _ = self.layers.surface_layer.remove(surface);
        self.dirty = true;
    }
}

fn adoptable(state: &CompositorState, layer: ClientObjectId, popup_id: u32) -> (r: Option<AdoptRequest>)
    ensures
        r == state@.adoptable(layer, popup_id),
{
    let c: u32 = layer.0;
    let layer_wl: u32 = match state.layers.layer_surfaces.get(layer) {
        Some(l) => l.wl_surface_id,
        None => {
            return None;
        },
    };
    let popup: XdgPopupState = match state.win.xdg_popups.get((c, popup_id)) {
        Some(p) => *p,
        None => {
            return None;
        },
    };
    let popup_wl: u32 = match state.win.xdg_surfaces.get((c, popup.xdg_surface_id)) {
        Some(x) => x.wl_surface_id,
        None => {
            return None;
        },
    };
    let free: bool = match state.surf.surfaces.get((c, popup_wl)) {
        Some(s) => s.parent.is_none(),
        None => false,
    };
    if !free || state.is_ancestor(c, popup_wl, layer_wl) {
        return None;
    }
    Some(
        AdoptRequest {
            client_id: c,
            popup_id,
            xdg_surface_id: popup.xdg_surface_id,
            positioner_id: popup.positioner,
            popup_wl,
            layer_wl,
        },
    )
}

fn set_parent(state: &mut CompositorState, key: ClientObjectId, parent: u32)
    ensures
        final(state)@ == old(state)@.set_parent(key, parent),
{
    if let Some(s) = state.surf.surfaces.get_mut(key) {
        s.parent = Some(parent);
    }
}

fn move_popup(state: &mut CompositorState, key: ClientObjectId, at: (i32, i32, i32, i32))
    ensures
        final(state)@ == old(state)@.move_popup(key, at),
{
    if let Some(p) = state.win.xdg_popups.get_mut(key) {
        p.x = at.0;
        p.y = at.1;
        p.width = at.2;
        p.height = at.3;
    }
}

/// `get_popup`: hang an `xdg_popup` off this layer surface.
///
/// How a panel opens a menu. The popup was created with no parent of its own,
/// and this is what gives it one. A popup is adopted once, and never so as to
/// close a loop. What is left is to place it.
pub fn start_adopt_popup(state: &mut CompositorState, msg: &ClientMessage) -> (r: Option<AdoptRequest>)
    ensures
        match msg.word(0) {
            None => r is None && final(state)@ == old(state)@.reject_malformed(*msg, "zwlr_layer_surface_v1"@),
            Some(popup_id) => r == old(state)@.adoptable((msg.client_id, msg.object_id), popup_id) && final(state)@
                == match r {
                Some(q) => old(state)@.adopt_popup(q),
                None => old(state)@,
            },
        },
{
    let popup_id: u32 = match msg.unsigned(0) {
        Some(id) => id,
        None => {
            reject_malformed_request(state, msg, "zwlr_layer_surface_v1");
            return None;
        },
    };
    match adoptable(state, (msg.client_id, msg.object_id), popup_id) {
        None => None,
        Some(q) => {
            set_parent(state, (q.client_id, q.popup_wl), q.layer_wl);
            push_child(state, q.client_id, q.layer_wl, q.popup_wl);
            Some(q)
        },
    }
}

/// Put a popup that a layer surface has taken in where it goes.
///
/// Now that it has a parent it can be placed and configured, which `get_popup`
/// on the `xdg_surface` could not do.
pub fn finish_adopt_popup(state: &mut CompositorState, q: &AdoptRequest, at: (i32, i32, i32, i32))
    ensures
        final(state)@ == old(state)@.finish_adopt(*q, at),
{
    set_subsurface_position(state, (q.client_id, q.popup_wl), clamp_surface_offset(at.0, at.1));
    move_popup(state, (q.client_id, q.popup_id), at);
    configure_popup(state, q.client_id, q.popup_id, q.xdg_surface_id, at);
    state.dirty = true;
}

/// Handle any request. A popup that was taken in is returned, for it to be
/// placed and [`finish_adopt_popup`] to be told.
pub fn handle(state: &mut CompositorState, msg: &ClientMessage) -> (r: Option<AdoptRequest>)
    ensures
        msg.op_code != 5 ==> r is None && final(state)@ == old(state)@.layer_request(*msg),
        msg.op_code == 5 ==> match msg.word(0) {
            None => r is None && final(state)@ == old(state)@.reject_malformed(*msg, "zwlr_layer_surface_v1"@),
            Some(popup_id) => r == old(state)@.adoptable((msg.client_id, msg.object_id), popup_id) && final(state)@
                == match r {
                Some(q) => old(state)@.adopt_popup(q),
                None => old(state)@,
            },
        },
{
    match msg.op_code {
        0 => set_size(state, msg),
        1 => set_anchor(state, msg),
        2 => set_exclusive_zone(state, msg),
        3 => set_margin(state, msg),
        4 => set_keyboard_interactivity(state, msg),
        5 => {
            return start_adopt_popup(state, msg);
        },
        6 => ack_configure(state, msg),
        7 => destroy(state, msg),
        8 => set_layer(state, msg),
        _ => reject_unknown_request(state, msg, "zwlr_layer_surface_v1"),
    }
    None
}

} // verus!
