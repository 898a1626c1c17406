//! `xdg_surface` protocol handler.
//!
//! An `xdg_surface` wraps a `wl_surface` and adds window-management semantics.
//! Clients assign a role (toplevel or popup) and must ack configure events
//! before committing content.
use crate::input::focus::switch_focus;
use crate::protocol::{next_serial, ObjectType, reject_malformed_request, reject_unknown_request};
use crate::protocol::messages::{build_message, event, Notice, one_arg};
use crate::protocol::wire_utils::{ArgView, ClientMessage};
use crate::protocol::wl_subcompositor::push_child;
use crate::protocol::zwlr_layer_surface::drop_through;
use crate::seqs::position;
use crate::state::compositor_state::{CompositorState, StateView, SurfacesView, WindowsView};
use crate::state::types::{
    clamp_surface_offset, clamped_offset, ClientObjectId, SurfaceView, XdgPopupState,
    XdgSurfaceStateView,
};
use crate::text::{decimal, with_number};
use vstd::prelude::*;
use vstd::string::*;

verus! {

/// `configure`
pub const XDG_CONFIGURE: u16 = 0;

/// `xdg_wm_base.error.invalid_popup_parent`. Defined on `xdg_wm_base` rather
/// than on `xdg_surface`, but raised from here because this is the only
/// request that can name a popup's parent.
pub const ERROR_INVALID_POPUP_PARENT: u32 = 3;

/// The serial acknowledged names a configure that was never sent.
pub const ERROR_INVALID_SERIAL: u32 = 4;

/// Where a popup goes for want of anything to place it by.
pub const UNPLACED: (i32, i32, i32, i32) = (0, 0, 1, 1);

/// A popup that is to be made, once it is known where it goes.
#[derive(Debug, Clone, Copy, PartialEq, Eq)]
pub struct PopupRequest {
    pub client_id: u32,
    /// The `xdg_surface` that becomes a popup
    pub xdg_surface_id: u32,
    pub popup_id: u32,
    pub parent_xdg_surface_id: u32,
    pub positioner_id: u32,
    /// The popup's `wl_surface` and its parent's, if it has a parent yet
    pub parented: Option<(u32, u32)>,
}

/// A window that has been made, and is to be configured once the shell has been
/// told of it.
#[derive(Debug, Clone, Copy, PartialEq, Eq)]
pub struct ToplevelRequest {
    pub client_id: u32,
    /// The `xdg_surface` that has become a window
    pub xdg_surface_id: u32,
    pub toplevel_id: u32,
    /// The surface the shell is to be told of, if there is one
    pub surface: Option<ClientObjectId>,
}

/// What is left to do about a request on an `xdg_surface`.
#[derive(Debug, Clone, Copy, PartialEq, Eq)]
pub enum XdgStep {
    /// Tell the shell of a window, and finish making it
    Toplevel(ToplevelRequest),
    /// Place a popup, and finish making it
    Popup(PopupRequest),
}

/// A buffer was committed before any configure was acknowledged.
pub const ERROR_UNCONFIGURED_BUFFER: u32 = 3;

impl StateView {
    /// Whether a surface is allowed to show content yet: the layer surface or
    /// `xdg_surface` that gives it its role has had a configure acknowledged,
    /// or it has neither.
    pub open spec fn may_show(self, surface: ClientObjectId) -> bool {
        match self.layer_surface_of(surface) {
            Some(k) => self.layers.layer_surfaces.has(k) && self.layers.layer_surfaces.at(k).configured,
            None => match self.xdg_surface_of(surface) {
                Some(k) => self.win.xdg_surfaces.has(k) && self.win.xdg_surfaces.at(k).configured,
                None => true,
            },
        }
    }

    /// After a buffer was committed to a surface: a window's client is told it
    /// may not have been.
    pub open spec fn check_configured(self, surface: ClientObjectId) -> Self {
        if self.may_show(surface) || self.layer_surface_of(surface) is Some {
            self
        } else {
            self.fail(
                surface.0,
                (self.xdg_surface_of(surface)->0).1,
                ERROR_UNCONFIGURED_BUFFER,
                "xdg_surface: a buffer was committed before a configure was acknowledged"@,
            )
        }
    }

    /// With an `xdg_surface` sent a configure, whose serial is remembered.
    pub open spec fn send_configure(self, client_id: u32, xdg_surface_id: u32) -> Self {
        let serial = self.next_serial;
        self.serial_taken().record_configure((client_id, xdg_surface_id), serial).tell(
            client_id,
            event(xdg_surface_id, XDG_CONFIGURE, seq![ArgView::Uint(serial)]),
        )
    }
}

impl StateView {
    /// `destroy`
    pub open spec fn xdg_destroy(self, msg: ClientMessage) -> Self {
        self.destroy_xdg_surface(msg.client_id, msg.object_id).unregister(msg.client_id, msg.object_id)
    }

    /// The window a request asks for, if it can be made.
    pub open spec fn toplevel_request(self, msg: ClientMessage) -> Option<ToplevelRequest> {
        match msg.word(0) {
            Some(id) => if self.clients.has(msg.client_id) && self.may_register(msg.client_id, id) {
                Some(
                    ToplevelRequest {
                        client_id: msg.client_id,
                        xdg_surface_id: msg.object_id,
                        toplevel_id: id,
                        surface: self.surface_shown((msg.client_id, msg.object_id)),
                    },
                )
            } else {
                None
            },
            None => None,
        }
    }

    /// `get_toplevel`, up to where the shell is told: a window of the version of
    /// its surface.
    pub open spec fn start_toplevel(self, msg: ClientMessage) -> Self {
        let c = msg.client_id;
        if !self.clients.has(c) {
            self
        } else {
            match msg.word(0) {
                None => self.fail(c, msg.object_id, 0, "xdg_surface.get_toplevel: malformed args"@),
                Some(id) => {
                    let named = self.register_at(c, id, ObjectType::XdgToplevel, self.object_version((c, msg.object_id)));
                    if !self.may_register(c, id) {
                        named
                    } else {
                        named.create_xdg_toplevel(c, id, msg.object_id)
                    }
                },
            }
        }
    }

    /// With a window that has been made told of what the compositor can do and
    /// configured, and focused.
    pub open spec fn finish_toplevel(self, q: ToplevelRequest) -> Self {
        let told = self.notice(q.client_id, Notice::ToplevelCapabilities { toplevel: q.toplevel_id }).ask_size(
            (q.client_id, q.toplevel_id),
            (0, 0),
        );
        match told.surface_shown((q.client_id, q.xdg_surface_id)) {
            Some(surface) => told.switch_focus(surface),
            None => told,
        }
    }

    /// The `wl_surface` of an `xdg_surface`, if there is such an object.
    pub open spec fn wl_surface_of(self, key: ClientObjectId) -> Option<u32> {
        if self.win.xdg_surfaces.has(key) {
            Some(self.win.xdg_surfaces.at(key).wl_surface_id)
        } else {
            None
        }
    }

    /// Which surfaces a popup is to be linked between: none yet for a null
    /// parent, which is how a layer surface's popup is made, and an error for
    /// a parent that is missing, the popup itself or below it.
    pub open spec fn popup_link(self, c: u32, xdg: u32, parent: u32) -> Result<Option<(u32, u32)>, ()> {
        match (self.wl_surface_of((c, xdg)), self.wl_surface_of((c, parent))) {
            (Some(popup_wl), Some(parent_wl)) => if self.ancestor(c, popup_wl, parent_wl) {
                Err(())
            } else {
                Ok(Some((popup_wl, parent_wl)))
            },
            (Some(_), None) => if parent == 0 {
                Ok(None)
            } else {
                Err(())
            },
            _ => Err(()),
        }
    }

    /// The popup a request asks for, if the request is in order.
    pub open spec fn popup_request(self, msg: ClientMessage) -> Option<PopupRequest> {
        match (msg.word(0), msg.word(1), msg.word(2)) {
            (Some(popup_id), Some(parent), Some(positioner_id)) => match self.popup_link(
                msg.client_id,
                msg.object_id,
                parent,
            ) {
                Ok(parented) => Some(
                    PopupRequest {
                        client_id: msg.client_id,
                        xdg_surface_id: msg.object_id,
                        popup_id,
                        parent_xdg_surface_id: parent,
                        positioner_id,
                        parented,
                    },
                ),
                Err(()) => None,
            },
            _ => None,
        }
    }

    /// After a `get_popup` that is not in order.
    pub open spec fn refuse_popup(self, msg: ClientMessage) -> Self {
        match (msg.word(0), msg.word(1), msg.word(2)) {
            (Some(_), Some(_), Some(_)) => self.fail(
                msg.client_id,
                msg.object_id,
                ERROR_INVALID_POPUP_PARENT,
                "xdg_surface.get_popup: parent is missing, the popup itself, or one of its descendants"@,
            ),
            _ => self.fail(msg.client_id, msg.object_id, 0, "xdg_surface.get_popup: malformed args"@),
        }
    }

    /// With a popup's surface under a parent's.
    pub open spec fn link_popup(self, client_id: u32, popup_wl: u32, parent_wl: u32, at: (i32, i32)) -> Self {
        StateView {
            surf: SurfacesView {
                surfaces: self.surf.surfaces.edit(
                    (client_id, popup_wl),
                    |s: SurfaceView| SurfaceView { parent: Some(parent_wl), subsurface_position: at, ..s },
                ),
                ..self.surf
            },
            ..self
        }.push_child(client_id, parent_wl, popup_wl)
    }

    /// With a popup told where it is.
    pub open spec fn configure_popup(
        self,
        client_id: u32,
        popup_id: u32,
        xdg_surface_id: u32,
        at: (i32, i32, i32, i32),
    ) -> Self {
        self.notice(
            client_id,
            Notice::PopupConfigure { popup: popup_id, x: at.0, y: at.1, width: at.2, height: at.3 },
        ).send_configure(client_id, xdg_surface_id)
    }

    /// With a popup made where it goes. One that has a parent is linked under
    /// it and configured; one that has none yet is neither.
    pub open spec fn finish_popup(self, q: PopupRequest, at: (i32, i32, i32, i32)) -> Self {
        let c = q.client_id;
        let named = self.register_at(
            c,
            q.popup_id,
            ObjectType::XdgPopup,
            self.object_version((c, q.xdg_surface_id)),
        );
        if !self.may_register(c, q.popup_id) {
            named
        } else {
            let made = named.create_xdg_popup(
                c,
                q.popup_id,
                XdgPopupState {
                    client_id: c,
                    xdg_surface_id: q.xdg_surface_id,
                    parent_xdg_surface_id: q.parent_xdg_surface_id,
                    positioner: q.positioner_id,
                    x: at.0,
                    y: at.1,
                    width: at.2,
                    height: at.3,
                },
            );
            match q.parented {
                Some(l) => made.link_popup(c, l.0, l.1, clamped_offset(at.0, at.1)).configure_popup(
                    c,
                    q.popup_id,
                    q.xdg_surface_id,
                    at,
                ),
                None => made,
            }
        }
    }

    /// `set_window_geometry`
    pub open spec fn xdg_set_window_geometry(self, msg: ClientMessage) -> Self {
        match (msg.number(0), msg.number(1), msg.number(2), msg.number(3)) {
            (Some(x), Some(y), Some(w), Some(h)) => StateView {
                win: WindowsView {
                    xdg_surfaces: self.win.xdg_surfaces.edit(
                        (msg.client_id, msg.object_id),
                        |s: XdgSurfaceStateView| XdgSurfaceStateView { geometry: Some((x, y, w, h)), ..s },
                    ),
                    ..self.win
                },
                ..self
            },
            _ => self.reject_malformed(msg, "xdg_surface"@),
        }
    }

    /// With an `xdg_surface`'s configures acknowledged up to one.
    pub open spec fn xdg_acked(self, key: ClientObjectId, serial: u32) -> Self {
        StateView {
            win: WindowsView {
                xdg_surfaces: self.win.xdg_surfaces.edit(
                    key,
                    |x: XdgSurfaceStateView|
                        match x.pending_configures.index_of_first(serial) {
                            Some(i) => XdgSurfaceStateView {
                                pending_configures: x.pending_configures.skip(i + 1),
                                configured: true,
                                ..x
                            },
                            None => x,
                        },
                ),
                ..self.win
            },
            ..self
        }
    }

    /// `ack_configure`: acknowledging one configure acknowledges every earlier
    /// one with it. One that was never sent is an error; one already passed
    /// changes nothing.
    pub open spec fn xdg_ack_configure(self, msg: ClientMessage) -> Self {
        let key = (msg.client_id, msg.object_id);
        match msg.word(0) {
            Some(serial) => if !self.win.xdg_surfaces.has(key) {
                self
            } else if serial > self.win.xdg_surfaces.at(key).highest_configure {
                self.fail(
                    msg.client_id,
                    msg.object_id,
                    ERROR_INVALID_SERIAL,
                    "xdg_surface.ack_configure: "@ + decimal(serial as int) + " was never sent"@,
                )
            } else {
                self.xdg_acked(key, serial)
            },
            None => self.reject_malformed(msg, "xdg_surface"@),
        }
    }

    /// Any request on an `xdg_surface` but one for a window or a popup.
    pub open spec fn xdg_request(self, msg: ClientMessage) -> Self {
        if msg.op_code == 0 {
            self.xdg_destroy(msg)
        } else if msg.op_code == 3 {
            self.xdg_set_window_geometry(msg)
        } else if msg.op_code == 4 {
            self.xdg_ack_configure(msg)
        } else {
            self.reject_unknown(msg, "xdg_surface"@)
        }
    }
}

/// Check that a surface is allowed to show content yet.
///
/// A client must acknowledge a configure before it commits a buffer. The
/// configure is where the compositor says how big the window may be and what
/// state it is in, so content committed before one is content sized against
/// nothing.
///
/// Only for a surface that has an xdg or a layer role. Any other - a cursor, a
/// drag icon, a subsurface - has no configure to wait for.
pub fn check_configured_before_buffer(state: &mut CompositorState, surface: ClientObjectId) -> (r: bool)
    ensures
        r == old(state)@.may_show(surface),
        final(state)@ == old(state)@.check_configured(surface),
{
    if let Some(layer_key) = state.layer_surface_of(surface) {
        return match state.layers.layer_surfaces.get(layer_key) {
            Some(l) => l.configured,
            None => false,
        };
    }
    let xdg_key = match state.xdg_surface_of(surface) {
        Some(k) => k,
        None => {
            return true;
        },
    };
    let configured: bool = match state.win.xdg_surfaces.get(xdg_key) {
        Some(x) => x.configured,
        None => false,
    };
    if configured {
        return true;
    }
    state.fail(
        surface.0,
        xdg_key.1,
        ERROR_UNCONFIGURED_BUFFER,
        String::from_str("xdg_surface: a buffer was committed before a configure was acknowledged"),
    );
    false
}

/// Send an `xdg_surface.configure`, and remember the serial it carried.
///
/// The only thing that allocates a configure serial. Every configure the
/// compositor sends has to be one the client can legally acknowledge, and the
/// two halves - sending the serial and recording it - must not be separable.
pub fn send_configure(state: &mut CompositorState, client_id: u32, xdg_surface_id: u32)
    ensures
        final(state)@ == old(state)@.send_configure(client_id, xdg_surface_id),
{
    let serial = next_serial(state);
    state.record_configure((client_id, xdg_surface_id), serial);
    state.tell(client_id, build_message(xdg_surface_id, XDG_CONFIGURE, one_arg(serial)));
}

fn handle_destroy(state: &mut CompositorState, msg: &ClientMessage)
    ensures
        final(state)@ == old(state)@.xdg_destroy(*msg),
{
    state.destroy_xdg_surface(msg.client_id, msg.object_id);
    state.unregister(msg.client_id, msg.object_id);
}

/// Make a window of an `xdg_surface`, as far as the shell being told of it.
///
/// The `xdg_surface`'s version is carried down; without it the toplevel sits at
/// version 1 and every version-gated event on it is suppressed.
pub fn start_get_toplevel(state: &mut CompositorState, msg: &ClientMessage) -> (r: Option<ToplevelRequest>)
    ensures
        final(state)@ == old(state)@.start_toplevel(*msg),
        r == old(state)@.toplevel_request(*msg),
{
    let c: u32 = msg.client_id;
    if state.clients.peek(c).is_none() {
        return None;
    }
    let id: u32 = match msg.unsigned(0) {
        Some(id) => id,
        None => {
            state.fail(c, msg.object_id, 0, String::from_str("xdg_surface.get_toplevel: malformed args"));
            return None;
        },
    };
    let version = state.object_version((c, msg.object_id));
    if !state.register_at(c, id, ObjectType::XdgToplevel, version) {
        return None;
    }
    let surface = state.create_xdg_toplevel(c, id, msg.object_id);
    Some(ToplevelRequest { client_id: c, xdg_surface_id: msg.object_id, toplevel_id: id, surface })
}

/// Configure and focus a window that has been made, now that the shell knows of
/// it.
///
/// The capabilities go out before the first configure, because the client decides
/// what chrome to draw off the back of it. The initial configure's zero size
/// leaves the client to pick its own.
pub fn finish_get_toplevel(state: &mut CompositorState, q: &ToplevelRequest)
    ensures
        final(state)@ == old(state)@.finish_toplevel(*q),
{
    let c: u32 = q.client_id;
    state.notice(c, Notice::ToplevelCapabilities { toplevel: q.toplevel_id });
    state.ask_size((c, q.toplevel_id), (0, 0));
    let surface: Option<u32> = wl_surface_of(state, (c, q.xdg_surface_id));
    if let Some(surface) = surface {
        switch_focus(state, (c, surface));
    }
}

fn wl_surface_of(state: &CompositorState, key: ClientObjectId) -> (r: Option<u32>)
    ensures
        r == state@.wl_surface_of(key),
{
    match state.win.xdg_surfaces.get(key) {
        Some(x) => Some(x.wl_surface_id),
        None => None,
    }
}

fn popup_link(state: &CompositorState, c: u32, xdg: u32, parent: u32) -> (r: Result<Option<(u32, u32)>, ()>)
    ensures
        r == state@.popup_link(c, xdg, parent),
{
    match (wl_surface_of(state, (c, xdg)), wl_surface_of(state, (c, parent))) {
        (Some(popup_wl), Some(parent_wl)) => if state.is_ancestor(c, popup_wl, parent_wl) {
            Err(())
        } else {
            Ok(Some((popup_wl, parent_wl)))
        },
        (Some(_), None) => if parent == 0 {
            Ok(None)
        } else {
            Err(())
        },
        _ => Err(()),
    }
}

/// Look at a request for a popup: whether it is in order, and what is to be
/// made.
///
/// A null parent is legal, and is how a layer surface's popup is made: it is a
/// popup whose parent has not been named yet. A parent that was *named* and
/// does not exist is an error, as is one that is the popup itself or below it:
/// those would put a surface in its own ancestry. Refused before the popup
/// object is registered, so a rejected request leaves no half-built popup.
pub fn start_get_popup(state: &mut CompositorState, msg: &ClientMessage) -> (r: Option<PopupRequest>)
    ensures
        !old(state)@.clients.has(msg.client_id) ==> r is None && final(state)@ == old(state)@,
        old(state)@.clients.has(msg.client_id) ==> r == old(state)@.popup_request(*msg),
        r is Some ==> final(state)@ == old(state)@,
        old(state)@.clients.has(msg.client_id) && r is None ==> final(state)@ == old(state)@.refuse_popup(*msg),
{
    let c: u32 = msg.client_id;
    if state.clients.peek(c).is_none() {
        return None;
    }
    let (popup_id, parent, positioner_id): (u32, u32, u32) = match (
        msg.unsigned(0),
        msg.unsigned(1),
        msg.unsigned(2),
    ) {
        (Some(popup_id), Some(parent), Some(positioner_id)) => (popup_id, parent, positioner_id),
        _ => {
            state.fail(c, msg.object_id, 0, String::from_str("xdg_surface.get_popup: malformed args"));
            return None;
        },
    };
    match popup_link(state, c, msg.object_id, parent) {
        Ok(parented) => Some(
            PopupRequest {
                client_id: c,
                xdg_surface_id: msg.object_id,
                popup_id,
                parent_xdg_surface_id: parent,
                positioner_id,
                parented,
            },
        ),
        Err(()) => {
            state.fail(
                c,
                msg.object_id,
                ERROR_INVALID_POPUP_PARENT,
                String::from_str(
                    "xdg_surface.get_popup: parent is missing, the popup itself, or one of its descendants",
                ),
            );
            None
        },
    }
}

fn link_popup(state: &mut CompositorState, client_id: u32, popup_wl: u32, parent_wl: u32, at: (i32, i32))
    ensures
        final(state)@ == old(state)@.link_popup(client_id, popup_wl, parent_wl, at),
{
    if let Some(s) = state.surf.surfaces.get_mut((client_id, popup_wl)) {
        s.parent = Some(parent_wl);
        s.subsurface_position = at;
    }
    push_child(state, client_id, parent_wl, popup_wl);
}

/// Tell a popup where it is, and send the configure it is to acknowledge.
pub fn configure_popup(
    state: &mut CompositorState,
    client_id: u32,
    popup_id: u32,
    xdg_surface_id: u32,
    at: (i32, i32, i32, i32),
)
    ensures
        final(state)@ == old(state)@.configure_popup(client_id, popup_id, xdg_surface_id, at),
{
    state.notice(
        client_id,
        Notice::PopupConfigure { popup: popup_id, x: at.0, y: at.1, width: at.2, height: at.3 },
    );
    send_configure(state, client_id, xdg_surface_id);
}

/// Make the popup that a request asked for, where it goes.
///
/// The version is carried down for the same reason as a toplevel's. A popup
/// with no parent yet cannot be configured: its position is measured from a
/// parent it has not been given.
pub fn finish_get_popup(state: &mut CompositorState, q: &PopupRequest, at: (i32, i32, i32, i32))
    ensures
        final(state)@ == old(state)@.finish_popup(*q, at),
{
    let c: u32 = q.client_id;
    let version = state.object_version((c, q.xdg_surface_id));
    if !state.register_at(c, q.popup_id, ObjectType::XdgPopup, version) {
        return;
    }
    state.create_xdg_popup(
        c,
        q.popup_id,
        XdgPopupState {
            client_id: c,
            xdg_surface_id: q.xdg_surface_id,
            parent_xdg_surface_id: q.parent_xdg_surface_id,
            positioner: q.positioner_id,
            x: at.0,
            y: at.1,
            width: at.2,
            height: at.3,
        },
    );
    if let Some((popup_wl, parent_wl)) = q.parented {
        link_popup(state, c, popup_wl, parent_wl, clamp_surface_offset(at.0, at.1));
        configure_popup(state, c, q.popup_id, q.xdg_surface_id, at);
    }
}

fn handle_set_window_geometry(state: &mut CompositorState, msg: &ClientMessage)
    ensures
        final(state)@ == old(state)@.xdg_set_window_geometry(*msg),
{
    match (msg.signed(0), msg.signed(1), msg.signed(2), msg.signed(3)) {
        (Some(x), Some(y), Some(w), Some(h)) => {
            if let Some(s) = state.win.xdg_surfaces.get_mut((msg.client_id, msg.object_id)) {
                s.geometry = Some((x, y, w, h));
            }
        },
        _ => {
            reject_malformed_request(state, msg, "xdg_surface");
        },
    }
}

fn xdg_acked(state: &mut CompositorState, key: ClientObjectId, serial: u32)
    ensures
        final(state)@ == old(state)@.xdg_acked(key, serial),
{
    if let Some(x) = state.win.xdg_surfaces.get_mut(key) {
        if let Some(at) = position(&x.pending_configures, serial) {
            drop_through(&mut x.pending_configures, at);
            x.configured = true;
        }
    }
}

/// Take an acknowledgement.
///
/// A serial newer than anything sent names a configure that never happened.
/// One that is neither outstanding nor invented has been moved past, which is
/// ordinary and harmless.
fn handle_ack_configure(state: &mut CompositorState, msg: &ClientMessage)
    ensures
        final(state)@ == old(state)@.xdg_ack_configure(*msg),
{
    let key = (msg.client_id, msg.object_id);
    let serial: u32 = match msg.unsigned(0) {
        Some(serial) => serial,
        None => {
            reject_malformed_request(state, msg, "xdg_surface");
            return;
        },
    };
    let highest: u32 = match state.win.xdg_surfaces.get(key) {
        Some(x) => x.highest_configure,
        None => {
            return;
        },
    };
    if serial > highest {
        let text = with_number("xdg_surface.ack_configure: ", serial as i64, " was never sent");
        state.fail(msg.client_id, msg.object_id, ERROR_INVALID_SERIAL, text);
        return;
    }
    xdg_acked(state, key, serial);
}

/// Handle any request. A window that has been made is returned, for the shell to be
/// told of it and [`finish_get_toplevel`] to be called, and so is a popup that is
/// to be made, for it to be placed and [`finish_get_popup`] to be told.
pub fn handle(state: &mut CompositorState, msg: &ClientMessage) -> (r: Option<XdgStep>)
    ensures
        msg.op_code != 1 && msg.op_code != 2 ==> r is None && final(state)@ == old(state)@.xdg_request(*msg),
        msg.op_code == 1 ==> final(state)@ == old(state)@.start_toplevel(*msg) && r == match old(
            state,
        )@.toplevel_request(*msg) {
            Some(q) => Some(XdgStep::Toplevel(q)),
            None => None,
        },
        msg.op_code == 2 && !old(state)@.clients.has(msg.client_id) ==> r is None && final(state)@ == old(state)@,
        msg.op_code == 2 && old(state)@.clients.has(msg.client_id) ==> r == match old(state)@.popup_request(*msg) {
            Some(q) => Some(XdgStep::Popup(q)),
            None => None,
        } && final(state)@ == match r {
            Some(_) => old(state)@,
            None => old(state)@.refuse_popup(*msg),
        },
{
    match msg.op_code {
        0 => handle_destroy(state, msg),
        1 => {
            return match start_get_toplevel(state, msg) {
                Some(q) => Some(XdgStep::Toplevel(q)),
                None => None,
            };
        },
        2 => {
            return match start_get_popup(state, msg) {
                Some(q) => Some(XdgStep::Popup(q)),
                None => None,
            };
        },
        3 => handle_set_window_geometry(state, msg),
        4 => handle_ack_configure(state, msg),
        _ => reject_unknown_request(state, msg, "xdg_surface"),
    }
    None
}

} // verus!
