//! The xdg objects: what wraps what, and how they come and go.
use crate::state::compositor_state::{CompositorState, InputsView, StateView, WindowsView};
use crate::state::serials::{newest, push_newest};
use crate::state::types::{
    ClientObjectId, DecorationState, Hook, ResizeAnchor, same_key, same_opt_key, XdgPopupState,
    XdgPositionerState, XdgRole, XdgSurfaceState, XdgSurfaceStateView, XdgToplevelState,
    XdgToplevelStateView,
};
use vstd::prelude::*;

verus! {

/// How many unacknowledged configures a surface may accumulate
pub const MAX_PENDING_CONFIGURES: usize = 256;

/// A key, unless it is one that is gone.
pub open spec fn key_unless(k: Option<ClientObjectId>, gone: ClientObjectId) -> Option<ClientObjectId> {
    if k == Some(gone) {
        None
    } else {
        k
    }
}

/// A key, unless it is one that is gone.
pub fn drop_key(k: Option<ClientObjectId>, gone: ClientObjectId) -> (r: Option<ClientObjectId>)
    ensures
        r == key_unless(k, gone),
{
    if same_opt_key(k, Some(gone)) {
        None
    } else {
        k
    }
}

/// An anchor, unless it is of a surface that is gone.
pub open spec fn anchor_unless(a: Option<ResizeAnchor>, gone: ClientObjectId) -> Option<ResizeAnchor> {
    match a {
        Some(x) => if x.surface == gone {
            None
        } else {
            Some(x)
        },
        None => None,
    }
}

/// An anchor, unless it is of a surface that is gone.
pub fn drop_anchor(a: Option<ResizeAnchor>, gone: ClientObjectId) -> (r: Option<ResizeAnchor>)
    ensures
        r == anchor_unless(a, gone),
{
    match a {
        Some(x) => if same_key(x.surface, gone) {
            None
        } else {
            Some(x)
        },
        None => None,
    }
}

impl StateView {
    /// The `xdg_surface` wrapping a `wl_surface`, if it has one.
    pub open spec fn xdg_surface_of(self, surface: ClientObjectId) -> Option<ClientObjectId> {
        self.win.xdg_surfaces.first_where(
            |k: ClientObjectId, x: XdgSurfaceStateView| k.0 == surface.0 && x.wl_surface_id == surface.1,
        )
    }

    /// The `xdg_toplevel` driving a window, given its `wl_surface`.
    pub open spec fn toplevel_for_surface(self, surface: ClientObjectId) -> Option<ClientObjectId> {
        match self.xdg_surface_of(surface) {
            None => None,
            Some(k) => match self.win.xdg_surfaces.at(k).role {
                Some(XdgRole::Toplevel(id)) => Some((k.0, id)),
                _ => None,
            },
        }
    }

    /// The `wl_surface` a toplevel draws into.
    pub open spec fn surface_of_toplevel(self, toplevel: ClientObjectId) -> Option<ClientObjectId> {
        if self.win.xdg_toplevels.has(toplevel) && self.win.xdg_surfaces.has(
            (toplevel.0, self.win.xdg_toplevels.at(toplevel).xdg_surface_id),
        ) {
            Some(
                (
                    toplevel.0,
                    self.win.xdg_surfaces.at((toplevel.0, self.win.xdg_toplevels.at(toplevel).xdg_surface_id)).wl_surface_id,
                ),
            )
        } else {
            None
        }
    }

    /// With a configure serial noted as sent.
    pub open spec fn record_configure(self, xdg_surface: ClientObjectId, serial: u32) -> Self {
        StateView { win: WindowsView { xdg_surfaces: self.win.xdg_surfaces.edit(
                xdg_surface,
                |x: XdgSurfaceStateView|
                    XdgSurfaceStateView {
                        pending_configures: newest(x.pending_configures.push(serial), MAX_PENDING_CONFIGURES as int),
                        highest_configure: serial,
                        ..x
                    },
            ), ..self.win }, ..self }
    }

    /// The layer surface giving a `wl_surface` its role, if one does.
    pub open spec fn layer_surface_of(self, surface: ClientObjectId) -> Option<ClientObjectId> {
        if self.layers.surface_layer.has(surface) {
            Some((surface.0, self.layers.surface_layer.at(surface)))
        } else {
            None
        }
    }

    /// Whether a surface already has a role, of any of the five kinds.
    pub open spec fn has_role(self, surface: ClientObjectId) -> bool {
        ||| self.surf.cursor_role_surfaces.contains(surface)
        ||| self.surf.dnd_icon_surfaces.contains(surface)
        ||| self.layers.surface_layer.has(surface)
        ||| self.xdg_surface_of(surface) is Some
        ||| self.surf.surfaces.has(surface) && self.surf.surfaces.at(surface).is_subsurface
    }

    /// Whether a window is filling or covering its output.
    pub open spec fn window_state_locked(self, surface: ClientObjectId) -> bool {
        match self.toplevel_for_surface(surface) {
            Some(k) => self.win.xdg_toplevels.has(k) && (self.win.xdg_toplevels.at(k).maximized
                || self.win.xdg_toplevels.at(k).fullscreen),
            None => false,
        }
    }

    /// The size range a client has said it will accept.
    pub open spec fn client_size_limits(self, surface: ClientObjectId) -> ((i32, i32), (i32, i32)) {
        match self.toplevel_for_surface(surface) {
            Some(k) => if self.win.xdg_toplevels.has(k) {
                (self.win.xdg_toplevels.at(k).min_size, self.win.xdg_toplevels.at(k).max_size)
            } else {
                ((0, 0), (0, 0))
            },
            None => ((0, 0), (0, 0)),
        }
    }

    /// With a new `xdg_surface` on a surface.
    pub open spec fn create_xdg_surface(self, client_id: u32, xdg_surface_id: u32, wl_surface_id: u32) -> Self {
        StateView { win: WindowsView { xdg_surfaces: self.win.xdg_surfaces.put(
                (client_id, xdg_surface_id),
                XdgSurfaceStateView {
                    client_id,
                    wl_surface_id,
                    role: None,
                    configured: false,
                    geometry: None,
                    pending_configures: Seq::empty(),
                    highest_configure: 0,
                },
            ), ..self.win }, ..self }
    }

    /// With an `xdg_surface` gone.
    pub open spec fn destroy_xdg_surface(self, client_id: u32, xdg_surface_id: u32) -> Self {
        StateView { win: WindowsView { xdg_surfaces: self.win.xdg_surfaces.without((client_id, xdg_surface_id)), ..self.win }, ..self }
    }

    /// The surface an `xdg_surface` shows, if there is such an object.
    pub open spec fn surface_shown(self, key: ClientObjectId) -> Option<ClientObjectId> {
        if self.win.xdg_surfaces.has(key) {
            Some((key.0, self.win.xdg_surfaces.at(key).wl_surface_id))
        } else {
            None
        }
    }

    /// With a new window on an `xdg_surface`.
    pub open spec fn create_xdg_toplevel(self, client_id: u32, toplevel_id: u32, xdg_surface_id: u32) -> Self {
        let made = StateView { win: WindowsView { xdg_toplevels: self.win.xdg_toplevels.put(
                (client_id, toplevel_id),
                XdgToplevelStateView {
                    client_id,
                    xdg_surface_id,
                    title: None,
                    app_id: None,
                    min_size: (0, 0),
                    max_size: (0, 0),
                    maximized: false,
                    fullscreen: false,
                    restore: None,
                    parent: None,
                    sent_bounds: None,
                },
            ), ..self.win }, ..self };
        let key = (client_id, xdg_surface_id);
        if self.win.xdg_surfaces.has(key) {
            StateView { win: WindowsView { xdg_surfaces: self.win.xdg_surfaces.edit(
                    key,
                    |x: XdgSurfaceStateView| XdgSurfaceStateView { role: Some(XdgRole::Toplevel(toplevel_id)), ..x },
                ), ..made.win }, ..made }.dirtied()
        } else {
            made
        }
    }

    /// With a toplevel gone, and its decoration with it.
    pub open spec fn forget_toplevel(self, key: ClientObjectId) -> Self {
        StateView {
            win: WindowsView {
                xdg_toplevels: self.win.xdg_toplevels.without(key),
                decorations: if self.win.toplevel_decoration.has(key) {
                    self.win.decorations.without((key.0, self.win.toplevel_decoration.at(key)))
                } else {
                    self.win.decorations
                },
                toplevel_decoration: self.win.toplevel_decoration.without(key),
                ..self.win
            },
            ..self
        }
    }

    /// With no anchor or focus left on a surface.
    pub open spec fn let_go_of(self, surface: ClientObjectId) -> Self {
        StateView {
            win: WindowsView { resize_anchor: anchor_unless(self.win.resize_anchor, surface), ..self.win },
            input: InputsView { focused_surface: key_unless(self.input.focused_surface, surface), ..self.input },
            ..self
        }
    }

    /// With a window gone: its decoration with it, no anchor or focus left on
    /// it, and the shell told.
    pub open spec fn destroy_xdg_toplevel(self, client_id: u32, toplevel_id: u32) -> Self {
        let key = (client_id, toplevel_id);
        let xdg_key = (client_id, self.win.xdg_toplevels.at(key).xdg_surface_id);
        if !self.win.xdg_toplevels.has(key) {
            self
        } else if self.win.xdg_surfaces.has(xdg_key) {
            let surface = (client_id, self.win.xdg_surfaces.at(xdg_key).wl_surface_id);
            self.forget_toplevel(key).let_go_of(surface).hook(Hook::ToplevelDestroyed(surface)).dirtied()
        } else {
            self.forget_toplevel(key)
        }
    }

    /// With a new popup on an `xdg_surface`.
    pub open spec fn create_xdg_popup(self, client_id: u32, popup_id: u32, popup: XdgPopupState) -> Self {
        StateView { win: WindowsView { xdg_popups: self.win.xdg_popups.put((client_id, popup_id), popup), xdg_surfaces: self.win.xdg_surfaces.edit(
                (client_id, popup.xdg_surface_id),
                |x: XdgSurfaceStateView| XdgSurfaceStateView { role: Some(XdgRole::Popup(popup_id)), ..x },
            ), ..self.win }, ..self }
    }

    /// With a decoration object on a toplevel.
    pub open spec fn create_decoration(self, client_id: u32, decoration_id: u32, toplevel_id: u32) -> Self {
        StateView { win: WindowsView { decorations: self.win.decorations.put((client_id, decoration_id), DecorationState { client_id, toplevel_id }), toplevel_decoration: self.win.toplevel_decoration.put((client_id, toplevel_id), decoration_id), ..self.win }, ..self }
    }

    /// With a decoration object gone.
    pub open spec fn destroy_decoration(self, client_id: u32, decoration_id: u32) -> Self {
        let key = (client_id, decoration_id);
        if self.win.decorations.has(key) {
            StateView { win: WindowsView { decorations: self.win.decorations.without(key), toplevel_decoration: self.win.toplevel_decoration.without((client_id, self.win.decorations.at(key).toplevel_id)), ..self.win }, ..self }
        } else {
            self
        }
    }
}

impl CompositorState {
    /// The `xdg_surface` wrapping a `wl_surface`, if it has one.
    pub fn xdg_surface_of(&self, surface: ClientObjectId) -> (r: Option<ClientObjectId>)
        ensures
            r == self@.xdg_surface_of(surface),
            match r {
                Some(k) => self@.win.xdg_surfaces.has(k),
                None => true,
            },
    {
        self.win.xdg_surfaces.first_where(
            |k: &ClientObjectId, x: &XdgSurfaceState| -> (r: bool)
                ensures r == (k.0 == surface.0 && x@.wl_surface_id == surface.1)
                { k.0 == surface.0 && x.wl_surface_id == surface.1 },
            Ghost(|k: ClientObjectId, x: XdgSurfaceStateView| k.0 == surface.0 && x.wl_surface_id == surface.1),
        )
    }

    /// The `xdg_toplevel` object driving a window, given its `wl_surface`.
    pub fn toplevel_for_surface(&self, key: ClientObjectId) -> (r: Option<ClientObjectId>)
        ensures
            r == self@.toplevel_for_surface(key),
    {
        match self.xdg_surface_of(key) {
            None => None,
            Some(k) => match self.win.xdg_surfaces.get(k) {
                Some(xdg) => match xdg.role {
                    Some(XdgRole::Toplevel(id)) => Some((k.0, id)),
                    _ => None,
                },
                None => None,
            },
        }
    }

    /// The `wl_surface` a toplevel draws into.
    pub fn surface_of_toplevel(&self, toplevel: ClientObjectId) -> (r: Option<ClientObjectId>)
        ensures
            r == self@.surface_of_toplevel(toplevel),
    {
        match self.win.xdg_toplevels.get(toplevel) {
            None => None,
            Some(t) => match self.win.xdg_surfaces.get((toplevel.0, t.xdg_surface_id)) {
                None => None,
                Some(xdg) => Some((toplevel.0, xdg.wl_surface_id)),
            },
        }
    }

    /// Note a configure serial as sent, so the acknowledgement can be checked
    /// against it.
    ///
    /// A configure sent without being recorded is one the client cannot
    /// legally acknowledge.
    pub fn record_configure(&mut self, xdg_surface: ClientObjectId, serial: u32)
        ensures
            final(self)@ == old(self)@.record_configure(xdg_surface, serial),
    {
        if let Some(xdg) = self.win.xdg_surfaces.get_mut(xdg_surface) {
            push_newest(&mut xdg.pending_configures, serial, MAX_PENDING_CONFIGURES);
            xdg.highest_configure = serial;
        }
    }

    /// Whether a surface already has a role.
    ///
    /// A `wl_surface` gets one role and keeps it for life, and the protocol
    /// makes a second one an error on whichever request asked for it.
    pub fn has_role(&self, surface: ClientObjectId) -> (r: bool)
        ensures
            r == self@.has_role(surface),
    {
        self.surf.cursor_role_surfaces.contains(surface) || self.surf.dnd_icon_surfaces.contains(surface)
            || self.layers.surface_layer.contains(surface) || self.xdg_surface_of(surface).is_some()
            || match self.surf.surfaces.get(surface) {
            Some(s) => s.is_subsurface,
            None => false,
        }
    }

    /// The layer surface giving a `wl_surface` its role, if one does.
    pub fn layer_surface_of(&self, surface: ClientObjectId) -> (r: Option<ClientObjectId>)
        ensures
            r == self@.layer_surface_of(surface),
    {
        match self.layers.surface_layer.get(surface) {
            Some(id) => Some((surface.0, *id)),
            None => None,
        }
    }

    /// Whether a window is filling or covering its output, and so should not be
    /// dragged, resized, or confined as an ordinary window.
    pub fn is_window_state_locked(&self, surface: ClientObjectId) -> (r: bool)
        ensures
            r == self@.window_state_locked(surface),
    {
        match self.toplevel_for_surface(surface) {
            Some(k) => match self.win.xdg_toplevels.get(k) {
                Some(t) => t.maximized || t.fullscreen,
                None => false,
            },
            None => false,
        }
    }

    /// The size range a client has said it will accept.
    ///
    /// Returns `((min_w, min_h), (max_w, max_h))`, where a zero means the
    /// client named no limit in that dimension.
    pub fn client_size_limits(&self, surface: ClientObjectId) -> (r: ((i32, i32), (i32, i32)))
        ensures
            r == self@.client_size_limits(surface),
    {
        match self.toplevel_for_surface(surface) {
            Some(k) => match self.win.xdg_toplevels.get(k) {
                Some(t) => (t.min_size, t.max_size),
                None => ((0, 0), (0, 0)),
            },
            None => ((0, 0), (0, 0)),
        }
    }

    pub fn create_xdg_surface(&mut self, client_id: u32, xdg_surface_id: u32, wl_surface_id: u32)
        ensures
            final(self)@ == old(self)@.create_xdg_surface(client_id, xdg_surface_id, wl_surface_id),
    {
        let xdg = XdgSurfaceState {
            client_id,
            wl_surface_id,
            role: None,
            configured: false,
            geometry: None,
            pending_configures: Vec::new(),
            highest_configure: 0,
        };
        proof {
            assert(xdg@.pending_configures =~= Seq::<u32>::empty());
        }
        self.win.xdg_surfaces.insert((client_id, xdg_surface_id), xdg);
    }

    pub fn destroy_xdg_surface(&mut self, client_id: u32, xdg_surface_id: u32)
        ensures
            final(self)@ == old(self)@.destroy_xdg_surface(client_id, xdg_surface_id),
    {
        let _ = self.win.xdg_surfaces.remove((client_id, xdg_surface_id));
    }

    /// Make a window of an `xdg_surface`, and say which surface it shows.
    ///
    /// Where the window opens, and whether it opens anywhere at all yet, is the
    /// shell's decision. It is to be told of the surface before the initial
    /// configure goes out, so the bounds sent with it describe the output chosen.
    pub fn create_xdg_toplevel(
        &mut self,
        client_id: u32,
        toplevel_id: u32,
        xdg_surface_id: u32,
    ) -> (r: Option<ClientObjectId>)
        ensures
            final(self)@ == old(self)@.create_xdg_toplevel(client_id, toplevel_id, xdg_surface_id),
            r == old(self)@.surface_shown((client_id, xdg_surface_id)),
    {
        self.win.xdg_toplevels.insert(
            (client_id, toplevel_id),
            XdgToplevelState {
                client_id,
                xdg_surface_id,
                title: None,
                app_id: None,
                min_size: (0, 0),
                max_size: (0, 0),
                maximized: false,
                fullscreen: false,
                restore: None,
                parent: None,
                sent_bounds: None,
            },
        );
        let surface: ClientObjectId = match self.win.xdg_surfaces.get_mut((client_id, xdg_surface_id)) {
            None => {
                return None;
            },
            Some(xdg) => {
                xdg.role = Some(XdgRole::Toplevel(toplevel_id));
                (client_id, xdg.wl_surface_id)
            },
        };
        self.dirty = true;
        Some(surface)
    }

    pub fn destroy_xdg_toplevel(&mut self, client_id: u32, toplevel_id: u32)
        ensures
            final(self)@ == old(self)@.destroy_xdg_toplevel(client_id, toplevel_id),
    {
        let key = (client_id, toplevel_id);
        let xdg_surface_id: u32 = match self.win.xdg_toplevels.get(key) {
            Some(toplevel) => toplevel.xdg_surface_id,
            None => {
                return;
            },
        };
        let surface: Option<ClientObjectId> = match self.win.xdg_surfaces.get((client_id, xdg_surface_id)) {
            Some(xdg) => Some((client_id, xdg.wl_surface_id)),
            None => None,
        };
        self.forget_toplevel(key);
        if let Some(surface) = surface {
            self.let_go_of(surface);
            self.hook(Hook::ToplevelDestroyed(surface));
            self.dirty = true;
        }
    }

    fn forget_toplevel(&mut self, key: ClientObjectId)
        ensures
            final(self)@ == old(self)@.forget_toplevel(key),
    {
        let _ = self.win.xdg_toplevels.remove(key);
        if let Some(decoration_id) = self.win.toplevel_decoration.remove(key) {
            let _ = self.win.decorations.remove((key.0, decoration_id));
        }
    }

    fn let_go_of(&mut self, surface: ClientObjectId)
        ensures
            final(self)@ == old(self)@.let_go_of(surface),
    {
        self.win.resize_anchor = drop_anchor(self.win.resize_anchor, surface);
        self.input.focused_surface = drop_key(self.input.focused_surface, surface);
    }

    pub fn create_xdg_popup(&mut self, client_id: u32, popup_id: u32, popup: XdgPopupState)
        ensures
            final(self)@ == old(self)@.create_xdg_popup(client_id, popup_id, popup),
    {
        self.win.xdg_popups.insert((client_id, popup_id), popup);
        if let Some(xdg) = self.win.xdg_surfaces.get_mut((client_id, popup.xdg_surface_id)) {
            xdg.role = Some(XdgRole::Popup(popup_id));
        }
    }

    pub fn destroy_xdg_popup(&mut self, client_id: u32, popup_id: u32)
        ensures
            final(self)@ == (StateView { win: WindowsView { xdg_popups: old(self)@.win.xdg_popups.without((client_id, popup_id)), ..old(self)@.win }, ..old(self)@ }),
    {
        let _ = self.win.xdg_popups.remove((client_id, popup_id));
    }

    pub fn create_xdg_positioner(&mut self, client_id: u32, positioner_id: u32)
        ensures
            final(self)@ == (StateView { win: WindowsView { xdg_positioners: old(self)@.win.xdg_positioners.put(
                    (client_id, positioner_id),
                    XdgPositionerState::fresh(client_id),
                ), ..old(self)@.win }, ..old(self)@ }),
    {
        self.win.xdg_positioners.insert((client_id, positioner_id), XdgPositionerState::new(client_id));
    }

    pub fn destroy_xdg_positioner(&mut self, client_id: u32, positioner_id: u32)
        ensures
            final(self)@ == (StateView { win: WindowsView { xdg_positioners: old(self)@.win.xdg_positioners.without((client_id, positioner_id)), ..old(self)@.win }, ..old(self)@ }),
    {
        let _ = self.win.xdg_positioners.remove((client_id, positioner_id));
    }

    pub fn create_decoration(&mut self, client_id: u32, decoration_id: u32, toplevel_id: u32)
        ensures
            final(self)@ == old(self)@.create_decoration(client_id, decoration_id, toplevel_id),
    {
        self.win.decorations.insert((client_id, decoration_id), DecorationState { client_id, toplevel_id });
        self.win.toplevel_decoration.insert((client_id, toplevel_id), decoration_id);
    }

    pub fn destroy_decoration(&mut self, client_id: u32, decoration_id: u32)
        ensures
            final(self)@ == old(self)@.destroy_decoration(client_id, decoration_id),
    {
        self.win.decorations.known();
        if let Some(dec) = self.win.decorations.remove((client_id, decoration_id)) {
            let _ = self.win.toplevel_decoration.remove((client_id, dec.toplevel_id));
        } else {
            proof {
                old(self)@.win.decorations.lemma_without_absent((client_id, decoration_id));
            }
        }
    }
}

} // verus!
