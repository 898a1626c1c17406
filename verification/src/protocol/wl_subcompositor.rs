//! `wl_subcompositor` protocol handler.
//!
//! The subcompositor global lets clients create subsurfaces - child surfaces
//! positioned relative to a parent and composited together with it.
use crate::protocol::{ObjectType, reject_unknown_request};
use crate::protocol::wire_utils::ClientMessage;
use crate::state::compositor_state::{CompositorState, StateView, SurfacesView};
use crate::state::types::{ClientObjectId, SurfaceView};
use vstd::prelude::*;
use vstd::string::*;

verus! {

/// `wl_subcompositor.error.bad_parent`
pub const ERROR_BAD_PARENT: u32 = 1;

impl StateView {
    /// With a surface made a synchronised subsurface of a parent.
    pub open spec fn make_subsurface(self, client_id: u32, surface_id: u32, parent_id: u32) -> Self {
        StateView {
            surf: SurfacesView {
                surfaces: self.surf.surfaces.edit(
                    (client_id, surface_id),
                    |s: SurfaceView|
                        SurfaceView { parent: Some(parent_id), is_subsurface: true, subsurface_sync: true, ..s },
                ),
                ..self.surf
            },
            ..self
        }
    }

    /// With a surface on top of a parent's children.
    pub open spec fn push_child(self, client_id: u32, parent_id: u32, child: u32) -> Self {
        StateView {
            surf: SurfacesView {
                surfaces: self.surf.surfaces.edit(
                    (client_id, parent_id),
                    |s: SurfaceView| SurfaceView { children: s.children.push(child), ..s },
                ),
                ..self.surf
            },
            ..self
        }
    }

    /// With a subsurface object standing for a surface.
    pub open spec fn put_subsurface(self, sub: ClientObjectId, surface_id: u32) -> Self {
        StateView {
            surf: SurfacesView { subsurface_map: self.surf.subsurface_map.put(sub, surface_id), ..self.surf },
            ..self
        }
    }

    /// `get_subsurface`: refused for a surface that has a role already, and for
    /// a parent that the surface is an ancestor of.
    pub open spec fn get_subsurface(self, msg: ClientMessage) -> Self {
        let c = msg.client_id;
        if !self.clients.has(c) {
            self
        } else {
            match (msg.word(0), msg.word(1), msg.word(2)) {
                (Some(sub), Some(id), Some(parent)) => if self.surf.cursor_role_surfaces.contains((c, id)) {
                    self.fail(
                        c,
                        msg.object_id,
                        0,
                        "wl_subcompositor.get_subsurface: surface already has cursor role"@,
                    )
                } else if self.surf.dnd_icon_surfaces.contains((c, id)) {
                    self.fail(
                        c,
                        msg.object_id,
                        0,
                        "wl_subcompositor.get_subsurface: surface already has drag icon role"@,
                    )
                } else if self.has_role((c, id)) {
                    self.fail(
                        c,
                        msg.object_id,
                        0,
                        "wl_subcompositor.get_subsurface: surface already has another role"@,
                    )
                } else if self.ancestor(c, id, parent) {
                    self.fail(
                        c,
                        msg.object_id,
                        ERROR_BAD_PARENT,
                        "wl_subcompositor.get_subsurface: parent is a descendant of the surface"@,
                    )
                } else {
                    let named = self.register_at(
                        c,
                        sub,
                        ObjectType::WlSubsurface,
                        self.object_version((c, msg.object_id)),
                    );
                    if self.may_register(c, sub) {
                        named.make_subsurface(c, id, parent).push_child(c, parent, id).put_subsurface((c, sub), id)
                    } else {
                        named
                    }
                },
                _ => self.fail(c, msg.object_id, 0, "wl_subcompositor.get_subsurface: malformed args"@),
            }
        }
    }

    /// Any request on a subcompositor.
    pub open spec fn subcompositor_request(self, msg: ClientMessage) -> Self {
        if msg.op_code == 0 {
            self.unregister(msg.client_id, msg.object_id)
        } else if msg.op_code == 1 {
            self.get_subsurface(msg)
        } else {
            self.reject_unknown(msg, "wl_subcompositor"@)
        }
    }
}

fn make_subsurface(state: &mut CompositorState, client_id: u32, surface_id: u32, parent_id: u32)
    ensures
        final(state)@ == old(state)@.make_subsurface(client_id, surface_id, parent_id),
{
    if let Some(s) = state.surf.surfaces.get_mut((client_id, surface_id)) {
        s.parent = Some(parent_id);
        s.is_subsurface = true;
        s.subsurface_sync = true;
    }
}

/// Put a surface on top of a parent's children.
pub fn push_child(state: &mut CompositorState, client_id: u32, parent_id: u32, child: u32)
    ensures
        final(state)@ == old(state)@.push_child(client_id, parent_id, child),
{
    if let Some(s) = state.surf.surfaces.get_mut((client_id, parent_id)) {
        s.children.push(child);
    }
}

/// Make a surface a subsurface of another.
///
/// A surface keeps the role it has for life, whichever of the five kinds it is,
/// so one that has a role is refused. A surface may not end up its own ancestor,
/// and a rejected id must not leave a half-built parent-child relationship
/// behind, so the object is registered before any surface is touched. A
/// subsurface starts synchronised.
fn handle_get_subsurface(state: &mut CompositorState, msg: &ClientMessage)
    ensures
        final(state)@ == old(state)@.get_subsurface(*msg),
{
    let c: u32 = msg.client_id;
    if state.clients.peek(c).is_none() {
        return;
    }
    let (sub, id, parent): (u32, u32, u32) = match (msg.unsigned(0), msg.unsigned(1), msg.unsigned(2)) {
        (Some(sub), Some(id), Some(parent)) => (sub, id, parent),
        _ => {
            state.fail(c, msg.object_id, 0, String::from_str("wl_subcompositor.get_subsurface: malformed args"));
            return;
        },
    };
    if state.surf.cursor_role_surfaces.contains((c, id)) {
        state.fail(
            c,
            msg.object_id,
            0,
            String::from_str("wl_subcompositor.get_subsurface: surface already has cursor role"),
        );
        return;
    }
    if state.surf.dnd_icon_surfaces.contains((c, id)) {
        state.fail(
            c,
            msg.object_id,
            0,
            String::from_str("wl_subcompositor.get_subsurface: surface already has drag icon role"),
        );
        return;
    }
    if state.has_role((c, id)) {
        state.fail(
            c,
            msg.object_id,
            0,
            String::from_str("wl_subcompositor.get_subsurface: surface already has another role"),
        );
        return;
    }
    if state.is_ancestor(c, id, parent) {
        state.fail(
            c,
            msg.object_id,
            ERROR_BAD_PARENT,
            String::from_str("wl_subcompositor.get_subsurface: parent is a descendant of the surface"),
        );
        return;
    }
    let version = state.object_version((c, msg.object_id));
    if !state.register_at(c, sub, ObjectType::WlSubsurface, version) {
        return;
    }
    make_subsurface(state, c, id, parent);
    push_child(state, c, parent, id);
    state.surf.subsurface_map.insert((c, sub), id);
}

pub fn handle(state: &mut CompositorState, msg: &ClientMessage)
    ensures
        final(state)@ == old(state)@.subcompositor_request(*msg),
{
    match msg.op_code {
        0 => state.unregister(msg.client_id, msg.object_id),
        1 => handle_get_subsurface(state, msg),
        _ => reject_unknown_request(state, msg, "wl_subcompositor"),
    }
}

} // verus!
