//! `wl_subsurface` protocol handler.
//!
//! Controls a subsurface's position, z-order, and commit mode relative
//! to its parent surface.
use crate::protocol::{reject_malformed_request, reject_unknown_request};
use crate::protocol::wire_utils::ClientMessage;
use crate::seqs::{copy_vec, position};
use crate::state::compositor_state::{CompositorState, StateView, SurfacesView};
use crate::state::teardown::drop_child_id;
use crate::state::types::{clamp_surface_offset, clamped_offset, ClientObjectId, SurfaceView};
use crate::table::set_without;
use vstd::prelude::*;

verus! {

/// A list of children with one of them just above another, or on top of all if
/// the other is not there.
pub open spec fn above(children: Seq<u32>, id: u32, sibling: u32) -> Seq<u32> {
    let rest = set_without(children, id);
    match rest.index_of_first(sibling) {
        Some(i) => rest.insert(i + 1, id),
        None => rest.push(id),
    }
}

/// A list of children with one of them just below another, or under all if the
/// other is not there.
pub open spec fn below(children: Seq<u32>, id: u32, sibling: u32) -> Seq<u32> {
    let rest = set_without(children, id);
    match rest.index_of_first(sibling) {
        Some(i) => rest.insert(i, id),
        None => rest.insert(0, id),
    }
}

impl StateView {
    /// With a surface no longer a subsurface of anything.
    pub open spec fn unparent(self, key: ClientObjectId) -> Self {
        StateView {
            surf: SurfacesView {
                surfaces: self.surf.surfaces.edit(
                    key,
                    |s: SurfaceView| SurfaceView { parent: None, is_subsurface: false, subsurface_sync: false, ..s },
                ),
                ..self.surf
            },
            ..self
        }
    }

    /// With a subsurface object forgotten.
    pub open spec fn drop_subsurface(self, key: ClientObjectId) -> Self {
        StateView {
            surf: SurfacesView { subsurface_map: self.surf.subsurface_map.without(key), ..self.surf },
            ..self
        }
    }

    /// With what a surface has cached put on the screen.
    pub open spec fn flush_cache(self, key: ClientObjectId) -> Self {
        self.uncache(key).apply_surface_state(key, self.cached_of(key)).dirtied()
    }

    /// `destroy`: the surface goes back to being an ordinary one, and what it
    /// had cached is shown.
    pub open spec fn subsurface_destroy(self, msg: ClientMessage) -> Self {
        let sub = (msg.client_id, msg.object_id);
        if self.surf.subsurface_map.has(sub) {
            let id = self.surf.subsurface_map.at(sub);
            let key = (msg.client_id, id);
            let loose = if self.surf.surfaces.has(key) {
                self.unparent(key).drop_child(msg.client_id, self.surf.surfaces.at(key).parent, id)
            } else {
                self
            };
            loose.drop_subsurface(sub).flush_cache(key).unregister(msg.client_id, msg.object_id)
        } else {
            self.unregister(msg.client_id, msg.object_id)
        }
    }

    /// With a surface at a place relative to its parent.
    pub open spec fn set_subsurface_position(self, key: ClientObjectId, at: (i32, i32)) -> Self {
        StateView {
            surf: SurfacesView {
                surfaces: self.surf.surfaces.edit(
                    key,
                    |s: SurfaceView| SurfaceView { subsurface_position: at, ..s },
                ),
                ..self.surf
            },
            ..self
        }
    }

    /// `set_position`: within bounds.
    pub open spec fn subsurface_set_position(self, msg: ClientMessage) -> Self {
        let sub = (msg.client_id, msg.object_id);
        match (msg.number(0), msg.number(1)) {
            (Some(x), Some(y)) => if self.surf.subsurface_map.has(sub) && self.surf.surfaces.has(
                (msg.client_id, self.surf.subsurface_map.at(sub)),
            ) {
                self.set_subsurface_position(
                    (msg.client_id, self.surf.subsurface_map.at(sub)),
                    clamped_offset(x, y),
                ).dirtied()
            } else {
                self
            },
            _ => self.reject_malformed(msg, "wl_subsurface"@),
        }
    }

    /// The surface behind a subsurface object and the parent it has, if both
    /// exist.
    pub open spec fn subsurface_link(self, sub: ClientObjectId) -> Option<(u32, u32)> {
        if !self.surf.subsurface_map.has(sub) {
            None
        } else {
            let id = self.surf.subsurface_map.at(sub);
            match self.parent_of(sub.0, id) {
                Some(p) => if self.surf.surfaces.has((sub.0, p)) {
                    Some((id, p))
                } else {
                    None
                },
                None => None,
            }
        }
    }

    /// With the children of a surface in another order.
    pub open spec fn set_children(self, key: ClientObjectId, children: Seq<u32>) -> Self {
        StateView {
            surf: SurfacesView {
                surfaces: self.surf.surfaces.edit(key, |s: SurfaceView| SurfaceView { children, ..s }),
                ..self.surf
            },
            ..self
        }
    }

    /// `place_above` and `place_below`
    pub open spec fn subsurface_place(self, msg: ClientMessage, over: bool) -> Self {
        let sub = (msg.client_id, msg.object_id);
        match msg.word(0) {
            Some(sibling) => match self.subsurface_link(sub) {
                Some((id, p)) => {
                    let key = (msg.client_id, p);
                    let children = self.surf.surfaces.at(key).children;
                    self.set_children(
                        key,
                        if over {
                            above(children, id, sibling)
                        } else {
                            below(children, id, sibling)
                        },
                    ).dirtied()
                },
                None => self,
            },
            None => self.reject_malformed(msg, "wl_subsurface"@),
        }
    }

    /// With a subsurface's own commit mode set.
    pub open spec fn set_sync(self, key: ClientObjectId, sync: bool) -> Self {
        StateView {
            surf: SurfacesView {
                surfaces: self.surf.surfaces.edit(
                    key,
                    |s: SurfaceView| SurfaceView { subsurface_sync: sync, ..s },
                ),
                ..self.surf
            },
            ..self
        }
    }

    /// `set_sync` and `set_desync`: a surface that is no longer synchronised
    /// shows what it had cached, unless one above it still is.
    pub open spec fn subsurface_set_sync(self, msg: ClientMessage, sync: bool) -> Self {
        let sub = (msg.client_id, msg.object_id);
        if !self.surf.subsurface_map.has(sub) {
            self
        } else {
            let key = (msg.client_id, self.surf.subsurface_map.at(sub));
            let set = self.set_sync(key, sync);
            if !sync && !set.effectively_synced(key) {
                set.flush_cache(key)
            } else {
                set
            }
        }
    }

    /// Any request on a subsurface.
    pub open spec fn subsurface_request(self, msg: ClientMessage) -> Self {
        if msg.op_code == 0 {
            self.subsurface_destroy(msg)
        } else if msg.op_code == 1 {
            self.subsurface_set_position(msg)
        } else if msg.op_code == 2 {
            self.subsurface_place(msg, true)
        } else if msg.op_code == 3 {
            self.subsurface_place(msg, false)
        } else if msg.op_code == 4 {
            self.subsurface_set_sync(msg, true)
        } else if msg.op_code == 5 {
            self.subsurface_set_sync(msg, false)
        } else {
            self.reject_unknown(msg, "wl_subsurface"@)
        }
    }
}

fn unparent(state: &mut CompositorState, key: ClientObjectId)
    ensures
        final(state)@ == old(state)@.unparent(key),
{
    if let Some(s) = state.surf.surfaces.get_mut(key) {
        s.parent = None;
        s.is_subsurface = false;
        s.subsurface_sync = false;
    }
}

fn flush_cache(state: &mut CompositorState, key: ClientObjectId)
    ensures
        final(state)@ == old(state)@.flush_cache(key),
{
    let cached = state.take_cached(key);
    state.apply_surface_state(key, cached);
    state.dirty = true;
}

fn handle_destroy(state: &mut CompositorState, msg: &ClientMessage)
    ensures
        final(state)@ == old(state)@.subsurface_destroy(*msg),
{
    let sub = (msg.client_id, msg.object_id);
    let id: u32 = match state.surf.subsurface_map.get(sub) {
        Some(id) => *id,
        None => {
            state.unregister(msg.client_id, msg.object_id);
            return;
        },
    };
    let key = (msg.client_id, id);
    let parent: Option<Option<u32>> = match state.surf.surfaces.get(key) {
        Some(s) => Some(s.parent),
        None => None,
    };
    if let Some(parent) = parent {
        unparent(state, key);
        state.drop_child(msg.client_id, parent, id);
    }
    let _ = state.surf.subsurface_map.remove(sub);
    flush_cache(state, key);
    state.unregister(msg.client_id, msg.object_id);
}

/// Put a surface at a place relative to its parent.
pub fn set_subsurface_position(state: &mut CompositorState, key: ClientObjectId, at: (i32, i32))
    ensures
        final(state)@ == old(state)@.set_subsurface_position(key, at),
{
    if let Some(s) = state.surf.surfaces.get_mut(key) {
        s.subsurface_position = at;
    }
}

fn handle_set_position(state: &mut CompositorState, msg: &ClientMessage)
    ensures
        final(state)@ == old(state)@.subsurface_set_position(*msg),
{
    match (msg.signed(0), msg.signed(1)) {
        (Some(x), Some(y)) => {
            let id: u32 = match state.surf.subsurface_map.get((msg.client_id, msg.object_id)) {
                Some(id) => *id,
                None => {
                    return;
                },
            };
            if state.surf.surfaces.contains((msg.client_id, id)) {
                set_subsurface_position(state, (msg.client_id, id), clamp_surface_offset(x, y));
                state.dirty = true;
            }
        },
        _ => {
            reject_malformed_request(state, msg, "wl_subsurface");
        },
    }
}

fn subsurface_link(state: &CompositorState, sub: ClientObjectId) -> (r: Option<(u32, u32)>)
    ensures
        r == state@.subsurface_link(sub),
{
    let id: u32 = match state.surf.subsurface_map.get(sub) {
        Some(id) => *id,
        None => {
            return None;
        },
    };
    let parent: Option<u32> = match state.surf.surfaces.get((sub.0, id)) {
        Some(s) => s.parent,
        None => None,
    };
    match parent {
        Some(p) => if state.surf.surfaces.contains((sub.0, p)) {
            Some((id, p))
        } else {
            None
        },
        None => None,
    }
}

fn placed_children(children: &Vec<u32>, id: u32, sibling: u32, over: bool) -> (r: Vec<u32>)
    ensures
        r@ == if over {
            above(children@, id, sibling)
        } else {
            below(children@, id, sibling)
        },
{
    let mut rest = copy_vec(children);
    drop_child_id(&mut rest, id);
    match position(&rest, sibling) {
        Some(i) => {
            let n: usize = rest.len();
            rest.insert(
                if over {
                    i + 1
                } else {
                    i
                },
                id,
            );
        },
        None => {
            if over {
                rest.push(id);
            } else {
                rest.insert(0, id);
            }
        },
    }
    rest
}

fn set_children(state: &mut CompositorState, key: ClientObjectId, children: Vec<u32>)
    ensures
        final(state)@ == old(state)@.set_children(key, children@),
{
    if let Some(s) = state.surf.surfaces.get_mut(key) {
        s.children = children;
    }
}

fn handle_place(state: &mut CompositorState, msg: &ClientMessage, over: bool)
    ensures
        final(state)@ == old(state)@.subsurface_place(*msg, over),
{
    let sibling: u32 = match msg.unsigned(0) {
        Some(sibling) => sibling,
        None => {
            reject_malformed_request(state, msg, "wl_subsurface");
            return;
        },
    };
    if let Some((id, p)) = subsurface_link(state, (msg.client_id, msg.object_id)) {
        let key = (msg.client_id, p);
        let children: Vec<u32> = match state.surf.surfaces.get(key) {
            Some(s) => placed_children(&s.children, id, sibling, over),
            None => {
                return;
            },
        };
        set_children(state, key, children);
        state.dirty = true;
    }
}

fn set_sync(state: &mut CompositorState, key: ClientObjectId, sync: bool)
    ensures
        final(state)@ == old(state)@.set_sync(key, sync),
{
    if let Some(s) = state.surf.surfaces.get_mut(key) {
        s.subsurface_sync = sync;
    }
}

/// Set the commit mode.
///
/// Desyncing is not just a flag: whatever was committed while synchronised
/// is owed to the screen now - unless a subsurface under a *synchronised*
/// parent stays effectively synchronised however it sets its own mode, and its
/// cache must go on waiting.
fn handle_set_sync(state: &mut CompositorState, msg: &ClientMessage, sync: bool)
    ensures
        final(state)@ == old(state)@.subsurface_set_sync(*msg, sync),
{
    let id: u32 = match state.surf.subsurface_map.get((msg.client_id, msg.object_id)) {
        Some(id) => *id,
        None => {
            return;
        },
    };
    let key = (msg.client_id, id);
    set_sync(state, key, sync);
    if !sync && !state.is_effectively_synced(key) {
        flush_cache(state, key);
    }
}

pub fn handle(state: &mut CompositorState, msg: &ClientMessage)
    ensures
        final(state)@ == old(state)@.subsurface_request(*msg),
{
    match msg.op_code {
        0 => handle_destroy(state, msg),
        1 => handle_set_position(state, msg),
        2 => handle_place(state, msg, true),
        3 => handle_place(state, msg, false),
        4 => handle_set_sync(state, msg, true),
        5 => handle_set_sync(state, msg, false),
        _ => reject_unknown_request(state, msg, "wl_subsurface"),
    }
}

} // verus!
