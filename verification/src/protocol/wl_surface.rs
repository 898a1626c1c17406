//! `wl_surface` protocol handler.
//!
//! A surface is a rectangular area of pixels that can be displayed. Clients
//! attach buffers, mark damage, request frame callbacks, and commit to make
//! changes visible. The compositor reads committed state during rendering.
use crate::protocol::{ObjectType, reject_malformed_request, reject_unknown_request};
use crate::protocol::messages::{build_message, event, one_arg};
use crate::protocol::wire_utils::{ArgView, ClientMessage};
use crate::protocol::xdg_surface::check_configured_before_buffer;
use crate::seqs::copy_vec;
use crate::state::compositor_state::{CompositorState, StateView, SurfacesView};
use crate::state::panels::{configure, reconfigure_output_layers};
use crate::state::types::{
    Buffer, BufferTransform, clamp_surface_offset, clamped_offset, ClientObjectId, PendingRegion,
    PendingRegionView, plus, Surface, SurfacePending, SurfacePendingView, SurfaceView,
    TextureRect, to_i32,
};
use vstd::prelude::*;
use vstd::string::*;

verus! {

/// `enter`
pub const SURFACE_ENTER: u16 = 0;

/// `leave`
pub const SURFACE_LEAVE: u16 = 1;

/// An offset added onto a pending one, kept within bounds.
pub open spec fn accumulated(pending: (i32, i32), x: i32, y: i32) -> (i32, i32) {
    clamped_offset(to_i32(pending.0 + x), to_i32(pending.1 + y))
}

/// Add one offset onto the pending one, keeping it within bounds.
///
/// Offsets accumulate across attaches within a commit, so this adds rather than
/// replaces. Clamped for the same reason a subsurface position is: these are
/// raw numbers from the client and are later added to a cursor position.
pub fn accumulate_offset(pending: &mut (i32, i32), x: i32, y: i32)
    ensures
        *final(pending) == accumulated(*old(pending), x, y),
{
    *pending = clamp_surface_offset(plus(pending.0, x), plus(pending.1, y));
}

/// Which coordinate space a damage rectangle arrived in.
#[derive(Debug, Clone, Copy, PartialEq, Eq, Structural)]
pub enum DamageSpace {
    /// `wl_surface.damage` - surface-local, so it has to be mapped through the
    /// viewport and buffer scale before it means anything to a texture.
    Surface,
    /// `wl_surface.damage_buffer` - already buffer pixels.
    Buffer,
}

/// A pending change of a surface: a function from what was pending to what is.
pub open spec fn with_attach(buffer_id: u32, x: i32, y: i32) -> spec_fn(SurfacePendingView) -> SurfacePendingView {
    |p: SurfacePendingView|
        SurfacePendingView {
            buffer_attached: true,
            buffer_id: if buffer_id == 0 {
                None
            } else {
                Some(buffer_id)
            },
            offset: accumulated(p.offset, x, y),
            ..p
        }
}

/// A pending offset.
pub open spec fn with_offset(x: i32, y: i32) -> spec_fn(SurfacePendingView) -> SurfacePendingView {
    |p: SurfacePendingView| SurfacePendingView { offset: accumulated(p.offset, x, y), ..p }
}

/// A pending damage rectangle.
pub open spec fn with_damage(space: DamageSpace, rect: TextureRect) -> spec_fn(
    SurfacePendingView,
) -> SurfacePendingView {
    |p: SurfacePendingView|
        match space {
            DamageSpace::Surface => SurfacePendingView { damage_surface: p.damage_surface.push(rect), ..p },
            DamageSpace::Buffer => SurfacePendingView { damage_buffer: p.damage_buffer.push(rect), ..p },
        }
}

/// A pending frame callback.
pub open spec fn with_callback(id: u32) -> spec_fn(SurfacePendingView) -> SurfacePendingView {
    |p: SurfacePendingView| SurfacePendingView { frame_callbacks: p.frame_callbacks.push(id), ..p }
}

/// A pending input region.
pub open spec fn with_input_region(r: PendingRegionView) -> spec_fn(SurfacePendingView) -> SurfacePendingView {
    |p: SurfacePendingView| SurfacePendingView { input_region: r, ..p }
}

/// A pending opaque region.
pub open spec fn with_opaque_region(r: PendingRegionView) -> spec_fn(SurfacePendingView) -> SurfacePendingView {
    |p: SurfacePendingView| SurfacePendingView { opaque_region: r, ..p }
}

/// A pending buffer transform.
pub open spec fn with_transform(t: BufferTransform) -> spec_fn(SurfacePendingView) -> SurfacePendingView {
    |p: SurfacePendingView| SurfacePendingView { buffer_transform: Some(t), ..p }
}

/// A pending buffer scale.
pub open spec fn with_scale(n: i32) -> spec_fn(SurfacePendingView) -> SurfacePendingView {
    |p: SurfacePendingView| SurfacePendingView { buffer_scale: Some(n), ..p }
}

impl StateView {
    /// With what is pending on a surface changed, if there is such a surface.
    pub open spec fn edit_pending(
        self,
        key: ClientObjectId,
        f: spec_fn(SurfacePendingView) -> SurfacePendingView,
    ) -> Self {
        StateView {
            surf: SurfacesView {
                surfaces: self.surf.surfaces.edit(key, |s: SurfaceView| SurfaceView { pending: f(s.pending), ..s }),
                ..self.surf
            },
            ..self
        }
    }

    /// `destroy`
    pub open spec fn surface_destroy(self, msg: ClientMessage) -> Self {
        self.destroy_surface(msg.client_id, msg.object_id).dirtied().unregister(msg.client_id, msg.object_id)
    }

    /// `attach`: buffer zero takes the buffer off.
    pub open spec fn surface_attach(self, msg: ClientMessage) -> Self {
        match (msg.word(0), msg.number(1), msg.number(2)) {
            (Some(id), Some(x), Some(y)) => self.edit_pending((msg.client_id, msg.object_id), with_attach(id, x, y)),
            _ => self.reject_malformed(msg, "wl_surface"@),
        }
    }

    /// `offset`
    pub open spec fn surface_offset(self, msg: ClientMessage) -> Self {
        match (msg.number(0), msg.number(1)) {
            (Some(x), Some(y)) => self.edit_pending((msg.client_id, msg.object_id), with_offset(x, y)),
            _ => self.reject_malformed(msg, "wl_surface"@),
        }
    }

    /// `damage` and `damage_buffer`
    pub open spec fn surface_damage(self, msg: ClientMessage, space: DamageSpace) -> Self {
        match (msg.number(0), msg.number(1), msg.number(2), msg.number(3)) {
            (Some(x), Some(y), Some(width), Some(height)) => self.edit_pending(
                (msg.client_id, msg.object_id),
                with_damage(space, TextureRect { x, y, width, height }),
            ),
            _ => self.reject_malformed(msg, "wl_surface"@),
        }
    }

    /// `frame`: the callback is an object of its own, and waits with the rest.
    pub open spec fn surface_frame(self, msg: ClientMessage) -> Self {
        if !self.clients.has(msg.client_id) {
            self
        } else {
            match msg.word(0) {
                Some(id) => {
                    let named = self.register(msg.client_id, id, ObjectType::WlCallback);
                    if self.may_register(msg.client_id, id) {
                        named.edit_pending((msg.client_id, msg.object_id), with_callback(id))
                    } else {
                        named
                    }
                },
                None => self.reject_malformed(msg, "wl_surface"@),
            }
        }
    }

    /// The region a request names: all there is for null, and nothing for one
    /// that does not exist.
    pub open spec fn named_region(self, client_id: u32, region_id: u32) -> Option<PendingRegionView> {
        if region_id == 0 {
            Some(PendingRegionView::Infinite)
        } else if self.surf.regions.has((client_id, region_id)) {
            Some(PendingRegionView::Rects(self.surf.regions.at((client_id, region_id)).rects))
        } else {
            None
        }
    }

    /// `set_input_region`: the region is copied, not referred to.
    pub open spec fn surface_set_input_region(self, msg: ClientMessage) -> Self {
        match msg.word(0) {
            Some(id) => match self.named_region(msg.client_id, id) {
                Some(r) => self.edit_pending((msg.client_id, msg.object_id), with_input_region(r)),
                None => self,
            },
            None => self.reject_malformed(msg, "wl_surface"@),
        }
    }

    /// `set_opaque_region`: the region is copied, not referred to.
    pub open spec fn surface_set_opaque_region(self, msg: ClientMessage) -> Self {
        match msg.word(0) {
            Some(id) => match self.named_region(msg.client_id, id) {
                Some(r) => self.edit_pending((msg.client_id, msg.object_id), with_opaque_region(r)),
                None => self,
            },
            None => self.reject_malformed(msg, "wl_surface"@),
        }
    }

    /// `set_buffer_transform`: one of those the protocol defines.
    pub open spec fn surface_set_buffer_transform(self, msg: ClientMessage) -> Self {
        match msg.number(0) {
            Some(n) => {
                let t = if n < 0 {
                    None
                } else {
                    BufferTransform::of_wire(n as u32)
                };
                match t {
                    Some(t) => self.edit_pending((msg.client_id, msg.object_id), with_transform(t)),
                    None => self.fail(
                        msg.client_id,
                        msg.object_id,
                        0,
                        "wl_surface.set_buffer_transform: not a transform the protocol defines"@,
                    ),
                }
            },
            None => self.reject_malformed(msg, "wl_surface"@),
        }
    }

    /// `set_buffer_scale`: at least one.
    pub open spec fn surface_set_buffer_scale(self, msg: ClientMessage) -> Self {
        match msg.number(0) {
            Some(n) => if n < 1 {
                self.fail(msg.client_id, msg.object_id, 0, "wl_surface.set_buffer_scale: scale must be >= 1"@)
            } else {
                self.edit_pending((msg.client_id, msg.object_id), with_scale(n))
            },
            None => self,
        }
    }
}

impl CompositorState {
    /// Tell a client that one of its surfaces is now shown on an output.
    ///
    /// Clients need this to choose a buffer scale. `output_object_id` is the
    /// client's own `wl_output` object, not the compositor's internal id.
    pub fn send_enter(&mut self, client_id: u32, surface_id: u32, output_object_id: u32)
        ensures
            final(self)@ == old(self)@.tell(
                client_id,
                event(surface_id, SURFACE_ENTER, seq![ArgView::Uint(output_object_id)]),
            ),
    {
        self.tell(client_id, build_message(surface_id, SURFACE_ENTER, one_arg(output_object_id)));
    }

    /// Tell a client that one of its surfaces is no longer shown on an output.
    pub fn send_leave(&mut self, client_id: u32, surface_id: u32, output_object_id: u32)
        ensures
            final(self)@ == old(self)@.tell(
                client_id,
                event(surface_id, SURFACE_LEAVE, seq![ArgView::Uint(output_object_id)]),
            ),
    {
        self.tell(client_id, build_message(surface_id, SURFACE_LEAVE, one_arg(output_object_id)));
    }
}

fn handle_destroy(state: &mut CompositorState, msg: &ClientMessage)
    ensures
        final(state)@ == old(state)@.surface_destroy(*msg),
{
    state.destroy_surface(msg.client_id, msg.object_id);
    state.dirty = true;
    state.unregister(msg.client_id, msg.object_id);
}

fn handle_attach(state: &mut CompositorState, msg: &ClientMessage)
    ensures
        final(state)@ == old(state)@.surface_attach(*msg),
{
    match (msg.unsigned(0), msg.signed(1), msg.signed(2)) {
        (Some(buffer_id), Some(x), Some(y)) => {
            if let Some(surface) = state.surf.surfaces.get_mut((msg.client_id, msg.object_id)) {
                surface.pending.buffer_attached = true;
                surface.pending.buffer_id = if buffer_id == 0 {
                    None
                } else {
                    Some(buffer_id)
                };
                accumulate_offset(&mut surface.pending.offset, x, y);
            }
        },
        _ => {
            reject_malformed_request(state, msg, "wl_surface");
        },
    }
}

fn handle_offset(state: &mut CompositorState, msg: &ClientMessage)
    ensures
        final(state)@ == old(state)@.surface_offset(*msg),
{
    match (msg.signed(0), msg.signed(1)) {
        (Some(x), Some(y)) => {
            if let Some(surface) = state.surf.surfaces.get_mut((msg.client_id, msg.object_id)) {
                accumulate_offset(&mut surface.pending.offset, x, y);
            }
        },
        _ => {
            reject_malformed_request(state, msg, "wl_surface");
        },
    }
}

fn handle_damage(state: &mut CompositorState, msg: &ClientMessage, space: DamageSpace)
    ensures
        final(state)@ == old(state)@.surface_damage(*msg, space),
{
    match (msg.signed(0), msg.signed(1), msg.signed(2), msg.signed(3)) {
        (Some(x), Some(y), Some(width), Some(height)) => {
            if let Some(surface) = state.surf.surfaces.get_mut((msg.client_id, msg.object_id)) {
                let rect = TextureRect { x, y, width, height };
                match space {
                    DamageSpace::Surface => surface.pending.damage_surface.push(rect),
                    DamageSpace::Buffer => surface.pending.damage_buffer.push(rect),
                }
            }
        },
        _ => {
            reject_malformed_request(state, msg, "wl_surface");
        },
    }
}

fn push_callback(state: &mut CompositorState, key: ClientObjectId, id: u32)
    ensures
        final(state)@ == old(state)@.edit_pending(key, with_callback(id)),
{
    if let Some(surface) = state.surf.surfaces.get_mut(key) {
        surface.pending.frame_callbacks.push(id);
    }
}

fn handle_frame(state: &mut CompositorState, msg: &ClientMessage)
    ensures
        final(state)@ == old(state)@.surface_frame(*msg),
{
    if state.clients.peek(msg.client_id).is_none() {
        return;
    }
    match msg.unsigned(0) {
        Some(callback_id) => {
            if state.register(msg.client_id, callback_id, ObjectType::WlCallback) {
                push_callback(state, (msg.client_id, msg.object_id), callback_id);
            }
        },
        None => {
            reject_malformed_request(state, msg, "wl_surface");
        },
    }
}

/// The region a request names. A null region is the protocol default rather
/// than an absence.
fn decode_region(state: &CompositorState, client_id: u32, region_id: u32) -> (r: Option<PendingRegion>)
    ensures
        match r {
            Some(p) => state@.named_region(client_id, region_id) == Some(p@),
            None => state@.named_region(client_id, region_id) is None,
        },
{
    if region_id == 0 {
        return Some(PendingRegion::Infinite);
    }
    match state.surf.regions.get((client_id, region_id)) {
        Some(region) => Some(PendingRegion::Rects(copy_vec(&region.rects))),
        None => None,
    }
}

/// `wl_surface.set_input_region` - restrict which parts of the surface accept
/// pointer input.
fn handle_set_input_region(state: &mut CompositorState, msg: &ClientMessage)
    ensures
        final(state)@ == old(state)@.surface_set_input_region(*msg),
{
    let region_id: u32 = match msg.unsigned(0) {
        Some(id) => id,
        None => {
            reject_malformed_request(state, msg, "wl_surface");
            return;
        },
    };
    if let Some(region) = decode_region(state, msg.client_id, region_id) {
        if let Some(surface) = state.surf.surfaces.get_mut((msg.client_id, msg.object_id)) {
            surface.pending.input_region = region;
        }
    }
}

/// Record where the client promises its surface is fully opaque.
fn handle_set_opaque_region(state: &mut CompositorState, msg: &ClientMessage)
    ensures
        final(state)@ == old(state)@.surface_set_opaque_region(*msg),
{
    let region_id: u32 = match msg.unsigned(0) {
        Some(id) => id,
        None => {
            reject_malformed_request(state, msg, "wl_surface");
            return;
        },
    };
    if let Some(region) = decode_region(state, msg.client_id, region_id) {
        if let Some(surface) = state.surf.surfaces.get_mut((msg.client_id, msg.object_id)) {
            surface.pending.opaque_region = region;
        }
    }
}

/// Record how the client has already transformed its buffer.
fn handle_set_buffer_transform(state: &mut CompositorState, msg: &ClientMessage)
    ensures
        final(state)@ == old(state)@.surface_set_buffer_transform(*msg),
{
    let value: i32 = match msg.signed(0) {
        Some(value) => value,
        None => {
            reject_malformed_request(state, msg, "wl_surface");
            return;
        },
    };
    let transform: Option<BufferTransform> = if value < 0 {
        None
    } else {
        BufferTransform::from_wire(value as u32)
    };
    match transform {
        Some(t) => {
            if let Some(surface) = state.surf.surfaces.get_mut((msg.client_id, msg.object_id)) {
                surface.pending.buffer_transform = Some(t);
            }
        },
        None => {
            state.fail(
                msg.client_id,
                msg.object_id,
                0,
                String::from_str("wl_surface.set_buffer_transform: not a transform the protocol defines"),
            );
        },
    }
}

/// `wl_surface.set_buffer_scale` - how many buffer pixels map to one
/// surface-local coordinate.
fn handle_set_buffer_scale(state: &mut CompositorState, msg: &ClientMessage)
    ensures
        final(state)@ == old(state)@.surface_set_buffer_scale(*msg),
{
    let scale: i32 = match msg.signed(0) {
        Some(scale) => scale,
        None => {
            return;
        },
    };
    if scale < 1 {
        state.fail(
            msg.client_id,
            msg.object_id,
            0,
            String::from_str("wl_surface.set_buffer_scale: scale must be >= 1"),
        );
        return;
    }
    if let Some(surface) = state.surf.surfaces.get_mut((msg.client_id, msg.object_id)) {
        surface.pending.buffer_scale = Some(scale);
    }
}

impl StateView {
    /// With nothing pending on a surface.
    pub open spec fn take_pending(self, key: ClientObjectId) -> Self {
        StateView {
            surf: SurfacesView {
                surfaces: self.surf.surfaces.edit(
                    key,
                    |s: SurfaceView| SurfaceView { pending: SurfacePendingView::nothing(), ..s },
                ),
                ..self.surf
            },
            ..self
        }
    }

    /// With the layer surface that gives a surface its role committed too, and
    /// everything on its output configured again.
    pub open spec fn commit_role(self, key: ClientObjectId) -> Self {
        match self.layer_surface_of(key) {
            Some(k) => self.commit_layer(k).configure_layer(k).reconfigure_output_layers(k).dirtied(),
            None => self,
        }
    }

    /// With a commit folded into what a surface has cached.
    pub open spec fn cache(self, key: ClientObjectId, p: SurfacePendingView) -> Self {
        StateView {
            surf: SurfacesView {
                surfaces: self.surf.surfaces.edit(
                    key,
                    |s: SurfaceView|
                        SurfaceView {
                            cached: Some(
                                match s.cached {
                                    Some(c) => c.merged(p),
                                    None => SurfacePendingView::nothing().merged(p),
                                },
                            ),
                            ..s
                        },
                ),
                ..self.surf
            },
            ..self
        }
    }

    /// With a commit let through: into the cache of a synchronised subsurface,
    /// and onto the screen of any other surface.
    pub open spec fn commit_through(self, key: ClientObjectId, p: SurfacePendingView) -> Self {
        if self.effectively_synced(key) {
            self.cache(key, p)
        } else {
            self.apply_surface_state(key, p)
        }
    }

    /// `commit`: what is pending is taken whole. A commit that shows content
    /// before a configure is agreed is dropped.
    pub open spec fn surface_commit(self, msg: ClientMessage) -> Self {
        let key = (msg.client_id, msg.object_id);
        if !self.surf.surfaces.has(key) {
            self
        } else {
            let p = self.surf.surfaces.at(key).pending;
            let taken = self.take_pending(key).commit_role(key);
            if p.buffer_id is None {
                taken.commit_through(key, p)
            } else if taken.may_show(key) {
                taken.check_configured(key).commit_through(key, p)
            } else {
                taken.check_configured(key)
            }
        }
    }

    /// Any request on a surface.
    pub open spec fn surface_request(self, msg: ClientMessage) -> Self {
        if msg.op_code == 0 {
            self.surface_destroy(msg)
        } else if msg.op_code == 1 {
            self.surface_attach(msg)
        } else if msg.op_code == 2 {
            self.surface_damage(msg, DamageSpace::Surface)
        } else if msg.op_code == 3 {
            self.surface_frame(msg)
        } else if msg.op_code == 4 {
            self.surface_set_opaque_region(msg)
        } else if msg.op_code == 5 {
            self.surface_set_input_region(msg)
        } else if msg.op_code == 6 {
            self.surface_commit(msg)
        } else if msg.op_code == 7 {
            self.surface_set_buffer_transform(msg)
        } else if msg.op_code == 8 {
            self.surface_set_buffer_scale(msg)
        } else if msg.op_code == 9 {
            self.surface_damage(msg, DamageSpace::Buffer)
        } else if msg.op_code == 10 {
            self.surface_offset(msg)
        } else {
            self.reject_unknown(msg, "wl_surface"@)
        }
    }
}

fn take_pending(state: &mut CompositorState, key: ClientObjectId) -> (r: Option<SurfacePending>)
    ensures
        final(state)@ == old(state)@.take_pending(key),
        match r {
            Some(p) => old(state)@.surf.surfaces.has(key) && p@ == old(state)@.surf.surfaces.at(key).pending,
            None => !old(state)@.surf.surfaces.has(key),
        },
{
    match state.surf.surfaces.get_mut(key) {
        None => None,
        Some(surface) => {
            let mut p = SurfacePending::default();
            core::mem::swap(&mut surface.pending, &mut p);
            Some(p)
        },
    }
}

fn commit_role(state: &mut CompositorState, key: ClientObjectId)
    ensures
        final(state)@ == old(state)@.commit_role(key),
{
    if let Some(k) = state.layer_surface_of(key) {
        state.commit_layer(k);
        configure(state, k);
        reconfigure_output_layers(state, k);
        state.dirty = true;
    }
}

fn cache(state: &mut CompositorState, key: ClientObjectId, pending: SurfacePending)
    ensures
        final(state)@ == old(state)@.cache(key, pending@),
{
    if let Some(surface) = state.surf.surfaces.get_mut(key) {
        let mut cached: Option<SurfacePending> = None;
        core::mem::swap(&mut surface.cached, &mut cached);
        let mut c = match cached {
            Some(c) => c,
            None => SurfacePending::default(),
        };
        c.merge(pending);
        surface.cached = Some(c);
    }
}

fn commit_through(state: &mut CompositorState, key: ClientObjectId, pending: SurfacePending)
    ensures
        final(state)@ == old(state)@.commit_through(key, pending@),
{
    if state.is_effectively_synced(key) {
        cache(state, key, pending);
    } else {
        state.apply_surface_state(key, pending);
    }
}

/// Apply what is pending on a surface.
///
/// A layer surface's own double-buffered state applies here, with the rest of
/// the surface's: an anchor and a size that changed together have to land
/// together. The first commit is also what asks the compositor for a size.
///
/// A window may not show content before it has agreed a configure, and a
/// refused commit leaves nothing of what was pending on the surface applied.
///
/// A synchronised subsurface's commit does not reach the screen. It goes into
/// the cache, and the cache is applied when the parent's state is. The cache
/// accumulates rather than being replaced, because a client may commit several
/// times before its parent does and each of those commits said something.
fn handle_commit(state: &mut CompositorState, msg: &ClientMessage)
    ensures
        final(state)@ == old(state)@.surface_commit(*msg),
{
    let key = (msg.client_id, msg.object_id);
    if !state.surf.surfaces.contains(key) {
        return;
    }
    let pending = match take_pending(state, key) {
        Some(p) => p,
        None => {
            return;
        },
    };
    commit_role(state, key);
    if pending.buffer_id.is_some() {
        if !check_configured_before_buffer(state, key) {
            return;
        }
    }
    commit_through(state, key, pending);
}

pub fn handle(state: &mut CompositorState, msg: &ClientMessage)
    ensures
        final(state)@ == old(state)@.surface_request(*msg),
{
    match msg.op_code {
        0 => handle_destroy(state, msg),
        1 => handle_attach(state, msg),
        2 => handle_damage(state, msg, DamageSpace::Surface),
        3 => handle_frame(state, msg),
        4 => handle_set_opaque_region(state, msg),
        5 => handle_set_input_region(state, msg),
        6 => handle_commit(state, msg),
        7 => handle_set_buffer_transform(state, msg),
        8 => handle_set_buffer_scale(state, msg),
        9 => handle_damage(state, msg, DamageSpace::Buffer),
        10 => handle_offset(state, msg),
        _ => reject_unknown_request(state, msg, "wl_surface"),
    }
}

} // verus!
