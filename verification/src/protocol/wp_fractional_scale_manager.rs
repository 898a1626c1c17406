//! `wp_fractional_scale_manager_v1` protocol handler.
//!
//! Hands out one fractional scale object per surface. A second one for the
//! same surface is an error, which is the only rule here.
use crate::protocol::{ObjectType, reject_malformed_request, reject_unknown_request};
use crate::protocol::wire_utils::ClientMessage;
use crate::protocol::wp_fractional_scale::{note_scale, send_preferred_scale};
use crate::state::compositor_state::{CompositorState, StateView, SurfacesView};
use crate::state::types::{ClientObjectId, FractionalScaleBinding};
use vstd::prelude::*;
use vstd::string::*;

verus! {

pub const FRACTIONAL_MANAGER_INTERFACE: &'static str = "wp_fractional_scale_manager_v1";

/// Version 1, which is every version this protocol has.
pub const FRACTIONAL_MANAGER_VERSION: u32 = 1;

/// `wp_fractional_scale_manager_v1.error.fractional_scale_exists`.
pub const ERROR_FRACTIONAL_SCALE_EXISTS: u32 = 0;

/// A standing question of a client about a surface.
pub open spec fn asks_about(client_id: u32, surface_id: u32) -> spec_fn(
    ClientObjectId,
    FractionalScaleBinding,
) -> bool {
    |k: ClientObjectId, b: FractionalScaleBinding| k.0 == client_id && b.surface_id == surface_id
}

impl StateView {
    /// With a new standing question about a surface.
    pub open spec fn put_scale(self, object: ClientObjectId, surface_id: u32) -> Self {
        StateView {
            surf: SurfacesView {
                fractional_scales: self.surf.fractional_scales.put(
                    object,
                    FractionalScaleBinding { surface_id, sent: None },
                ),
                ..self.surf
            },
            ..self
        }
    }

    /// `get_fractional_scale`: one per surface, answered at once.
    pub open spec fn get_fractional_scale(self, msg: ClientMessage) -> Self {
        let c = msg.client_id;
        match (msg.word(0), msg.word(1)) {
            (Some(id), Some(surface_id)) => if self.surf.fractional_scales.any(asks_about(c, surface_id)) {
                self.fail(
                    c,
                    msg.object_id,
                    ERROR_FRACTIONAL_SCALE_EXISTS,
                    "wp_fractional_scale_manager_v1.get_fractional_scale: this surface already has one"@,
                )
            } else if !self.surf.surfaces.has((c, surface_id)) {
                self
            } else {
                let named = self.register(c, id, ObjectType::WpFractionalScale);
                if self.may_register(c, id) {
                    let asked = named.put_scale((c, id), surface_id);
                    let scale = asked.preferred_scale((c, surface_id));
                    asked.send_preferred_scale((c, id), scale).note_scale((c, id), scale)
                } else {
                    named
                }
            },
            _ => self.reject_malformed(msg, FRACTIONAL_MANAGER_INTERFACE@),
        }
    }

    /// Any request on a fractional scale manager. What it made outlives it.
    pub open spec fn fractional_manager_request(self, msg: ClientMessage) -> Self {
        if msg.op_code == 0 {
            self.unregister(msg.client_id, msg.object_id)
        } else if msg.op_code == 1 {
            self.get_fractional_scale(msg)
        } else {
            self.reject_unknown(msg, FRACTIONAL_MANAGER_INTERFACE@)
        }
    }
}

/// Answer what scale a surface is best drawn at.
///
/// At once, rather than waiting for the per-frame pass. A client asks for
/// this before its first commit, precisely so that the first frame it draws
/// is the right size.
fn handle_get_fractional_scale(state: &mut CompositorState, msg: &ClientMessage)
    ensures
        final(state)@ == old(state)@.get_fractional_scale(*msg),
{
    let c: u32 = msg.client_id;
    let (id, surface_id): (u32, u32) = match (msg.unsigned(0), msg.unsigned(1)) {
        (Some(id), Some(surface_id)) => (id, surface_id),
        _ => {
            reject_malformed_request(state, msg, FRACTIONAL_MANAGER_INTERFACE);
            return;
        },
    };
    let taken = state.surf.fractional_scales.any(
        |k: &ClientObjectId, b: &FractionalScaleBinding| -> (r: bool)
            ensures r == asks_about(c, surface_id)(*k, b@)
            { k.0 == c && b.surface_id == surface_id },
        Ghost(asks_about(c, surface_id)),
    );
    if taken {
        state.fail(
            c,
            msg.object_id,
            ERROR_FRACTIONAL_SCALE_EXISTS,
            String::from_str("wp_fractional_scale_manager_v1.get_fractional_scale: this surface already has one"),
        );
        return;
    }
    if !state.surf.surfaces.contains((c, surface_id)) {
        return;
    }
    if !state.register(c, id, ObjectType::WpFractionalScale) {
        return;
    }
    state.surf.fractional_scales.insert((c, id), FractionalScaleBinding { surface_id, sent: None });
    let scale = state.preferred_scale((c, surface_id));
    send_preferred_scale(state, (c, id), scale);
    note_scale(state, (c, id), scale);
}

pub fn handle(state: &mut CompositorState, msg: &ClientMessage)
    ensures
        final(state)@ == old(state)@.fractional_manager_request(*msg),
{
    match msg.op_code {
        0 => state.unregister(msg.client_id, msg.object_id),
        1 => handle_get_fractional_scale(state, msg),
        _ => reject_unknown_request(state, msg, FRACTIONAL_MANAGER_INTERFACE),
    }
}

} // verus!
