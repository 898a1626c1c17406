//! `wp_fractional_scale_v1` protocol handler.
//!
//! One object per surface, carrying one event: the scale the compositor would
//! like that surface drawn at, in 120ths.
use crate::protocol::reject_unknown_request;
use crate::protocol::messages::{build_message, event, one_arg};
use crate::protocol::wire_utils::{ArgView, ClientMessage};
use crate::state::compositor_state::{CompositorState, StateView, SurfacesView};
use crate::state::types::{ClientObjectId, FractionalScaleBinding};
use vstd::prelude::*;

verus! {

pub const FRACTIONAL_SCALE_INTERFACE: &'static str = "wp_fractional_scale_v1";

/// `preferred_scale`
pub const PREFERRED_SCALE: u16 = 0;

impl StateView {
    /// With a client told the scale one of its surfaces is best drawn at.
    pub open spec fn send_preferred_scale(self, object: ClientObjectId, scale: u32) -> Self {
        self.tell(object.0, event(object.1, PREFERRED_SCALE, seq![ArgView::Uint(scale)]))
    }

    /// With the scale last sent noted.
    pub open spec fn note_scale(self, object: ClientObjectId, scale: u32) -> Self {
        StateView {
            surf: SurfacesView {
                fractional_scales: self.surf.fractional_scales.edit(
                    object,
                    |b: FractionalScaleBinding| FractionalScaleBinding { sent: Some(scale), ..b },
                ),
                ..self.surf
            },
            ..self
        }
    }

    /// Any request on a fractional scale object.
    pub open spec fn fractional_scale_request(self, msg: ClientMessage) -> Self {
        if msg.op_code == 0 {
            StateView {
                surf: SurfacesView {
                    fractional_scales: self.surf.fractional_scales.without((msg.client_id, msg.object_id)),
                    ..self.surf
                },
                ..self
            }.unregister(msg.client_id, msg.object_id)
        } else {
            self.reject_unknown(msg, FRACTIONAL_SCALE_INTERFACE@)
        }
    }
}

pub fn handle(state: &mut CompositorState, msg: &ClientMessage)
    ensures
        final(state)@ == old(state)@.fractional_scale_request(*msg),
{
    match msg.op_code {
        0 => {
            let _ = state.surf.fractional_scales.remove((msg.client_id, msg.object_id));
            state.unregister(msg.client_id, msg.object_id);
        },
        _ => reject_unknown_request(state, msg, FRACTIONAL_SCALE_INTERFACE),
    }
}

/// Send `wp_fractional_scale_v1.preferred_scale`, in 120ths of one.
pub fn send_preferred_scale(state: &mut CompositorState, object: ClientObjectId, scale_120ths: u32)
    ensures
        final(state)@ == old(state)@.send_preferred_scale(object, scale_120ths),
{
    state.tell(object.0, build_message(object.1, PREFERRED_SCALE, one_arg(scale_120ths)));
}

/// Note the scale last sent, so an unchanged one is not repeated.
pub fn note_scale(state: &mut CompositorState, object: ClientObjectId, scale: u32)
    ensures
        final(state)@ == old(state)@.note_scale(object, scale),
{
    if let Some(b) = state.surf.fractional_scales.get_mut(object) {
        b.sent = Some(scale);
    }
}

} // verus!
