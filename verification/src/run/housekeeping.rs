//! What is done from time to time.
use crate::input::frames::{fire_frame_callbacks, FrameTarget};
use crate::run::pacer::FramePacer;
use crate::state::compositor_state::{CompositorState, DisplaysView, StateView};
use crate::state::types::ClientObjectId;
use vstd::prelude::*;

verus! {

impl StateView {
    /// With the bells that have rung out gone, and the flash with them.
    pub open spec fn expire_bells(self, now: u64) -> Self {
        StateView {
            dirty: self.dirty || self.bell_done(now),
            out: DisplaysView { bell_until: self.bells_left(now), ..self.out },
            ..self
        }
    }

    /// With the housekeeping done that the shell has no part in: bells that
    /// have rung out, surfaces that nothing shows, buffers that nothing reads.
    pub open spec fn housekeep(self, now: u64, timestamp: u32, busy: Seq<ClientObjectId>) -> Self {
        self.expire_bells(now).fire_frame_callbacks(
            timestamp,
            FrameTarget::Offscreen,
            None,
        ).start_buffer_releases().finish_buffer_releases(busy)
    }
}

/// The housekeeping the shell has no part in, once clients know what outputs
/// their surfaces are on and the shell has done its own. `busy` are the buffers
/// a frame in flight still reads.
pub fn housekeep(
    state: &mut CompositorState,
    pacer: &mut FramePacer,
    now: u64,
    timestamp_ms: u32,
    busy: &Vec<ClientObjectId>,
)
    ensures
        final(state)@ == old(state)@.housekeep(now, timestamp_ms, busy@),
        final(pacer)@ == old(pacer)@.forget_gone_outputs(old(state)@).collect(
            old(state)@.expire_bells(now).fire_frame_callbacks(timestamp_ms, FrameTarget::Offscreen, None),
        ),
{
    pacer.forget_gone_outputs(state);
    let _ = state.expire_bells(now);
    fire_frame_callbacks(state, timestamp_ms, FrameTarget::Offscreen, None);
    pacer.collect(state);
    state.start_buffer_releases();
    state.finish_buffer_releases(busy);
}

} // verus!
