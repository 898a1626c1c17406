//! `wl_callback` protocol handler.
//!
//! Callbacks are one-shot objects created by the compositor. The interface has
//! no requests at all, so anything arriving here is a protocol error.
use crate::protocol::reject_unknown_request;
use crate::protocol::wire_utils::ClientMessage;
use crate::state::compositor_state::CompositorState;
use vstd::prelude::*;

verus! {

pub fn handle(state: &mut CompositorState, msg: &ClientMessage)
    ensures
        final(state)@ == old(state)@.reject_unknown(*msg, "wl_callback"@),
{
    reject_unknown_request(state, msg, "wl_callback");
}

} // verus!
