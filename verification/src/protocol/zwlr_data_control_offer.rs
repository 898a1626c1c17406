//! `zwlr_data_control_offer_v1` protocol handler.
//!
//! What a clipboard manager reads a selection through.
//!
//! The id is the compositor's: nothing but the client's own `destroy` takes it
//! out of the object map, so every request here has to survive the offer's
//! source having gone.
use crate::protocol::data_common::handle_offer_request;
use crate::protocol::wire_utils::ClientMessage;
use crate::state::compositor_state::CompositorState;
use vstd::prelude::*;

verus! {

pub const CONTROL_OFFER_INTERFACE: &'static str = "zwlr_data_control_offer_v1";

pub fn handle(state: &mut CompositorState, msg: &ClientMessage, fds: Vec<i32>)
    ensures
        final(state)@ == old(state)@.offer_request(*msg, fds@, CONTROL_OFFER_INTERFACE@),
{
    handle_offer_request(state, msg, fds, CONTROL_OFFER_INTERFACE);
}

} // verus!
