//! `zwp_primary_selection_offer_v1` protocol handler.
//!
//! An offer is the compositor's name for a primary selection source belonging
//! to some other client, handed to whoever may read from it. When the
//! compositor stops caring about an offer it forgets the offer's *contents*
//! and keeps its *identity*, so `receive` here has to survive its backing
//! source having gone.
use crate::protocol::data_common::handle_offer_request;
use crate::protocol::messages::{build_message, event, one_string};
use crate::protocol::wire_utils::{ArgView, ClientMessage};
use crate::state::compositor_state::CompositorState;
use crate::state::offers::OFFER;
use crate::state::types::ClientObjectId;
use vstd::prelude::*;

verus! {

pub const PRIMARY_OFFER_INTERFACE: &'static str = "zwp_primary_selection_offer_v1";

pub fn handle(state: &mut CompositorState, msg: &ClientMessage, fds: Vec<i32>)
    ensures
        final(state)@ == old(state)@.offer_request(*msg, fds@, PRIMARY_OFFER_INTERFACE@),
{
    handle_offer_request(state, msg, fds, PRIMARY_OFFER_INTERFACE);
}

/// Send `zwp_primary_selection_offer_v1.offer`, naming one mime type the source
/// can produce.
pub fn send_offer(state: &mut CompositorState, offer: ClientObjectId, mime_type: &str)
    ensures
        final(state)@ == old(state)@.tell(offer.0, event(offer.1, OFFER, seq![ArgView::Str(mime_type@)])),
{
    state.tell(offer.0, build_message(offer.1, OFFER, one_string(mime_type.to_string())));
}

} // verus!
