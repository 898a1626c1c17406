//! `zwp_primary_selection_source_v1` protocol handler.
//!
//! A list of mime types a client says it can produce, offered as the
//! middle-click clipboard. It holds no data: what moves the bytes is a pipe
//! the two clients share.
use crate::protocol::{reject_malformed_request, reject_unknown_request};
use crate::protocol::messages::{build_message, build_message_with_fd, event, no_args, one_string};
use crate::protocol::wire_utils::{ClientMessage, string_at};
use crate::protocol::zwlr_data_control_source::handle_source_destroy;
use crate::state::compositor_state::{CompositorState, StateView};
use crate::state::offers::{SOURCE_CANCELLED, SOURCE_SEND};
use crate::state::types::ClientObjectId;
use vstd::prelude::*;

verus! {

pub const PRIMARY_SOURCE_INTERFACE: &'static str = "zwp_primary_selection_source_v1";

impl StateView {
    /// `offer`: a duplicate, or a source that is gone, says nothing.
    pub open spec fn primary_source_offer(self, msg: ClientMessage) -> Self {
        match string_at(msg.args@, 0) {
            None => self.reject_malformed(msg, PRIMARY_SOURCE_INTERFACE@),
            Some((mime_type, _)) => self.add_mime_type((msg.client_id, msg.object_id), mime_type),
        }
    }

    /// Any request on a primary selection source.
    pub open spec fn primary_source_request(self, msg: ClientMessage) -> Self {
        if msg.op_code == 0 {
            self.primary_source_offer(msg)
        } else if msg.op_code == 1 {
            self.source_destroy(msg)
        } else {
            self.reject_unknown(msg, PRIMARY_SOURCE_INTERFACE@)
        }
    }
}

fn handle_offer(state: &mut CompositorState, msg: &ClientMessage)
    ensures
        final(state)@ == old(state)@.primary_source_offer(*msg),
{
    match msg.string(0) {
        None => {
            reject_malformed_request(state, msg, PRIMARY_SOURCE_INTERFACE);
        },
        Some((mime_type, _)) => {
            state.add_mime_type((msg.client_id, msg.object_id), mime_type);
        },
    }
}

/// Send `zwp_primary_selection_source_v1.send`: hand the client the pipe to write the data into. With no
/// such client the pipe is closed.
pub fn send_send(state: &mut CompositorState, source: ClientObjectId, mime_type: String, fd: i32)
    ensures
        final(state)@ == old(state)@.ask_for_content(source, mime_type@, fd),
{
    if state.clients.peek(source.0).is_some() {
        state.tell(source.0, build_message_with_fd(source.1, SOURCE_SEND, one_string(mime_type), fd));
    } else {
        state.mem.closed_fds.push(fd);
    }
}

/// Send `zwp_primary_selection_source_v1.cancelled`: the source no longer owns the selection, and the client
/// should destroy it.
pub fn send_cancelled(state: &mut CompositorState, source: ClientObjectId)
    ensures
        final(state)@ == old(state)@.tell(source.0, event(source.1, SOURCE_CANCELLED, Seq::empty())),
{
    state.tell(source.0, build_message(source.1, SOURCE_CANCELLED, no_args()));
}

pub fn handle(state: &mut CompositorState, msg: &ClientMessage)
    ensures
        final(state)@ == old(state)@.primary_source_request(*msg),
{
    match msg.op_code {
        0 => handle_offer(state, msg),
        1 => handle_source_destroy(state, msg),
        _ => reject_unknown_request(state, msg, PRIMARY_SOURCE_INTERFACE),
    }
}

} // verus!
