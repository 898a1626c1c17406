//! `zwlr_data_control_source_v1` protocol handler.
//!
//! What a clipboard manager offers a selection *with*.
use crate::protocol::{reject_malformed_request, reject_unknown_request};
use crate::protocol::messages::{build_message, build_message_with_fd, event, no_args, one_string};
use crate::protocol::wire_utils::{ClientMessage, string_at};
use crate::state::compositor_state::{CompositorState, StateView};
use crate::state::offers::{SOURCE_CANCELLED, SOURCE_SEND};
use crate::state::types::ClientObjectId;
use vstd::prelude::*;
use vstd::string::*;

verus! {

pub const CONTROL_SOURCE_INTERFACE: &'static str = "zwlr_data_control_source_v1";

/// `zwlr_data_control_source_v1.error.invalid_offer`: a mime type added after
/// the source was cancelled.
pub const ERROR_INVALID_OFFER: u32 = 1;

impl StateView {
    /// Whether a source is there and not cancelled.
    pub open spec fn source_live(self, key: ClientObjectId) -> bool {
        self.data.data_sources.has(key) && !self.data.data_sources.at(key).cancelled
    }

    /// `offer`: an error on a source that has been cancelled.
    pub open spec fn control_source_offer(self, msg: ClientMessage) -> Self {
        let key = (msg.client_id, msg.object_id);
        match string_at(msg.args@, 0) {
            None => self.reject_malformed(msg, CONTROL_SOURCE_INTERFACE@),
            Some((mime_type, _)) => if self.source_live(key) {
                self.add_mime_type(key, mime_type)
            } else {
                self.fail(
                    msg.client_id,
                    msg.object_id,
                    ERROR_INVALID_OFFER,
                    "zwlr_data_control_source_v1.offer: this source has been cancelled"@,
                )
            },
        }
    }

    /// `destroy`: nobody is told, for the client is doing it itself.
    pub open spec fn source_destroy(self, msg: ClientMessage) -> Self {
        self.retire_data_source((msg.client_id, msg.object_id), false).unregister(msg.client_id, msg.object_id)
    }

    /// Any request on a data-control source.
    pub open spec fn control_source_request(self, msg: ClientMessage) -> Self {
        if msg.op_code == 0 {
            self.control_source_offer(msg)
        } else if msg.op_code == 1 {
            self.source_destroy(msg)
        } else {
            self.reject_unknown(msg, CONTROL_SOURCE_INTERFACE@)
        }
    }
}

fn handle_offer(state: &mut CompositorState, msg: &ClientMessage)
    ensures
        final(state)@ == old(state)@.control_source_offer(*msg),
{
    let key = (msg.client_id, msg.object_id);
    match msg.string(0) {
        None => {
            reject_malformed_request(state, msg, CONTROL_SOURCE_INTERFACE);
        },
        Some((mime_type, _)) => {
            let live: bool = match state.data.data_sources.get(key) {
                Some(s) => !s.cancelled,
                None => false,
            };
            if live {
                state.add_mime_type(key, mime_type);
            } else {
                state.fail(
                    msg.client_id,
                    msg.object_id,
                    ERROR_INVALID_OFFER,
                    String::from_str("zwlr_data_control_source_v1.offer: this source has been cancelled"),
                );
            }
        },
    }
}

/// Take a source away at its client's request.
pub fn handle_source_destroy(state: &mut CompositorState, msg: &ClientMessage)
    ensures
        final(state)@ == old(state)@.source_destroy(*msg),
{
    state.retire_data_source((msg.client_id, msg.object_id), false);
    state.unregister(msg.client_id, msg.object_id);
}

/// Send `zwlr_data_control_source_v1.send`: hand the client the pipe to write the data into. With no
/// such client the pipe is closed.
pub fn send_send(state: &mut CompositorState, source: ClientObjectId, mime_type: String, fd: i32)
    ensures
        final(state)@ == old(state)@.ask_for_content(source, mime_type@, fd),
{
    if state.clients.peek(source.0).is_some() {
        state.tell(source.0, build_message_with_fd(source.1, SOURCE_SEND, one_string(mime_type), fd));
    } else {
        state.mem.closed_fds.push(fd);
    }
}

/// Send `zwlr_data_control_source_v1.cancelled`: the source no longer owns the selection, and the client
/// should destroy it.
pub fn send_cancelled(state: &mut CompositorState, source: ClientObjectId)
    ensures
        final(state)@ == old(state)@.tell(source.0, event(source.1, SOURCE_CANCELLED, Seq::empty())),
{
    state.tell(source.0, build_message(source.1, SOURCE_CANCELLED, no_args()));
}

pub fn handle(state: &mut CompositorState, msg: &ClientMessage)
    ensures
        final(state)@ == old(state)@.control_source_request(*msg),
{
    match msg.op_code {
        0 => handle_offer(state, msg),
        1 => handle_source_destroy(state, msg),
        _ => reject_unknown_request(state, msg, CONTROL_SOURCE_INTERFACE),
    }
}

} // verus!
