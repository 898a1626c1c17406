//! What a refused request is answered: an error, the end of the connection, and
//! nothing else.
use crate::protocol::{ERROR_INVALID_METHOD, ERROR_INVALID_OBJECT};
use crate::protocol::messages::MessageView;
use crate::protocol::wire_utils::ClientMessage;
use crate::shell::Shell;
use crate::state::client_state::{ClientView, DISPLAY_ERROR, DISPLAY_ID};
use crate::state::compositor_state::StateView;
use crate::text::decimal;
use vstd::prelude::*;

verus! {

/// Whether the second of two states differs from the first in nothing but that
/// a client was told of an error and is to be disconnected.
pub open spec fn only_refused(a: StateView, b: StateView, client_id: u32) -> bool {
    &&& b == (StateView { clients: b.clients, ..a })
    &&& b.clients.order == a.clients.order
    &&& forall|c: u32| #[trigger] b.clients.has(c) <==> a.clients.has(c)
    &&& forall|c: u32| c != client_id && a.clients.has(c) ==> #[trigger] b.clients.at(c) == a.clients.at(c)
    &&& b.clients.has(client_id) ==> {
        let (before, after) = (a.clients.at(client_id), b.clients.at(client_id));
        &&& after == (ClientView { outbox: after.outbox, cancelled: true, ..before })
        &&& after.outbox.len() == before.outbox.len() + 1
        &&& after.outbox.drop_last() == before.outbox
        &&& is_error(after.outbox.last())
    }
}

/// Whether a message is a `wl_display.error`.
pub open spec fn is_error(m: MessageView) -> bool {
    match m {
        MessageView::Event(e) => e.object_id == DISPLAY_ID && e.op_code == DISPLAY_ERROR,
        _ => false,
    }
}

/// A failure is told to the client it is of, and changes nothing else.
pub proof fn lemma_failure_is_only_told(s: StateView, client_id: u32, object_id: u32, code: u32, text: Seq<char>)
    ensures
        only_refused(s, s.fail(client_id, object_id, code, text), client_id),
{
    let t = s.fail(client_id, object_id, code, text);
    if s.clients.has(client_id) {
        assert(t.clients.at(client_id).outbox.drop_last() =~= s.clients.at(client_id).outbox);
    }
}

/// A request on an object that is not there is refused.
pub proof fn lemma_no_such_object<S: Shell>(s: StateView, shell: S, msg: ClientMessage)
    requires
        s.clients.has(msg.client_id),
        s.type_of(msg.client_id, msg.object_id) is None,
    ensures
        only_refused(s, s.handle_message(shell, msg), msg.client_id),
{
    lemma_failure_is_only_told(
        s,
        msg.client_id,
        msg.object_id,
        ERROR_INVALID_OBJECT,
        "invalid object "@ + decimal(msg.object_id as int) + ""@,
    );
}

/// A client that is gone is not heard.
pub proof fn lemma_gone_client_is_not_heard<S: Shell>(s: StateView, shell: S, msg: ClientMessage)
    requires
        !s.clients.has(msg.client_id),
    ensures
        s.handle_message(shell, msg) == s,
{
}

/// A request that an interface does not have, or whose arguments do not decode,
/// is refused, and changes nothing else.
pub proof fn lemma_bad_request_is_refused(s: StateView, msg: ClientMessage, interface: Seq<char>)
    ensures
        only_refused(s, s.reject_unknown(msg, interface), msg.client_id),
        only_refused(s, s.reject_malformed(msg, interface), msg.client_id),
{
    lemma_failure_is_only_told(
        s,
        msg.client_id,
        msg.object_id,
        ERROR_INVALID_METHOD,
        interface + " has no request "@ + decimal(msg.op_code as int),
    );
    lemma_failure_is_only_told(
        s,
        msg.client_id,
        msg.object_id,
        ERROR_INVALID_METHOD,
        "malformed arguments for "@ + s.request_named(msg, interface),
    );
}

} // verus!
