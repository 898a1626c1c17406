//! What connections do.
use crate::seqs::copy_vec;
use crate::state::client_state::{ClientView, MAX_PENDING_FDS};
use crate::state::compositor_state::{CompositorState, MemoryView, StateView};
use crate::state::panels::{panel_outputs, resettle_each};
use crate::state::types::Hook;
use vstd::prelude::*;

verus! {

impl StateView {
    /// With a new client.
    pub open spec fn client_connected(self, client_id: u32) -> Self {
        StateView { clients: self.clients.put(client_id, ClientView::fresh()), ..self }
    }

    /// With descriptors to be closed.
    pub open spec fn close_fds(self, fds: Seq<i32>) -> Self {
        StateView { mem: MemoryView { closed_fds: self.mem.closed_fds + fds, ..self.mem }, ..self }
    }

    /// Whether a client would be left with too many descriptors unclaimed.
    pub open spec fn too_many_fds(self, client_id: u32, fds: Seq<i32>) -> bool {
        self.clients.has(client_id) && self.clients.at(client_id).fd_queue.len() + fds.len() > MAX_PENDING_FDS
    }

    /// With descriptors received from a client: queued for its requests, or
    /// all closed, and the client dropped, if they are too many.
    pub open spec fn fds_received(self, client_id: u32, fds: Seq<i32>) -> Self {
        if !self.clients.has(client_id) {
            self.close_fds(fds)
        } else if self.too_many_fds(client_id, fds) {
            StateView {
                clients: self.clients.edit(
                    client_id,
                    |c: ClientView| ClientView { fd_queue: Seq::empty(), cancelled: true, ..c },
                ),
                ..self
            }.close_fds(self.clients.at(client_id).fd_queue + fds)
        } else {
            StateView {
                clients: self.clients.edit(
                    client_id,
                    |c: ClientView| ClientView { fd_queue: c.fd_queue + fds, ..c },
                ),
                ..self
            }
        }
    }

    /// The descriptors a client has sent that nothing has claimed.
    pub open spec fn unclaimed(self, client_id: u32) -> Seq<i32> {
        if self.clients.has(client_id) {
            self.clients.at(client_id).fd_queue
        } else {
            Seq::empty()
        }
    }

    /// With a client gone: all that was its own, and then itself. The panels
    /// beside its own take the room they leave. If it had the focus the shell is
    /// to find another place for it.
    pub open spec fn client_disconnected(self, client_id: u32) -> Self {
        let torn = self.remove_client_resources(client_id);
        let gone = StateView { clients: torn.clients.without(client_id), ..torn }.close_fds(
            torn.unclaimed(client_id),
        ).resettle_each(self.panel_outputs(client_id)).dirtied();
        match self.input.focused_surface {
            Some(s) => if s.0 == client_id {
                gone.hook(Hook::Refocus)
            } else {
                gone
            },
            None => gone,
        }
    }
}

/// A client has connected.
pub fn client_connected(state: &mut CompositorState, client_id: u32)
    ensures
        final(state)@ == old(state)@.client_connected(client_id),
{
    state.clients.create(client_id);
}

fn close_fds(state: &mut CompositorState, fds: Vec<i32>)
    ensures
        final(state)@ == old(state)@.close_fds(fds@),
{
    let mut fds = fds;
    state.mem.closed_fds.append(&mut fds);
}

/// Descriptors have come with what a client sent. Returns whether what it sent
/// is to be read on.
pub fn fds_received(state: &mut CompositorState, client_id: u32, fds: Vec<i32>) -> (r: bool)
    ensures
        final(state)@ == old(state)@.fds_received(client_id, fds@),
        r == !old(state)@.too_many_fds(client_id, fds@),
{
    let refused: Option<Vec<i32>> = match state.clients.get(client_id) {
        Some(client) => match client.queue_fds(fds) {
            Ok(()) => {
                return true;
            },
            Err(all) => Some(all),
        },
        None => {
            close_fds(state, fds);
            return true;
        },
    };
    if let Some(all) = refused {
        close_fds(state, all);
    }
    false
}

fn unclaimed(state: &CompositorState, client_id: u32) -> (r: Vec<i32>)
    ensures
        r@ == state@.unclaimed(client_id),
{
    match state.clients.peek(client_id) {
        Some(client) => copy_vec(&client.fd_queue),
        None => Vec::new(),
    }
}

/// A client's connection has ended.
pub fn client_disconnected(state: &mut CompositorState, client_id: u32)
    ensures
        final(state)@ == old(state)@.client_disconnected(client_id),
{
    let was_focused: bool = match state.input.focused_surface {
        Some(s) => s.0 == client_id,
        None => false,
    };
    let outputs = panel_outputs(state, client_id);
    state.remove_client_resources(client_id);
    let fds = unclaimed(state, client_id);
    state.clients.remove(client_id);
    close_fds(state, fds);
    resettle_each(state, &outputs);
    state.dirty = true;
    if was_focused {
        state.hook(Hook::Refocus);
    }
}

} // verus!
