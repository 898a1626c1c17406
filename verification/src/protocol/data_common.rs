//! What the data interfaces have in common: adding mime types to a source,
//! and reading from an offer.
use crate::protocol::{reject_malformed_request, reject_unknown_request};
use crate::protocol::wire_utils::{ClientMessage, string_at};
use crate::state::compositor_state::{CompositorState, ExchangeView, MemoryView, StateView};
use crate::state::types::{ClientObjectId, DataSourceView, texts};
use crate::table::set_put;
use crate::text::same_text;
use vstd::prelude::*;

verus! {

impl StateView {
    /// With several descriptors for their owner to close.
    pub open spec fn close_all(self, fds: Seq<i32>) -> Self {
        StateView { mem: MemoryView { closed_fds: self.mem.closed_fds + fds, ..self.mem }, ..self }
    }

    /// With a mime type added to a source, unless it is there already.
    pub open spec fn add_mime_type(self, key: ClientObjectId, mime_type: Seq<char>) -> Self {
        StateView {
            data: ExchangeView {
                data_sources: self.data.data_sources.edit(
                    key,
                    |s: DataSourceView| DataSourceView { mime_types: set_put(s.mime_types, mime_type), ..s },
                ),
                ..self.data
            },
            ..self
        }
    }

    /// Whether a source has been offered as a mime type.
    pub open spec fn offers_as(self, source: ClientObjectId, mime_type: Seq<char>) -> bool {
        self.data.data_sources.has(source) && self.data.data_sources.at(source).mime_types.contains(mime_type)
    }

    /// The source behind an offer, if there is one.
    pub open spec fn source_behind(self, offer: ClientObjectId) -> Option<ClientObjectId> {
        if self.data.data_offers.has(offer) {
            self.data.data_offers.at(offer).source
        } else {
            None
        }
    }

    /// With a receiver's pipe handed to whoever owns what an offer is of, or
    /// closed: the offer has no source, or was never of that mime type.
    pub open spec fn relay_pipe(self, offer: ClientObjectId, mime_type: Seq<char>, fd: i32) -> Self {
        match self.source_behind(offer) {
            Some(source) => if self.offers_as(source, mime_type) {
                self.send_source_content(source, mime_type, fd)
            } else {
                self.close_fd(fd)
            },
            None => self.close_fd(fd),
        }
    }

    /// `receive`: the first descriptor is the pipe, and there are no others to
    /// keep.
    pub open spec fn offer_receive(self, msg: ClientMessage, fds: Seq<i32>, interface: Seq<char>) -> Self {
        match string_at(msg.args@, 0) {
            None => self.reject_malformed(msg, interface).close_all(fds),
            Some((mime_type, _)) => if fds.len() == 0 {
                self
            } else {
                self.close_all(fds.skip(1)).relay_pipe((msg.client_id, msg.object_id), mime_type, fds[0])
            },
        }
    }

    /// With an offer gone.
    pub open spec fn drop_offer(self, key: ClientObjectId) -> Self {
        StateView {
            data: ExchangeView { data_offers: self.data.data_offers.without(key), ..self.data },
            ..self
        }
    }

    /// Any request on an offer of the two interfaces other than `wl_data`.
    pub open spec fn offer_request(self, msg: ClientMessage, fds: Seq<i32>, interface: Seq<char>) -> Self {
        if msg.op_code == 0 {
            self.offer_receive(msg, fds, interface)
        } else if msg.op_code == 1 {
            self.drop_offer((msg.client_id, msg.object_id)).unregister(msg.client_id, msg.object_id).close_all(fds)
        } else {
            self.reject_unknown(msg, interface).close_all(fds)
        }
    }
}

/// Whether a list of texts holds a text.
pub fn holds_text(v: &Vec<String>, s: &String) -> (r: bool)
    ensures
        r == texts(v@).contains(s@),
{
    let mut i: usize = 0;
    while i < v.len()
        invariant
            i <= v@.len(),
            forall|j: int| 0 <= j < i ==> #[trigger] texts(v@)[j] != s@,
        decreases v@.len() - i,
    {
        if same_text(v[i].as_str(), s.as_str()) {
            proof {
                assert(texts(v@)[i as int] == s@);
            }
            return true;
        }
        i += 1;
    }
    false
}

impl CompositorState {
    /// Have descriptors closed by their owner.
    pub fn close_all(&mut self, fds: Vec<i32>)
        ensures
            final(self)@ == old(self)@.close_all(fds@),
    {
        let mut fds = fds;
        self.mem.closed_fds.append(&mut fds);
    }

    /// Add a mime type to a source. A duplicate says nothing new.
    pub fn add_mime_type(&mut self, key: ClientObjectId, mime_type: String)
        ensures
            final(self)@ == old(self)@.add_mime_type(key, mime_type@),
    {
        if let Some(s) = self.data.data_sources.get_mut(key) {
            if !holds_text(&s.mime_types, &mime_type) {
                let ghost before = s.mime_types@;
                s.mime_types.push(mime_type);
                proof {
                    assert(texts(s.mime_types@) =~= texts(before).push(mime_type@));
                }
            }
        }
    }

    fn relay_pipe(&mut self, offer: ClientObjectId, mime_type: String, fd: i32)
        ensures
            final(self)@ == old(self)@.relay_pipe(offer, mime_type@, fd),
    {
        let source: Option<ClientObjectId> = match self.data.data_offers.get(offer) {
            Some(o) => o.source,
            None => None,
        };
        match source {
            None => {
                self.mem.closed_fds.push(fd);
            },
            Some(source) => {
                let offered: bool = match self.data.data_sources.get(source) {
                    Some(s) => holds_text(&s.mime_types, &mime_type),
                    None => false,
                };
                if offered {
                    self.send_source_content(source, mime_type, fd);
                } else {
                    self.mem.closed_fds.push(fd);
                }
            },
        }
    }
}

/// Relay the receiving client's pipe to the source client.
///
/// The compositor moves one descriptor and reads nothing. Every refusal closes
/// the descriptor instead of sending an error: a client pasting from a
/// selection whose owner has exited has done nothing that warrants losing its
/// connection. It gets an empty paste, which is what actually happened.
fn handle_receive(state: &mut CompositorState, msg: &ClientMessage, fds: Vec<i32>, interface: &str)
    ensures
        final(state)@ == old(state)@.offer_receive(*msg, fds@, interface@),
{
    match msg.string(0) {
        None => {
            reject_malformed_request(state, msg, interface);
            state.close_all(fds);
        },
        Some((mime_type, _)) => {
            if fds.len() == 0 {
                return;
            }
            let mut fds = fds;
            let ghost all = fds@;
            let fd = fds.remove(0);
            proof {
                assert(fds@ =~= all.skip(1));
            }
            state.close_all(fds);
            state.relay_pipe((msg.client_id, msg.object_id), mime_type, fd);
        },
    }
}

/// Handle a request on an offer of the two interfaces other than `wl_data`,
/// which are alike but for their name.
pub fn handle_offer_request(state: &mut CompositorState, msg: &ClientMessage, fds: Vec<i32>, interface: &str)
    ensures
        final(state)@ == old(state)@.offer_request(*msg, fds@, interface@),
{
    match msg.op_code {
        0 => handle_receive(state, msg, fds, interface),
        1 => {
            let _ = state.data.data_offers.remove((msg.client_id, msg.object_id));
            state.unregister(msg.client_id, msg.object_id);
            state.close_all(fds);
        },
        _ => {
            reject_unknown_request(state, msg, interface);
            state.close_all(fds);
        },
    }
}

} // verus!
