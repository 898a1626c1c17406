//! `zwp_primary_selection_device_v1` protocol handler.
//!
//! Where a client is told what the middle-click clipboard holds, and where it
//! says what it should hold.
use crate::protocol::{reject_malformed_request, reject_unknown_request};
use crate::protocol::messages::{build_message, event, one_arg};
use crate::protocol::wire_utils::{Arg, args_view, ArgView, ClientMessage};
use crate::seqs::lemma_filter_push;
use crate::state::compositor_state::{CompositorState, ExchangeView, StateView};
use crate::state::offers::DATA_OFFER;
use crate::state::selections::Which;
use crate::state::types::{DataInterface, OfferKind, PrimaryDeviceBinding};
use vstd::prelude::*;

verus! {

pub const PRIMARY_DEVICE_INTERFACE: &'static str = "zwp_primary_selection_device_v1";

/// `selection`
pub const PRIMARY_DEVICE_SELECTION: u16 = 1;

impl StateView {
    /// With one device handed the current primary selection, or told there is
    /// none.
    pub open spec fn primary_to_device(self, client_id: u32, device_id: u32) -> Self {
        match self.data.primary_selection {
            None => self.tell(client_id, event(device_id, PRIMARY_DEVICE_SELECTION, seq![ArgView::Object(None)])),
            Some(source) => if self.can_offer(client_id) {
                self.create_offer(
                    client_id,
                    device_id,
                    source,
                    DataInterface::PrimarySelection,
                    OfferKind::Selection,
                ).tell(
                    client_id,
                    event(
                        device_id,
                        PRIMARY_DEVICE_SELECTION,
                        seq![ArgView::Object(Some(self.next_offer(client_id).1))],
                    ),
                )
            } else {
                self
            },
        }
    }

    /// With those of some devices that are a client's handed the current
    /// primary selection.
    pub open spec fn primary_to_devices(self, client_id: u32, devices: Seq<PrimaryDeviceBinding>) -> Self
        decreases devices.len(),
    {
        if devices.len() == 0 {
            self
        } else {
            let before = self.primary_to_devices(client_id, devices.drop_last());
            if devices.last().client_id == client_id {
                before.primary_to_device(client_id, devices.last().object_id)
            } else {
                before
            }
        }
    }

    /// With a client handed the current primary selection on every one of its
    /// devices.
    pub open spec fn primary_to_client(self, client_id: u32) -> Self {
        self.primary_to_devices(client_id, self.data.primary_devices)
    }
}

impl StateView {
    /// `set_selection`: with a serial the client was recently given, and a
    /// source of this interface or none. This interface has no errors.
    pub open spec fn primary_set_selection(self, msg: ClientMessage) -> Self {
        match (msg.word(0), msg.word(1)) {
            (Some(id), Some(serial)) => {
                let key = (msg.client_id, id);
                if !self.recent_input_serial(msg.client_id, serial) {
                    self
                } else if id == 0 {
                    self.select(Which::Primary, None)
                } else if self.source_interface(key) != Some(DataInterface::PrimarySelection) {
                    self
                } else {
                    self.select(Which::Primary, Some(key))
                }
            },
            _ => self.reject_malformed(msg, PRIMARY_DEVICE_INTERFACE@),
        }
    }

    /// With a primary selection device gone.
    pub open spec fn drop_primary_device(self, client_id: u32, device_id: u32) -> Self {
        StateView {
            data: ExchangeView {
                primary_devices: self.data.primary_devices.filter(other_primary(client_id, device_id)),
                ..self.data
            },
            ..self
        }
    }

    /// Any request on a primary selection device.
    pub open spec fn primary_device_request(self, msg: ClientMessage) -> Self {
        if msg.op_code == 0 {
            self.primary_set_selection(msg)
        } else if msg.op_code == 1 {
            self.drop_primary_device(msg.client_id, msg.object_id).unregister(msg.client_id, msg.object_id)
        } else {
            self.reject_unknown(msg, PRIMARY_DEVICE_INTERFACE@)
        }
    }
}

/// Any primary selection device but one.
pub open spec fn other_primary(client_id: u32, device_id: u32) -> spec_fn(PrimaryDeviceBinding) -> bool {
    |d: PrimaryDeviceBinding| !(d.client_id == client_id && d.object_id == device_id)
}

/// One object argument, which may be null.
pub fn one_object(id: Option<u32>) -> (r: Vec<Arg>)
    ensures
        args_view(r@) == seq![ArgView::Object(id)],
{
    let r: Vec<Arg> = vec![Arg::Object(id)];
    proof {
        assert(args_view(r@) =~= seq![ArgView::Object(id)]);
    }
    r
}

/// Send `zwp_primary_selection_device_v1.data_offer`, introducing a new offer.
pub fn send_data_offer(state: &mut CompositorState, client_id: u32, device_id: u32, offer_id: u32)
    ensures
        final(state)@ == old(state)@.tell(client_id, event(device_id, DATA_OFFER, seq![ArgView::Uint(offer_id)])),
{
    state.tell(client_id, build_message(device_id, DATA_OFFER, one_arg(offer_id)));
}

/// Send `zwp_primary_selection_device_v1.selection`: what the primary selection
/// holds now, or that it holds nothing.
pub fn send_selection(state: &mut CompositorState, client_id: u32, device_id: u32, offer_id: Option<u32>)
    ensures
        final(state)@ == old(state)@.tell(
            client_id,
            event(device_id, PRIMARY_DEVICE_SELECTION, seq![ArgView::Object(offer_id)]),
        ),
{
    state.tell(client_id, build_message(device_id, PRIMARY_DEVICE_SELECTION, one_object(offer_id)));
}

/// Hand one device the current primary selection, or tell it there is none.
///
/// The client owning the selection is offered it back like any other: pasting
/// into the window the text was selected in is the ordinary case.
pub fn send_selection_to_device(state: &mut CompositorState, client_id: u32, device_id: u32)
    ensures
        final(state)@ == old(state)@.primary_to_device(client_id, device_id),
{
    match state.data.primary_selection {
        None => {
            send_selection(state, client_id, device_id, None);
        },
        Some(source) => {
            match state.create_offer(
                client_id,
                device_id,
                source,
                DataInterface::PrimarySelection,
                OfferKind::Selection,
            ) {
                None => {},
                Some(offer) => {
                    send_selection(state, client_id, device_id, Some(offer.1));
                },
            }
        },
    }
}

/// Hand a client the current primary selection, on every one of its devices.
///
/// `selection` is a per-device event, so a client holding two devices is told
/// twice and gets an offer for each - an offer belongs to the device it arrived
/// on.
pub fn send_selection_to_client(state: &mut CompositorState, client_id: u32)
    ensures
        final(state)@ == old(state)@.primary_to_client(client_id),
{
    let n: usize = state.data.primary_devices.len();
    let ghost devices = state@.data.primary_devices;
    let mut i: usize = 0;
    while i < n
        invariant
            i <= n,
            n == devices.len(),
            devices == state@.data.primary_devices,
            state@ == old(state)@.primary_to_devices(client_id, devices.take(i as int)),
        decreases n - i,
    {
        let d = state.data.primary_devices[i];
        proof {
            assert(devices.take(i + 1).drop_last() =~= devices.take(i as int));
        }
        if d.client_id == client_id {
            send_selection_to_device(state, client_id, d.object_id);
        }
        i += 1;
    }
    proof {
        assert(devices.take(i as int) =~= devices);
    }
}

/// Set the primary selection.
///
/// The serial is that of whatever event the client was handling when the user
/// made the selection, usually a whole gesture ago by the time the client gets
/// to it. Checked against the short history rather than the newest serial for
/// that reason. An id that is not one of this client's primary sources cannot
/// be honoured and cannot be refused either.
fn handle_set_selection(state: &mut CompositorState, msg: &ClientMessage)
    ensures
        final(state)@ == old(state)@.primary_set_selection(*msg),
{
    let (id, serial): (u32, u32) = match (msg.unsigned(0), msg.unsigned(1)) {
        (Some(id), Some(serial)) => (id, serial),
        _ => {
            reject_malformed_request(state, msg, PRIMARY_DEVICE_INTERFACE);
            return;
        },
    };
    if !state.is_recent_input_serial(msg.client_id, serial) {
        return;
    }
    if id == 0 {
        state.set_primary_selection(None);
        return;
    }
    let key = (msg.client_id, id);
    let fits: bool = match state.source_interface(key) {
        Some(DataInterface::PrimarySelection) => true,
        _ => false,
    };
    if fits {
        state.set_primary_selection(Some(key));
    }
}

fn handle_destroy(state: &mut CompositorState, msg: &ClientMessage)
    ensures
        final(state)@ == old(state)@.drop_primary_device(msg.client_id, msg.object_id).unregister(
            msg.client_id,
            msg.object_id,
        ),
{
    let ghost all = state.data.primary_devices@;
    let ghost p = other_primary(msg.client_id, msg.object_id);
    let mut kept: Vec<PrimaryDeviceBinding> = Vec::new();
    let mut i: usize = 0;
    proof {
        assert(all.take(0).filter(p) =~= Seq::<PrimaryDeviceBinding>::empty()) by {
            reveal(Seq::filter);
        }
    }
    while i < state.data.primary_devices.len()
        invariant
            i <= all.len(),
            *state == *old(state),
            all == state.data.primary_devices@,
            p == other_primary(msg.client_id, msg.object_id),
            kept@ == all.take(i as int).filter(p),
        decreases all.len() - i,
    {
        let d = state.data.primary_devices[i];
        proof {
            assert(all.take(i + 1) =~= all.take(i as int).push(d));
            lemma_filter_push(all.take(i as int), d, p);
        }
        if !(d.client_id == msg.client_id && d.object_id == msg.object_id) {
            kept.push(d);
        }
        i += 1;
    }
    proof {
        assert(all.take(i as int) =~= all);
    }
    state.data.primary_devices = kept;
    state.unregister(msg.client_id, msg.object_id);
}

pub fn handle(state: &mut CompositorState, msg: &ClientMessage)
    ensures
        final(state)@ == old(state)@.primary_device_request(*msg),
{
    match msg.op_code {
        0 => handle_set_selection(state, msg),
        1 => handle_destroy(state, msg),
        _ => reject_unknown_request(state, msg, PRIMARY_DEVICE_INTERFACE),
    }
}

} // verus!
