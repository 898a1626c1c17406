//! `zwlr_data_control_device_v1` protocol handler.
//!
//! The interface a clipboard manager binds, and the one place in the data
//! protocols where focus does not come into it.
use crate::protocol::{reject_malformed_request, reject_unknown_request};
use crate::protocol::messages::{build_message, event, one_arg};
use crate::protocol::wire_utils::{ArgView, ClientMessage};
use crate::protocol::zwp_primary_selection_device::one_object;
use crate::seqs::lemma_filter_push;
use crate::state::compositor_state::{CompositorState, ExchangeView, StateView};
use crate::state::offers::DATA_OFFER;
use crate::state::selections::Which;
use crate::state::types::{
    ClientObjectId, DataControlDeviceBinding, DataInterface, DataSourceRole, DataSourceView,
    OfferKind,
};
use vstd::prelude::*;
use vstd::string::*;

verus! {

pub const CONTROL_DEVICE_INTERFACE: &'static str = "zwlr_data_control_device_v1";

/// `selection`
pub const CONTROL_SELECTION: u16 = 1;

/// `primary_selection`
pub const CONTROL_PRIMARY_SELECTION: u16 = 3;

/// The version at which the primary selection half of this interface appears.
pub const PRIMARY_SINCE: u32 = 2;

/// `zwlr_data_control_device_v1.error.used_source`: a source offered twice.
pub const ERROR_USED_SOURCE: u32 = 1;

/// The event a selection is told by.
pub open spec fn control_event(which: Which) -> u16 {
    match which {
        Which::Clipboard => CONTROL_SELECTION,
        Which::Primary => CONTROL_PRIMARY_SELECTION,
    }
}

impl StateView {
    /// Whether a device has the half of the interface a selection is told on.
    pub open spec fn control_hears(self, client_id: u32, device_id: u32, which: Which) -> bool {
        which is Clipboard || (self.clients.has(client_id) && self.clients.at(client_id).version(device_id)
            >= PRIMARY_SINCE)
    }

    /// With one data-control device told what a selection is.
    pub open spec fn control_to_device(self, client_id: u32, device_id: u32, which: Which) -> Self {
        if !self.control_hears(client_id, device_id, which) {
            self
        } else {
            match self.held(which) {
                None => self.tell(client_id, event(device_id, control_event(which), seq![ArgView::Object(None)])),
                Some(source) => if self.can_offer(client_id) {
                    self.create_offer(
                        client_id,
                        device_id,
                        source,
                        DataInterface::DataControl,
                        OfferKind::Selection,
                    ).tell(
                        client_id,
                        event(
                            device_id,
                            control_event(which),
                            seq![ArgView::Object(Some(self.next_offer(client_id).1))],
                        ),
                    )
                } else {
                    self
                },
            }
        }
    }

    /// With some data-control devices told what a selection is.
    pub open spec fn control_to_devices(self, devices: Seq<DataControlDeviceBinding>, which: Which) -> Self
        decreases devices.len(),
    {
        if devices.len() == 0 {
            self
        } else {
            self.control_to_devices(devices.drop_last(), which).control_to_device(
                devices.last().client_id,
                devices.last().object_id,
                which,
            )
        }
    }

    /// With every data-control device told what a selection is.
    pub open spec fn control_announce(self, which: Which) -> Self {
        self.control_to_devices(self.data.data_control_devices, which)
    }

    /// With a source noted as spent on a selection.
    pub open spec fn spend_source(self, key: ClientObjectId) -> Self {
        StateView {
            data: ExchangeView {
                data_sources: self.data.data_sources.edit(
                    key,
                    |s: DataSourceView| DataSourceView { role: DataSourceRole::Selection, ..s },
                ),
                ..self.data
            },
            ..self
        }
    }

    /// `set_selection` and `set_primary_selection`: a source of this interface
    /// that has not been offered before, or none.
    pub open spec fn control_set_selection(self, msg: ClientMessage, which: Which) -> Self {
        match msg.word(0) {
            None => self.reject_malformed(msg, CONTROL_DEVICE_INTERFACE@),
            Some(id) => {
                let key = (msg.client_id, id);
                if id == 0 {
                    self.select(which, None)
                } else if self.source_interface(key) != Some(DataInterface::DataControl) {
                    self
                } else if !(self.data.data_sources.at(key).role is Unused) {
                    self.fail(
                        msg.client_id,
                        msg.object_id,
                        ERROR_USED_SOURCE,
                        "zwlr_data_control_device_v1: this source has already been offered"@,
                    )
                } else {
                    self.spend_source(key).select(which, Some(key))
                }
            },
        }
    }

    /// With a data-control device gone.
    pub open spec fn drop_control_device(self, client_id: u32, device_id: u32) -> Self {
        StateView {
            data: ExchangeView {
                data_control_devices: self.data.data_control_devices.filter(other_control(client_id, device_id)),
                ..self.data
            },
            ..self
        }
    }

    /// Any request on a data-control device.
    pub open spec fn control_device_request(self, msg: ClientMessage) -> Self {
        if msg.op_code == 0 {
            self.control_set_selection(msg, Which::Clipboard)
        } else if msg.op_code == 1 {
            self.drop_control_device(msg.client_id, msg.object_id).unregister(msg.client_id, msg.object_id)
        } else if msg.op_code == 2 {
            self.control_set_selection(msg, Which::Primary)
        } else {
            self.reject_unknown(msg, CONTROL_DEVICE_INTERFACE@)
        }
    }

    /// With one device handed both selections.
    pub open spec fn control_current(self, client_id: u32, device_id: u32) -> Self {
        self.control_to_device(client_id, device_id, Which::Clipboard).control_to_device(
            client_id,
            device_id,
            Which::Primary,
        )
    }
}

fn send_to_device(state: &mut CompositorState, client_id: u32, device_id: u32, which: Which)
    ensures
        final(state)@ == old(state)@.control_to_device(client_id, device_id, which),
{
    let (op_code, source): (u16, Option<ClientObjectId>) = match which {
        Which::Clipboard => (CONTROL_SELECTION, state.data.selection),
        Which::Primary => (CONTROL_PRIMARY_SELECTION, state.data.primary_selection),
    };
    let hears: bool = match which {
        Which::Clipboard => true,
        Which::Primary => match state.clients.version_of(client_id, device_id) {
            Some(v) => v >= PRIMARY_SINCE,
            None => false,
        },
    };
    if !hears {
        return;
    }
    match source {
        None => {
            state.tell(client_id, build_message(device_id, op_code, one_object(None)));
        },
        Some(source) => {
            match state.create_offer(client_id, device_id, source, DataInterface::DataControl, OfferKind::Selection) {
                None => {},
                Some(offer) => {
                    state.tell(client_id, build_message(device_id, op_code, one_object(Some(offer.1))));
                },
            }
        },
    }
}

/// Send `zwlr_data_control_device_v1.data_offer`, introducing a new offer.
pub fn send_data_offer(state: &mut CompositorState, client_id: u32, device_id: u32, offer_id: u32)
    ensures
        final(state)@ == old(state)@.tell(client_id, event(device_id, DATA_OFFER, seq![ArgView::Uint(offer_id)])),
{
    state.tell(client_id, build_message(device_id, DATA_OFFER, one_arg(offer_id)));
}

/// Tell every data-control device what a selection now holds.
pub fn announce_to_control(state: &mut CompositorState, which: Which)
    ensures
        final(state)@ == old(state)@.control_announce(which),
{
    let n: usize = state.data.data_control_devices.len();
    let ghost devices = state@.data.data_control_devices;
    let mut i: usize = 0;
    while i < n
        invariant
            i <= n,
            n == devices.len(),
            devices == state@.data.data_control_devices,
            state@ == old(state)@.control_to_devices(devices.take(i as int), which),
        decreases n - i,
    {
        let d = state.data.data_control_devices[i];
        proof {
            assert(devices.take(i + 1).drop_last() =~= devices.take(i as int));
        }
        send_to_device(state, d.client_id, d.object_id, which);
        i += 1;
    }
    proof {
        assert(devices.take(i as int) =~= devices);
    }
}

/// Tell every data-control device what the clipboard now holds.
pub fn send_selection_to_all(state: &mut CompositorState)
    ensures
        final(state)@ == old(state)@.control_announce(Which::Clipboard),
{
    announce_to_control(state, Which::Clipboard);
}

/// Tell every data-control device what the primary selection now holds.
pub fn send_primary_selection_to_all(state: &mut CompositorState)
    ensures
        final(state)@ == old(state)@.control_announce(Which::Primary),
{
    announce_to_control(state, Which::Primary);
}

/// Hand one device the selection it has just been created with.
///
/// Both selections, because a manager binding mid-session has missed every
/// change that came before.
pub fn send_current_selections(state: &mut CompositorState, client_id: u32, device_id: u32)
    ensures
        final(state)@ == old(state)@.control_current(client_id, device_id),
{
    send_to_device(state, client_id, device_id, Which::Clipboard);
    send_to_device(state, client_id, device_id, Which::Primary);
}

/// Any data-control device but one.
pub open spec fn other_control(client_id: u32, device_id: u32) -> spec_fn(DataControlDeviceBinding) -> bool {
    |d: DataControlDeviceBinding| !(d.client_id == client_id && d.object_id == device_id)
}

fn spend_source(state: &mut CompositorState, key: ClientObjectId)
    ensures
        final(state)@ == old(state)@.spend_source(key),
{
    if let Some(s) = state.data.data_sources.get_mut(key) {
        s.role = DataSourceRole::Selection;
    }
}

fn select(state: &mut CompositorState, which: Which, source: Option<ClientObjectId>)
    ensures
        final(state)@ == old(state)@.select(which, source),
{
    match which {
        Which::Clipboard => state.set_selection(source),
        Which::Primary => state.set_primary_selection(source),
    }
}

/// Take a selection on behalf of a manager.
///
/// No serial, and no check that the client has focus - both deliberate, and
/// both the point of the interface. A source already used is refused, and
/// "already used" is not the same as "is the current selection": a source
/// cancelled and replaced has still been used.
fn handle_set_selection(state: &mut CompositorState, msg: &ClientMessage, which: Which)
    ensures
        final(state)@ == old(state)@.control_set_selection(*msg, which),
{
    let id: u32 = match msg.unsigned(0) {
        Some(id) => id,
        None => {
            reject_malformed_request(state, msg, CONTROL_DEVICE_INTERFACE);
            return;
        },
    };
    if id == 0 {
        select(state, which, None);
        return;
    }
    let key = (msg.client_id, id);
    let unused: bool = match state.data.data_sources.get(key) {
        None => {
            return;
        },
        Some(s) => {
            if s.interface != DataInterface::DataControl {
                return;
            }
            s.role == DataSourceRole::Unused
        },
    };
    if !unused {
        state.fail(
            msg.client_id,
            msg.object_id,
            ERROR_USED_SOURCE,
            String::from_str("zwlr_data_control_device_v1: this source has already been offered"),
        );
        return;
    }
    spend_source(state, key);
    select(state, which, Some(key));
}

fn handle_destroy(state: &mut CompositorState, msg: &ClientMessage)
    ensures
        final(state)@ == old(state)@.drop_control_device(msg.client_id, msg.object_id).unregister(
            msg.client_id,
            msg.object_id,
        ),
{
    let ghost all = state.data.data_control_devices@;
    let ghost p = other_control(msg.client_id, msg.object_id);
    let mut kept: Vec<DataControlDeviceBinding> = Vec::new();
    let mut i: usize = 0;
    proof {
        assert(all.take(0).filter(p) =~= Seq::<DataControlDeviceBinding>::empty()) by {
            reveal(Seq::filter);
        }
    }
    while i < state.data.data_control_devices.len()
        invariant
            i <= all.len(),
            *state == *old(state),
            all == state.data.data_control_devices@,
            p == other_control(msg.client_id, msg.object_id),
            kept@ == all.take(i as int).filter(p),
        decreases all.len() - i,
    {
        let d = state.data.data_control_devices[i];
        proof {
            assert(all.take(i + 1) =~= all.take(i as int).push(d));
            lemma_filter_push(all.take(i as int), d, p);
        }
        if !(d.client_id == msg.client_id && d.object_id == msg.object_id) {
            kept.push(d);
        }
        i += 1;
    }
    proof {
        assert(all.take(i as int) =~= all);
    }
    state.data.data_control_devices = kept;
    state.unregister(msg.client_id, msg.object_id);
}

pub fn handle(state: &mut CompositorState, msg: &ClientMessage)
    ensures
        final(state)@ == old(state)@.control_device_request(*msg),
{
    match msg.op_code {
        0 => handle_set_selection(state, msg, Which::Clipboard),
        1 => handle_destroy(state, msg),
        2 => handle_set_selection(state, msg, Which::Primary),
        _ => reject_unknown_request(state, msg, CONTROL_DEVICE_INTERFACE),
    }
}

} // verus!
