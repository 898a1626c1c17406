//! A source that goes: what it is told, and what is left of it.
use crate::laws::exchange::{lemma_announce_selections, no_offer_of, same_sources};
use crate::laws::teardown::lemma_announce_outside;
use crate::protocol::messages::{event, MessageView, Notice};
use crate::protocol::wire_utils::ArgView;
use crate::protocol::zwlr_data_control_device::control_event;
use crate::protocol::zwp_primary_selection_device::PRIMARY_DEVICE_SELECTION;
use crate::state::compositor_state::StateView;
use crate::state::drags::DragEvent;
use crate::state::offers::{offer_events, offer_intro, SOURCE_CANCELLED};
use crate::state::selections::Which;
use crate::state::types::{
    ClientObjectId, DataControlDeviceBinding, DataInterface, OfferKind, PrimaryDeviceBinding,
};
use vstd::prelude::*;

verus! {

/// Whether a message tells a source that it is cancelled.
pub open spec fn cancels(m: MessageView, source_id: u32) -> bool {
    ||| m == MessageView::Notice(Notice::SourceCancelled { source: source_id })
    ||| m == event(source_id, SOURCE_CANCELLED, Seq::empty())
}

/// How many of some messages tell a source that it is cancelled.
pub open spec fn tally(ms: Seq<MessageView>, source_id: u32) -> nat
    decreases ms.len(),
{
    if ms.len() == 0 {
        0
    } else {
        tally(ms.drop_last(), source_id) + if cancels(ms.last(), source_id) {
            1nat
        } else {
            0nat
        }
    }
}

/// How often a source has been told that it is cancelled, of what its client has
/// not read yet.
pub open spec fn times_told(s: StateView, source: ClientObjectId) -> nat {
    if s.clients.has(source.0) {
        tally(s.clients.at(source.0).outbox, source.1)
    } else {
        0
    }
}

/// Whether two states have the same clients, of whom a source has been told as
/// often.
pub open spec fn as_told(a: StateView, b: StateView, source: ClientObjectId) -> bool {
    &&& b.clients.has(source.0) == a.clients.has(source.0)
    &&& times_told(b, source) == times_told(a, source)
}

/// Whether every offer of one state is still there in another.
pub open spec fn offers_stay(a: StateView, b: StateView) -> bool {
    forall|k: ClientObjectId| a.data.data_offers.has(k) ==> #[trigger] b.data.data_offers.has(k)
}

proof fn lemma_tally_add(a: Seq<MessageView>, b: Seq<MessageView>, id: u32)
    ensures
        tally(a + b, id) == tally(a, id) + tally(b, id),
    decreases b.len(),
{
    if b.len() == 0 {
        assert(a + b =~= a);
    } else {
        assert((a + b).drop_last() =~= a + b.drop_last());
        lemma_tally_add(a, b.drop_last(), id);
    }
}

proof fn lemma_tally_none(ms: Seq<MessageView>, id: u32)
    requires
        forall|i: int| 0 <= i < ms.len() ==> !cancels(#[trigger] ms[i], id),
    ensures
        tally(ms, id) == 0,
    decreases ms.len(),
{
    if ms.len() > 0 {
        assert(!cancels(ms[ms.len() - 1], id));
        assert forall|i: int| 0 <= i < ms.drop_last().len() implies !cancels(#[trigger] ms.drop_last()[i], id) by {
            assert(ms.drop_last()[i] == ms[i]);
        }
        lemma_tally_none(ms.drop_last(), id);
    }
}

proof fn lemma_told_one(s: StateView, c: u32, m: MessageView, source: ClientObjectId)
    ensures
        s.tell(c, m).clients.has(source.0) == s.clients.has(source.0),
        times_told(s.tell(c, m), source) == times_told(s, source) + if s.clients.has(source.0) && c == source.0
            && cancels(m, source.1) {
            1nat
        } else {
            0nat
        },
{
    if s.clients.has(c) {
        let before = s.clients.at(c).outbox;
        assert(before.push(m).drop_last() =~= before);
    }
}

proof fn lemma_told_several(s: StateView, c: u32, ms: Seq<MessageView>, source: ClientObjectId)
    requires
        forall|i: int| 0 <= i < ms.len() ==> !cancels(#[trigger] ms[i], source.1),
    ensures
        as_told(s, s.tell_all(c, ms), source),
{
    lemma_tally_none(ms, source.1);
    if s.clients.has(c) {
        lemma_tally_add(s.clients.at(c).outbox, ms, source.1);
    }
}

proof fn lemma_offer_told(
    s: StateView,
    c: u32,
    device: u32,
    of: ClientObjectId,
    interface: DataInterface,
    kind: OfferKind,
    source: ClientObjectId,
)
    ensures
        as_told(s, s.create_offer(c, device, of, interface, kind), source),
        offers_stay(s, s.create_offer(c, device, of, interface, kind)),
{
    if s.can_offer(c) {
        let offer = s.next_offer(c);
        let named = s.name_offer(c, device, interface).put_offer(offer, of, kind);
        let intro = offer_intro(interface, device, offer.1);
        assert(seq![ArgView::Uint(offer.1)].len() == 1);
        lemma_told_one(named, c, intro, source);
        let ms = offer_events(offer.1, s.mime_types_of(of));
        assert forall|i: int| 0 <= i < ms.len() implies !cancels(#[trigger] ms[i], source.1) by {
            assert(seq![ArgView::Str(s.mime_types_of(of)[i])].len() == 1);
        }
        lemma_told_several(named.tell(c, intro), c, ms, source);
    }
}

proof fn lemma_primary_told(s: StateView, c: u32, devices: Seq<PrimaryDeviceBinding>, source: ClientObjectId)
    ensures
        as_told(s, s.primary_to_devices(c, devices), source),
        offers_stay(s, s.primary_to_devices(c, devices)),
    decreases devices.len(),
{
    if devices.len() > 0 {
        lemma_primary_told(s, c, devices.drop_last(), source);
        let before = s.primary_to_devices(c, devices.drop_last());
        let d = devices.last().object_id;
        let none = seq![ArgView::Object(None)];
        let some = seq![ArgView::Object(Some(before.next_offer(c).1))];
        assert(none.len() == 1 && some.len() == 1);
        match before.data.primary_selection {
            None => lemma_told_one(
                before,
                c,
                event(d, PRIMARY_DEVICE_SELECTION, none),
                source,
            ),
            Some(of) => {
                let offered = before.create_offer(c, d, of, DataInterface::PrimarySelection, OfferKind::Selection);
                lemma_offer_told(before, c, d, of, DataInterface::PrimarySelection, OfferKind::Selection, source);
                lemma_told_one(
                    offered,
                    c,
                    event(d, PRIMARY_DEVICE_SELECTION, some),
                    source,
                );
            },
        }
    }
}

proof fn lemma_control_told(
    s: StateView,
    devices: Seq<DataControlDeviceBinding>,
    which: Which,
    source: ClientObjectId,
)
    ensures
        as_told(s, s.control_to_devices(devices, which), source),
        offers_stay(s, s.control_to_devices(devices, which)),
    decreases devices.len(),
{
    if devices.len() > 0 {
        lemma_control_told(s, devices.drop_last(), which, source);
        let before = s.control_to_devices(devices.drop_last(), which);
        let (c, d) = (devices.last().client_id, devices.last().object_id);
        let none = seq![ArgView::Object(None)];
        let some = seq![ArgView::Object(Some(before.next_offer(c).1))];
        assert(none.len() == 1 && some.len() == 1);
        let op = control_event(which);
        match before.held(which) {
            None => lemma_told_one(before, c, event(d, op, none), source),
            Some(of) => {
                let offered = before.create_offer(c, d, of, DataInterface::DataControl, OfferKind::Selection);
                lemma_offer_told(before, c, d, of, DataInterface::DataControl, OfferKind::Selection, source);
                lemma_told_one(offered, c, event(d, op, some), source);
            },
        }
    }
}

proof fn lemma_announce_told(s: StateView, which: Which, source: ClientObjectId)
    ensures
        as_told(s, s.announce(which), source),
        offers_stay(s, s.announce(which)),
        s.announce(which).data.drag == s.data.drag,
{
    if let Some(f) = s.input.focused_surface {
        if which is Primary {
            lemma_primary_told(s, f.0, s.data.primary_devices, source);
        } else {
            lemma_told_one(s, f.0, MessageView::Notice(Notice::Clipboard), source);
        }
    }
    let told = s.tell_focused(which);
    lemma_control_told(told, told.data.data_control_devices, which, source);
    lemma_announce_outside(s, which);
}

proof fn lemma_clear_told(s: StateView, which: Which, of: ClientObjectId, source: ClientObjectId)
    ensures
        as_told(s, s.clear_if_held(which, of), source),
        offers_stay(s, s.clear_if_held(which, of)),
        s.clear_if_held(which, of).data.drag == s.data.drag,
        s.clear_if_held(which, of).data.data_sources == s.data.data_sources,
        s.clear_if_held(which, of).held(which) != Some(of),
        forall|other: Which| other != which ==> #[trigger] s.clear_if_held(which, of).held(other) == s.held(other),
{
    let bare = s.hold(which, None);
    lemma_announce_told(bare, which, source);
    lemma_announce_selections(bare, which);
}

proof fn lemma_cut_each(s: StateView, offers: Seq<ClientObjectId>)
    ensures
        s.invalidate_each(offers).clients == s.clients,
        same_sources(s, s.invalidate_each(offers)),
        s.invalidate_each(offers).data.drag == s.data.drag,
        offers_stay(s, s.invalidate_each(offers)),
    decreases offers.len(),
{
    if offers.len() > 0 {
        lemma_cut_each(s, offers.drop_last());
        let before = s.invalidate_each(offers.drop_last());
        let after = s.invalidate_each(offers);
        assert forall|k: ClientObjectId| s.data.data_offers.has(k) implies #[trigger] after.data.data_offers.has(k) by {
            assert(before.data.data_offers.has(k));
        }
    }
}

proof fn lemma_abandon_told(s: StateView, of: ClientObjectId, source: ClientObjectId)
    ensures
        as_told(s, s.abandon_drag_of(of), source),
        same_sources(s, s.abandon_drag_of(of)),
        offers_stay(s, s.abandon_drag_of(of)),
        match s.abandon_drag_of(of).data.drag {
            Some(d) => d.source != Some(of),
            None => true,
        },
{
    if let Some(d) = s.data.drag {
        let bare = s.set_drag(None);
        if let Some(f) = d.focus {
            lemma_told_several(bare, f.0, DragEvent::Leave.notices_for(bare.devices_of(f.0)), source);
        }
        lemma_cut_each(bare.leave_focus(d.focus), d.focus_offers);
    }
}

/// A source that is taken away is told that it is cancelled, once, and one that
/// its client destroys is not told at all, whatever it was in the middle of.
pub proof fn lemma_retired_source_is_told_once(s: StateView, source: ClientObjectId, notify: bool)
    ensures
        times_told(s.retire_data_source(source, notify), source) == times_told(s, source) + if notify
            && s.data.data_sources.has(source) && s.clients.has(source.0) {
            1nat
        } else {
            0nat
        },
{
    let clipped = s.clear_if_held(Which::Clipboard, source);
    lemma_clear_told(s, Which::Clipboard, source, source);
    let cleared = clipped.clear_if_held(Which::Primary, source);
    lemma_clear_told(clipped, Which::Primary, source, source);
    let loose = cleared.abandon_drag_of(source).invalidate_offers_from(source);
    lemma_abandon_told(cleared, source, source);
    let noted = loose.set_cancelled(source);
    lemma_told_one(
        noted,
        source.0,
        MessageView::Notice(Notice::SourceCancelled { source: source.1 }),
        source,
    );
    lemma_told_one(noted, source.0, event(source.1, SOURCE_CANCELLED, Seq::empty()), source);
}

/// A source that goes is on no selection, in no drag and behind no offer, and no
/// offer goes with it.
pub proof fn lemma_retired_source_is_gone(s: StateView, source: ClientObjectId, notify: bool)
    ensures
        ({
            let t = s.retire_data_source(source, notify);
            &&& !t.data.data_sources.has(source)
            &&& t.data.selection != Some(source)
            &&& t.data.primary_selection != Some(source)
            &&& t.data.drag is Some ==> (t.data.drag->0).source != Some(source)
            &&& no_offer_of(t, source)
            &&& offers_stay(s, t)
        }),
{
    let clipped = s.clear_if_held(Which::Clipboard, source);
    lemma_clear_told(s, Which::Clipboard, source, source);
    let cleared = clipped.clear_if_held(Which::Primary, source);
    lemma_clear_told(clipped, Which::Primary, source, source);
    assert(cleared.held(Which::Clipboard) == clipped.held(Which::Clipboard));
    assert(cleared.held(Which::Primary) != Some(source));
    let ended = cleared.abandon_drag_of(source);
    lemma_abandon_told(cleared, source, source);
    let loose = ended.invalidate_offers_from(source);
    assert(no_offer_of(loose, source));
    assert(offers_stay(s, loose)) by {
        assert forall|k: ClientObjectId| s.data.data_offers.has(k) implies #[trigger] loose.data.data_offers.has(k) by {
            assert(clipped.data.data_offers.has(k));
            assert(cleared.data.data_offers.has(k));
            assert(ended.data.data_offers.has(k));
        }
    }
}

} // verus!
