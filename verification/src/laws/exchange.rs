//! Selections and drags: what becomes of a source that loses its place, and
//! what two sides settle on.
use crate::state::actions::{
    ACTIONS_SINCE, DND_ACTION_ASK, DND_ACTION_COPY, DND_ACTION_MOVE, DND_ACTION_NONE,
    settled_action,
};
use crate::state::compositor_state::StateView;
use crate::state::selections::Which;
use crate::state::types::{
    ClientObjectId, DataControlDeviceBinding, DataInterface, OfferKind, PrimaryDeviceBinding,
};
use vstd::prelude::*;

verus! {

/// Whether no offer is of a source.
pub open spec fn no_offer_of(s: StateView, source: ClientObjectId) -> bool {
    forall|k: ClientObjectId|
        #[trigger] s.data.data_offers.has(k) ==> s.data.data_offers.at(k).source != Some(source)
}

/// Whether two states have the same sources, selections and devices.
pub open spec fn same_sources(a: StateView, b: StateView) -> bool {
    &&& b.data.data_sources == a.data.data_sources
    &&& b.data.selection == a.data.selection
    &&& b.data.primary_selection == a.data.primary_selection
    &&& b.data.primary_devices == a.data.primary_devices
    &&& b.data.data_control_devices == a.data.data_control_devices
}

proof fn lemma_create_offer_keeps(
    s: StateView,
    client_id: u32,
    device: u32,
    of: ClientObjectId,
    interface: DataInterface,
    kind: OfferKind,
    source: ClientObjectId,
)
    requires
        no_offer_of(s, source),
        of != source,
    ensures
        no_offer_of(s.create_offer(client_id, device, of, interface, kind), source),
        same_sources(s, s.create_offer(client_id, device, of, interface, kind)),
{
    let after = s.create_offer(client_id, device, of, interface, kind);
    assert forall|k: ClientObjectId| #[trigger] after.data.data_offers.has(k) implies after.data.data_offers.at(
        k,
    ).source != Some(source) by {
        if after.data.data_offers.has(k) && k != s.next_offer(client_id) {
            assert(s.data.data_offers.has(k));
        }
    }
}

proof fn lemma_primary_keeps(s: StateView, client_id: u32, devices: Seq<PrimaryDeviceBinding>, source: ClientObjectId)
    requires
        no_offer_of(s, source),
        s.data.primary_selection != Some(source),
    ensures
        no_offer_of(s.primary_to_devices(client_id, devices), source),
        same_sources(s, s.primary_to_devices(client_id, devices)),
    decreases devices.len(),
{
    if devices.len() > 0 {
        lemma_primary_keeps(s, client_id, devices.drop_last(), source);
        let before = s.primary_to_devices(client_id, devices.drop_last());
        if let Some(of) = before.data.primary_selection {
            lemma_create_offer_keeps(
                before,
                client_id,
                devices.last().object_id,
                of,
                DataInterface::PrimarySelection,
                OfferKind::Selection,
                source,
            );
        }
    }
}

proof fn lemma_control_keeps(
    s: StateView,
    devices: Seq<DataControlDeviceBinding>,
    which: Which,
    source: ClientObjectId,
)
    requires
        no_offer_of(s, source),
        s.held(which) != Some(source),
    ensures
        no_offer_of(s.control_to_devices(devices, which), source),
        same_sources(s, s.control_to_devices(devices, which)),
    decreases devices.len(),
{
    if devices.len() > 0 {
        lemma_control_keeps(s, devices.drop_last(), which, source);
        let before = s.control_to_devices(devices.drop_last(), which);
        let d = devices.last();
        if let Some(of) = before.held(which) {
            lemma_create_offer_keeps(
                before,
                d.client_id,
                d.object_id,
                of,
                DataInterface::DataControl,
                OfferKind::Selection,
                source,
            );
        }
    }
}

/// Telling everyone what a selection is changes no source and no selection, and
/// makes offers of nothing but what the selection holds.
pub proof fn lemma_announce_keeps(s: StateView, which: Which, source: ClientObjectId)
    requires
        no_offer_of(s, source),
        s.held(which) != Some(source),
    ensures
        no_offer_of(s.announce(which), source),
        same_sources(s, s.announce(which)),
{
    if let Some(f) = s.input.focused_surface {
        if which is Primary {
            lemma_primary_keeps(s, f.0, s.data.primary_devices, source);
        }
    }
    let told = s.tell_focused(which);
    assert(same_sources(s, told));
    assert(no_offer_of(told, source));
    lemma_control_keeps(told, told.data.data_control_devices, which, source);
}

/// Putting a source on a selection takes the selection from the source that had
/// it: that one is cancelled, and no offer of it is left to read from.
pub proof fn lemma_select_supplants(s: StateView, which: Which, old: ClientObjectId, new: Option<ClientObjectId>)
    requires
        s.held(which) == Some(old),
        new != Some(old),
    ensures
        s.select(which, new).held(which) == new,
        no_offer_of(s.select(which, new), old),
        s.data.data_sources.has(old) ==> s.select(which, new).data.data_sources.has(old) && s.select(
            which,
            new,
        ).data.data_sources.at(old).cancelled,
{
    let supplanted = s.supplant(which, new);
    let cancelled = s.cancel_source(old);
    assert(supplanted == cancelled.invalidate_offers_from(old));
    assert(no_offer_of(supplanted, old));
    let holding = supplanted.hold(which, new);
    assert(no_offer_of(holding, old));
    lemma_announce_keeps(holding, which, old);
}

/// One selection never touches the other.
pub proof fn lemma_selections_are_apart(s: StateView, which: Which, new: Option<ClientObjectId>, other: Which)
    requires
        other != which,
    ensures
        s.select(which, new).held(other) == s.held(other),
{
    let holding = s.supplant(which, new).hold(which, new);
    assert(holding.held(other) == s.held(other));
    lemma_announce_selections(holding, which);
}

proof fn lemma_primary_selections(s: StateView, client_id: u32, devices: Seq<PrimaryDeviceBinding>)
    ensures
        same_sources(s, s.primary_to_devices(client_id, devices)),
    decreases devices.len(),
{
    if devices.len() > 0 {
        lemma_primary_selections(s, client_id, devices.drop_last());
    }
}

proof fn lemma_control_selections(s: StateView, devices: Seq<DataControlDeviceBinding>, which: Which)
    ensures
        same_sources(s, s.control_to_devices(devices, which)),
    decreases devices.len(),
{
    if devices.len() > 0 {
        lemma_control_selections(s, devices.drop_last(), which);
    }
}

/// Telling everyone what a selection is changes no source and no selection.
pub proof fn lemma_announce_selections(s: StateView, which: Which)
    ensures
        same_sources(s, s.announce(which)),
{
    if let Some(f) = s.input.focused_surface {
        if which is Primary {
            lemma_primary_selections(s, f.0, s.data.primary_devices);
        }
    }
    let told = s.tell_focused(which);
    lemma_control_selections(told, told.data.data_control_devices, which);
}

/// Whether a mask is one action or none.
pub open spec fn one_action(a: u32) -> bool {
    a == DND_ACTION_NONE || a == DND_ACTION_COPY || a == DND_ACTION_MOVE || a == DND_ACTION_ASK
}

/// What two sides settle on is one action, which both of them allow.
pub proof fn lemma_settled_is_allowed(
    source_actions: u32,
    source_version: u32,
    offer_actions: u32,
    offer_preferred: u32,
    offer_version: u32,
)
    requires
        one_action(offer_preferred),
    ensures
        ({
            let a = settled_action(source_actions, source_version, offer_actions, offer_preferred, offer_version);
            &&& one_action(a)
            &&& source_version >= ACTIONS_SINCE ==> a & source_actions == a
            &&& source_version < ACTIONS_SINCE ==> a & DND_ACTION_COPY == a
            &&& offer_version >= ACTIONS_SINCE ==> a & offer_actions == a
        }),
{
    let on_offer: u32 = if source_version >= ACTIONS_SINCE {
        source_actions
    } else {
        DND_ACTION_COPY
    };
    let wanted: u32 = if offer_version >= ACTIONS_SINCE {
        offer_actions
    } else {
        on_offer
    };
    let preferred: u32 = if offer_version >= ACTIONS_SINCE {
        offer_preferred
    } else {
        DND_ACTION_COPY
    };
    let a = settled_action(source_actions, source_version, offer_actions, offer_preferred, offer_version);
    let available: u32 = on_offer & wanted;
    assert(one_action(a));
    assert(0u32 & source_actions == 0 && 0u32 & offer_actions == 0 && 0u32 & 1u32 == 0) by (bit_vector);
    if a != 0 {
        assert(a & available != 0) by {
            assert(available & 1u32 == 1u32 & available && available & 2u32 == 2u32 & available && available & 4u32
                == 4u32 & available) by (bit_vector);
        }
        assert(a & (on_offer & wanted) != 0 && (a == 1 || a == 2 || a == 4) ==> a & on_offer == a && a & wanted == a)
            by (bit_vector);
    }
}

/// Where both sides allow what the target would rather have, that is what they
/// settle on.
pub proof fn lemma_preference_wins(
    source_actions: u32,
    source_version: u32,
    offer_actions: u32,
    offer_preferred: u32,
    offer_version: u32,
)
    requires
        source_version >= ACTIONS_SINCE,
        offer_version >= ACTIONS_SINCE,
        offer_preferred & (source_actions & offer_actions) != 0,
    ensures
        settled_action(source_actions, source_version, offer_actions, offer_preferred, offer_version)
            == offer_preferred,
{
    assert(offer_preferred & (source_actions & offer_actions) != 0 ==> source_actions & offer_actions != 0)
        by (bit_vector);
}

} // verus!
