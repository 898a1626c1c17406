//! What two sides of a drag settle on doing.
use crate::protocol::messages::Notice;
use crate::state::compositor_state::{CompositorState, ExchangeView, StateView};
use crate::state::types::{ClientObjectId, DataOffer, DataOfferView, OfferKind};
use vstd::prelude::*;

verus! {

/// No action at all.
pub const DND_ACTION_NONE: u32 = 0;

/// The target takes a copy.
pub const DND_ACTION_COPY: u32 = 1;

/// The target takes the content, and the source gives it up.
pub const DND_ACTION_MOVE: u32 = 2;

/// The user is asked.
pub const DND_ACTION_ASK: u32 = 4;

/// The version of the data interfaces from which actions exist.
pub const ACTIONS_SINCE: u32 = 3;

/// The action for a drag from the two sides' masks.
///
/// A source too old to have actions means a copy; a target too old to have
/// them takes whatever is on offer and would rather have a copy. The
/// preference wins where the other side also offers it; failing that copy
/// comes ahead of move and move ahead of ask.
pub open spec fn settled_action(
    source_actions: u32,
    source_version: u32,
    offer_actions: u32,
    offer_preferred: u32,
    offer_version: u32,
) -> u32 {
    let on_offer = if source_version >= ACTIONS_SINCE {
        source_actions
    } else {
        DND_ACTION_COPY
    };
    let wanted = if offer_version >= ACTIONS_SINCE {
        offer_actions
    } else {
        on_offer
    };
    let preferred = if offer_version >= ACTIONS_SINCE {
        offer_preferred
    } else {
        DND_ACTION_COPY
    };
    let available = on_offer & wanted;
    if available == 0 {
        DND_ACTION_NONE
    } else if preferred & available != 0 {
        preferred
    } else if available & DND_ACTION_COPY != 0 {
        DND_ACTION_COPY
    } else if available & DND_ACTION_MOVE != 0 {
        DND_ACTION_MOVE
    } else if available & DND_ACTION_ASK != 0 {
        DND_ACTION_ASK
    } else {
        DND_ACTION_NONE
    }
}

/// Settle the action for a drag from the two sides' masks.
///
/// Both sides name a set of actions they will allow, and the receiving side
/// names one within its set that it would rather have. The preference wins
/// where the other side also offers it; failing that the lowest bit of what
/// they agree on does, which puts copy ahead of move ahead of ask.
///
/// A client too old to have `set_actions` at all is not the same as one that
/// has it and never called it, which is why the versions come in here. A
/// version 1 or 2 source can only mean a plain copy, and a version 1 or 2
/// target has no way to refuse anything, so it is taken to accept whatever is
/// on offer and to prefer a copy.
pub fn resolve_action(
    source_actions: u32,
    source_version: u32,
    offer_actions: u32,
    offer_preferred: u32,
    offer_version: u32,
) -> (r: u32)
    ensures
        r == settled_action(source_actions, source_version, offer_actions, offer_preferred, offer_version),
{
    let on_offer: u32 = if source_version >= ACTIONS_SINCE {
        source_actions
    } else {
        DND_ACTION_COPY
    };
    let (wanted, preferred): (u32, u32) = if offer_version >= ACTIONS_SINCE {
        (offer_actions, offer_preferred)
    } else {
        (on_offer, DND_ACTION_COPY)
    };
    let available: u32 = on_offer & wanted;
    if available == 0 {
        return DND_ACTION_NONE;
    }
    if preferred & available != 0 {
        return preferred;
    }
    if available & DND_ACTION_COPY != 0 {
        return DND_ACTION_COPY;
    }
    if available & DND_ACTION_MOVE != 0 {
        return DND_ACTION_MOVE;
    }
    if available & DND_ACTION_ASK != 0 {
        return DND_ACTION_ASK;
    }
    DND_ACTION_NONE
}

impl StateView {
    /// With the action of an offer settled.
    pub open spec fn set_resolved(self, offer: ClientObjectId, action: u32) -> Self {
        StateView {
            data: ExchangeView {
                data_offers: self.data.data_offers.edit(
                    offer,
                    |o: DataOfferView| DataOfferView { resolved_action: action, ..o },
                ),
                ..self.data
            },
            ..self
        }
    }

    /// The source of a drag offer that has an action to settle: the offer is
    /// no selection's, and its source still exists.
    pub open spec fn negotiates_with(self, offer: ClientObjectId) -> Option<ClientObjectId> {
        if !self.data.data_offers.has(offer) || self.data.data_offers.at(offer).kind is Selection {
            None
        } else {
            match self.data.data_offers.at(offer).source {
                Some(s) => if self.data.data_sources.has(s) {
                    Some(s)
                } else {
                    None
                },
                None => None,
            }
        }
    }

    /// The action an offer and its source settle on.
    pub open spec fn action_between(self, offer: ClientObjectId, source: ClientObjectId) -> u32 {
        settled_action(
            self.data.data_sources.at(source).actions,
            self.object_version(source),
            self.data.data_offers.at(offer).actions,
            self.data.data_offers.at(offer).preferred_action,
            self.object_version(offer),
        )
    }

    /// With the action of a drag offer settled, and both sides told if it
    /// changed.
    pub open spec fn resolve_offer_action(self, offer: ClientObjectId) -> Self {
        match self.negotiates_with(offer) {
            None => self,
            Some(source) => {
                let action = self.action_between(offer, source);
                if self.data.data_offers.at(offer).resolved_action == action {
                    self
                } else {
                    self.set_resolved(offer, action).notice(
                        offer.0,
                        Notice::OfferAction { offer: offer.1, action },
                    ).notice(source.0, Notice::SourceAction { source: source.1, action })
                }
            },
        }
    }

    /// With the actions of several drag offers settled.
    pub open spec fn resolve_each(self, offers: Seq<ClientObjectId>) -> Self
        decreases offers.len(),
    {
        if offers.len() == 0 {
            self
        } else {
            self.resolve_each(offers.drop_last()).resolve_offer_action(offers.last())
        }
    }

    /// The offers of drags that still have a source.
    pub open spec fn live_drag_offers(self) -> Seq<ClientObjectId> {
        self.data.data_offers.keys_where(
            |k: ClientObjectId, o: DataOfferView| !(o.kind is Selection) && o.source is Some,
        )
    }
}

impl CompositorState {
    fn set_resolved(&mut self, offer: ClientObjectId, action: u32)
        ensures
            final(self)@ == old(self)@.set_resolved(offer, action),
    {
        if let Some(offer) = self.data.data_offers.get_mut(offer) {
            offer.resolved_action = action;
        }
    }

    fn negotiates_with(&self, offer: ClientObjectId) -> (r: Option<ClientObjectId>)
        ensures
            r == self@.negotiates_with(offer),
    {
        match self.data.data_offers.get(offer) {
            None => None,
            Some(o) => if o.kind == OfferKind::Selection {
                None
            } else {
                match o.source {
                    Some(s) => if self.data.data_sources.contains(s) {
                        Some(s)
                    } else {
                        None
                    },
                    None => None,
                }
            },
        }
    }

    /// Settle the action for one drag offer, and tell both sides if it changed.
    ///
    /// Run whenever either side's half of the negotiation moves: the target's
    /// `set_actions` or `accept`, and each time the drag enters a surface.
    /// A selection offer has no action to settle - actions are a drag concept.
    pub fn resolve_offer_action(&mut self, offer_key: ClientObjectId)
        ensures
            final(self)@ == old(self)@.resolve_offer_action(offer_key),
    {
        let source_key = match self.negotiates_with(offer_key) {
            Some(s) => s,
            None => {
                return;
            },
        };
        let source_version = self.object_version(source_key);
        let offer_version = self.object_version(offer_key);
        let source_actions: u32 = match self.data.data_sources.get(source_key) {
            Some(s) => s.actions,
            None => {
                return;
            },
        };
        let (action, before): (u32, u32) = match self.data.data_offers.get(offer_key) {
            Some(o) => (
                resolve_action(source_actions, source_version, o.actions, o.preferred_action, offer_version),
                o.resolved_action,
            ),
            None => {
                return;
            },
        };
        if before == action {
            return;
        }
        self.set_resolved(offer_key, action);
        self.notice(offer_key.0, Notice::OfferAction { offer: offer_key.1, action });
        self.notice(source_key.0, Notice::SourceAction { source: source_key.1, action });
    }

    pub fn resolve_each(&mut self, offers: &Vec<ClientObjectId>)
        ensures
            final(self)@ == old(self)@.resolve_each(offers@),
    {
        let mut i: usize = 0;
        while i < offers.len()
            invariant
                i <= offers@.len(),
                self@ == old(self)@.resolve_each(offers@.take(i as int)),
            decreases offers@.len() - i,
        {
            proof {
                assert(offers@.take(i + 1).drop_last() =~= offers@.take(i as int));
            }
            self.resolve_offer_action(offers[i]);
            i += 1;
        }
        proof {
            assert(offers@.take(i as int) =~= offers@);
        }
    }

    /// Re-settle every live drag offer.
    ///
    /// Used when the *source's* half of the negotiation moves, which it can do
    /// without naming any particular offer.
    pub fn resolve_drag_actions(&mut self)
        ensures
            final(self)@ == old(self)@.resolve_each(old(self)@.live_drag_offers()),
    {
        let keys = self.data.data_offers.keys_where(
            |k: &ClientObjectId, o: &DataOffer| -> (r: bool)
                ensures r == (!(o@.kind is Selection) && o@.source is Some)
                { o.kind != OfferKind::Selection && o.source.is_some() },
            Ghost(|k: ClientObjectId, o: DataOfferView| !(o.kind is Selection) && o.source is Some),
        );
        self.resolve_each(&keys);
    }
}

} // verus!
