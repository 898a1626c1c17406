//! The drag the compositor carries between clients.
use crate::protocol::messages::{Message, messages_view, MessageView, Notice};
use crate::seqs::lemma_filter_push;
use crate::state::actions::DND_ACTION_NONE;
use crate::state::compositor_state::{CompositorState, ExchangeView, StateView};
use crate::state::family::copy_keys;
use crate::state::types::{
    ClientObjectId, DataDeviceBinding, DataOfferView, Drag, DragView, OfferKind,
};
use vstd::prelude::*;

verus! {

/// What a drag tells a data device.
#[derive(Clone, Copy)]
pub enum DragEvent {
    Leave,
    Drop,
    Motion { time: u32, x: i32, y: i32 },
}

impl DragEvent {
    /// The notice for one device.
    pub open spec fn notice_for(self, device: u32) -> Notice {
        match self {
            DragEvent::Leave => Notice::DragLeave { device },
            DragEvent::Drop => Notice::DragDrop { device },
            DragEvent::Motion { time, x, y } => Notice::DragMotion { time, device, x, y },
        }
    }

    /// The notices for several devices.
    pub open spec fn notices_for(self, devices: Seq<u32>) -> Seq<MessageView> {
        devices.map_values(|d: u32| MessageView::Notice(self.notice_for(d)))
    }

    fn notice_on(self, device: u32) -> (r: Notice)
        ensures
            r == self.notice_for(device),
    {
        match self {
            DragEvent::Leave => Notice::DragLeave { device },
            DragEvent::Drop => Notice::DragDrop { device },
            DragEvent::Motion { time, x, y } => Notice::DragMotion { time, device, x, y },
        }
    }

    fn notices_on(self, devices: &Vec<u32>) -> (r: Vec<Message>)
        ensures
            messages_view(r@) == self.notices_for(devices@),
    {
        let mut r: Vec<Message> = Vec::new();
        let mut i: usize = 0;
        while i < devices.len()
            invariant
                i <= devices@.len(),
                messages_view(r@) == self.notices_for(devices@.take(i as int)),
                r@.len() == i,
            decreases devices@.len() - i,
        {
            let ghost before = r@;
            r.push(Message::Notice(self.notice_on(devices[i])));
            i += 1;
            proof {
                assert forall|j: int| 0 <= j < i implies #[trigger] messages_view(r@)[j] == self.notices_for(
                    devices@.take(i as int),
                )[j] by {
                    if j < i - 1 {
                        assert(messages_view(before)[j] == self.notices_for(devices@.take(i - 1))[j]);
                    }
                }
                assert(messages_view(r@) =~= self.notices_for(devices@.take(i as int)));
            }
        }
        proof {
            assert(devices@.take(i as int) =~= devices@);
        }
        r
    }
}

impl StateView {
    /// The data devices of a client.
    pub open spec fn devices_of(self, client_id: u32) -> Seq<u32> {
        self.data.data_devices.filter(|d: DataDeviceBinding| d.client_id == client_id).map_values(
            |d: DataDeviceBinding| d.object_id,
        )
    }

    /// With every data device of a client told something of a drag.
    pub open spec fn drag_event(self, client_id: u32, e: DragEvent) -> Self {
        self.tell_all(client_id, e.notices_for(self.devices_of(client_id)))
    }

    /// With a drag in progress, or none.
    pub open spec fn set_drag(self, drag: Option<DragView>) -> Self {
        StateView { data: ExchangeView { drag, ..self.data }, ..self }
    }

    /// With a drag begun, and the pointer taken for it, unless a window is being
    /// moved or resized.
    pub open spec fn start_drag(
        self,
        source: Option<ClientObjectId>,
        origin_client: u32,
        origin: ClientObjectId,
        icon: Option<ClientObjectId>,
    ) -> Self {
        if self.win.pointer_grab is Some {
            self
        } else {
            self.pointer_released().set_drag(
                Some(DragView { source, origin_client, origin, icon, focus: None, focus_offers: Seq::empty() }),
            ).dirtied()
        }
    }

    /// With the client of the surface a drag is over told that it has left.
    pub open spec fn leave_focus(self, focus: Option<ClientObjectId>) -> Self {
        match focus {
            Some(f) => self.drag_event(f.0, DragEvent::Leave),
            None => self,
        }
    }

    /// With the source of a drag cancelled, if it has one.
    pub open spec fn cancel_optional(self, source: Option<ClientObjectId>) -> Self {
        match source {
            Some(s) => self.cancel_source(s),
            None => self,
        }
    }

    /// With a drag ended without a drop, and both sides told.
    pub open spec fn cancel_drag(self) -> Self {
        match self.data.drag {
            None => self,
            Some(d) => self.set_drag(None).leave_focus(d.focus).invalidate_each(d.focus_offers).cancel_optional(
                d.source,
            ).dirtied(),
        }
    }

    /// With a drag ended without a drop, and its target alone told.
    pub open spec fn abandon_drag(self) -> Self {
        match self.data.drag {
            None => self,
            Some(d) => self.set_drag(None).leave_focus(d.focus).invalidate_each(d.focus_offers).dirtied(),
        }
    }

    /// With an offer noted as dropped on.
    pub open spec fn mark_offer_dropped(self, offer: ClientObjectId) -> Self {
        StateView {
            data: ExchangeView {
                data_offers: self.data.data_offers.edit(
                    offer,
                    |o: DataOfferView| DataOfferView { kind: OfferKind::Dropped, ..o },
                ),
                ..self.data
            },
            ..self
        }
    }

    /// With several offers noted as dropped on.
    pub open spec fn mark_each_dropped(self, offers: Seq<ClientObjectId>) -> Self
        decreases offers.len(),
    {
        if offers.len() == 0 {
            self
        } else {
            self.mark_each_dropped(offers.drop_last()).mark_offer_dropped(offers.last())
        }
    }

    /// Whether an offer has been accepted: a mime type is named, and an action
    /// is settled.
    pub open spec fn offer_accepted(self, offer: ClientObjectId) -> bool {
        &&& self.data.data_offers.has(offer)
        &&& self.data.data_offers.at(offer).accepted is Some
        &&& self.data.data_offers.at(offer).resolved_action != DND_ACTION_NONE
    }

    /// Whether a drag target has said it will take what is being dragged.
    pub open spec fn drag_target_accepted(self) -> bool {
        match self.data.drag {
            Some(d) => exists|i: int| 0 <= i < d.focus_offers.len() && self.offer_accepted(#[trigger] d.focus_offers[i]),
            None => false,
        }
    }

    /// With the targets of several offers told they accept nothing, and the
    /// offers cut loose.
    pub open spec fn refuse_each(self, offers: Seq<ClientObjectId>) -> Self
        decreases offers.len(),
    {
        if offers.len() == 0 {
            self
        } else {
            self.refuse_each(offers.drop_last()).notice(
                offers.last().0,
                Notice::AcceptanceCleared { offer: offers.last().1 },
            ).invalidate_offer(offers.last())
        }
    }

    /// With the drag over nothing.
    pub open spec fn unfocus_drag(self) -> Self {
        match self.data.drag {
            Some(d) => self.set_drag(Some(DragView { focus: None, focus_offers: Seq::empty(), ..d })),
            None => self,
        }
    }

    /// With the drag taken off whatever surface it was over, and that client
    /// told.
    pub open spec fn end_drag_focus(self) -> Self {
        match self.data.drag {
            Some(DragView { focus: Some(focus), focus_offers, .. }) => self.drag_event(
                focus.0,
                DragEvent::Leave,
            ).refuse_each(focus_offers).unfocus_drag(),
            _ => self,
        }
    }
}

impl CompositorState {
    /// The data devices of a client.
    pub fn devices_of(&self, client_id: u32) -> (r: Vec<u32>)
        ensures
            r@ == self@.devices_of(client_id),
    {
        let ghost p = |d: DataDeviceBinding| d.client_id == client_id;
        let ghost f = |d: DataDeviceBinding| d.object_id;
        let ghost all = self.data.data_devices@;
        let mut r: Vec<u32> = Vec::new();
        let mut i: usize = 0;
        proof {
            assert(all.take(0).filter(p) =~= Seq::<DataDeviceBinding>::empty()) by {
                reveal(Seq::filter);
            }
            assert(r@ =~= all.take(0).filter(p).map_values(f));
        }
        while i < self.data.data_devices.len()
            invariant
                i <= all.len(),
                all == self.data.data_devices@,
                p == (|d: DataDeviceBinding| d.client_id == client_id),
                f == (|d: DataDeviceBinding| d.object_id),
                r@ == all.take(i as int).filter(p).map_values(f),
            decreases all.len() - i,
        {
            let d = self.data.data_devices[i];
            proof {
                assert(all.take(i + 1) =~= all.take(i as int).push(d));
                lemma_filter_push(all.take(i as int), d, p);
            }
            if d.client_id == client_id {
                r.push(d.object_id);
            }
            i += 1;
            proof {
                assert(r@ =~= all.take(i as int).filter(p).map_values(f));
            }
        }
        proof {
            assert(all.take(i as int) =~= all);
        }
        r
    }

    /// Tell every data device of a client something of a drag.
    pub fn drag_event(&mut self, client_id: u32, e: DragEvent)
        ensures
            final(self)@ == old(self)@.drag_event(client_id, e),
    {
        let devices = self.devices_of(client_id);
        self.tell_all(client_id, e.notices_on(&devices));
    }

    /// Begin a drag, taking the pointer for the duration. A pointer that is
    /// moving or resizing a window is not there to be taken: nothing begins.
    pub fn start_drag(
        &mut self,
        source: Option<ClientObjectId>,
        origin_client: u32,
        origin: ClientObjectId,
        icon: Option<ClientObjectId>,
    )
        ensures
            final(self)@ == old(self)@.start_drag(source, origin_client, origin, icon),
    {
        if self.win.pointer_grab.is_some() {
            return;
        }
        self.release_pointer_to_grab();
        let drag = Drag { source, origin_client, origin, icon, focus: None, focus_offers: Vec::new() };
        proof {
            assert(drag@.focus_offers =~= Seq::<ClientObjectId>::empty());
        }
        self.data.drag = Some(drag);
        self.dirty = true;
    }

    pub fn leave_focus(&mut self, focus: Option<ClientObjectId>)
        ensures
            final(self)@ == old(self)@.leave_focus(focus),
    {
        if let Some(f) = focus {
            self.drag_event(f.0, DragEvent::Leave);
        }
    }

    pub fn cancel_optional(&mut self, source: Option<ClientObjectId>)
        ensures
            final(self)@ == old(self)@.cancel_optional(source),
    {
        if let Some(s) = source {
            self.cancel_source(s);
        }
    }

    /// End a drag without a drop, telling both sides.
    pub fn cancel_drag(&mut self)
        ensures
            final(self)@ == old(self)@.cancel_drag(),
    {
        match self.data.drag.take() {
            None => {},
            Some(drag) => {
                self.leave_focus(drag.focus);
                self.invalidate_each(&drag.focus_offers);
                self.cancel_optional(drag.source);
                self.dirty = true;
            },
        }
    }

    /// End a drag without a drop, telling its target and not its source.
    ///
    /// Used where the source is going away, and whoever takes it away knows
    /// whether it is to be told.
    pub fn abandon_drag(&mut self)
        ensures
            final(self)@ == old(self)@.abandon_drag(),
    {
        match self.data.drag.take() {
            None => {},
            Some(drag) => {
                self.leave_focus(drag.focus);
                self.invalidate_each(&drag.focus_offers);
                self.dirty = true;
            },
        }
    }

    /// Note that an offer has been dropped on, which is what makes
    /// `wl_data_offer.finish` legal on it.
    pub fn mark_offer_dropped(&mut self, offer: ClientObjectId)
        ensures
            final(self)@ == old(self)@.mark_offer_dropped(offer),
    {
        if let Some(offer) = self.data.data_offers.get_mut(offer) {
            offer.kind = OfferKind::Dropped;
        }
    }

    pub fn mark_each_dropped(&mut self, offers: &Vec<ClientObjectId>)
        ensures
            final(self)@ == old(self)@.mark_each_dropped(offers@),
    {
        let mut i: usize = 0;
        while i < offers.len()
            invariant
                i <= offers@.len(),
                self@ == old(self)@.mark_each_dropped(offers@.take(i as int)),
            decreases offers@.len() - i,
        {
            proof {
                assert(offers@.take(i + 1).drop_last() =~= offers@.take(i as int));
            }
            self.mark_offer_dropped(offers[i]);
            i += 1;
        }
        proof {
            assert(offers@.take(i as int) =~= offers@);
        }
    }

    /// Whether a drag target has said it will take what is being dragged.
    ///
    /// True only if it named a mime type *and* the two sides settled on an
    /// action - a target that accepted the content but agreed to do nothing
    /// with it has not accepted the drop.
    pub fn drag_target_accepted(&self) -> (r: bool)
        ensures
            r == self@.drag_target_accepted(),
    {
        match &self.data.drag {
            None => false,
            Some(drag) => {
                let mut i: usize = 0;
                while i < drag.focus_offers.len()
                    invariant
                        i <= drag.focus_offers@.len(),
                        self@.data.drag == Some(drag@),
                        forall|j: int| 0 <= j < i ==> !self@.offer_accepted(#[trigger] drag.focus_offers@[j]),
                    decreases drag.focus_offers@.len() - i,
                {
                    let accepted: bool = match self.data.data_offers.get(drag.focus_offers[i]) {
                        Some(o) => o.accepted.is_some() && o.resolved_action != DND_ACTION_NONE,
                        None => false,
                    };
                    if accepted {
                        proof {
                            assert(self@.offer_accepted(drag@.focus_offers[i as int]));
                        }
                        return true;
                    }
                    i += 1;
                }
                false
            },
        }
    }

    fn refuse_each(&mut self, offers: &Vec<ClientObjectId>)
        ensures
            final(self)@ == old(self)@.refuse_each(offers@),
    {
        let mut i: usize = 0;
        while i < offers.len()
            invariant
                i <= offers@.len(),
                self@ == old(self)@.refuse_each(offers@.take(i as int)),
            decreases offers@.len() - i,
        {
            proof {
                assert(offers@.take(i + 1).drop_last() =~= offers@.take(i as int));
            }
            self.notice(offers[i].0, Notice::AcceptanceCleared { offer: offers[i].1 });
            self.invalidate_offer(offers[i]);
            i += 1;
        }
        proof {
            assert(offers@.take(i as int) =~= offers@);
        }
    }

    pub fn unfocus_drag(&mut self)
        ensures
            final(self)@ == old(self)@.unfocus_drag(),
    {
        if let Some(drag) = &mut self.data.drag {
            drag.focus = None;
            drag.focus_offers = Vec::new();
            proof {
                assert(drag.focus_offers@ =~= Seq::<ClientObjectId>::empty());
            }
        }
    }

    /// Take the drag off whatever surface it was over, telling that client.
    pub fn end_drag_focus(&mut self)
        ensures
            final(self)@ == old(self)@.end_drag_focus(),
    {
        let (focus, offers): (ClientObjectId, Vec<ClientObjectId>) = match &self.data.drag {
            None => {
                return;
            },
            Some(drag) => match drag.focus {
                None => {
                    return;
                },
                Some(focus) => (focus, copy_keys(&drag.focus_offers)),
            },
        };
        self.drag_event(focus.0, DragEvent::Leave);
        self.refuse_each(&offers);
        self.unfocus_drag();
    }
}

} // verus!
