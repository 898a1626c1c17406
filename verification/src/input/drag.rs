//! Driving a drag: what is under it, and how it ends.
use crate::input::hit::{hit_test, HitResult};
use crate::protocol::messages::Notice;
use crate::shell::Shell;
use crate::state::compositor_state::{CompositorState, StateView};
use crate::state::drags::DragEvent;
use crate::state::family::copy_keys;
use crate::state::types::{ClientObjectId, DataInterface, DragView, OfferKind, same_opt_key};
use vstd::prelude::*;

verus! {

impl StateView {
    /// With a drag introduced to one device: an offer of what is dragged, if
    /// there is something and it can be offered, and then that it is over the
    /// surface.
    pub open spec fn enter_device(
        self,
        surface: ClientObjectId,
        at: (i32, i32),
        source: Option<ClientObjectId>,
        actions: u32,
        device: u32,
    ) -> Self {
        let c = surface.0;
        let offer = self.drag_offer(c, source);
        let offered = match (source, offer) {
            (Some(s), Some(o)) => self.create_offer(c, device, s, DataInterface::WlData, OfferKind::Drag).notice(
                c,
                Notice::OfferSourceActions { offer: o.1, actions },
            ),
            _ => self,
        };
        offered.serial_taken().notice(
            c,
            Notice::DragEnter {
                serial: offered.next_serial,
                device,
                surface: surface.1,
                x: at.0,
                y: at.1,
                offer: match offer {
                    Some(o) => Some(o.1),
                    None => None,
                },
            },
        )
    }

    /// The offer one device would be given of what is dragged.
    pub open spec fn drag_offer(self, client_id: u32, source: Option<ClientObjectId>) -> Option<ClientObjectId> {
        if source is Some && self.can_offer(client_id) {
            Some(self.next_offer(client_id))
        } else {
            None
        }
    }

    /// With a drag introduced to several devices in turn.
    pub open spec fn enter_devices(
        self,
        surface: ClientObjectId,
        at: (i32, i32),
        source: Option<ClientObjectId>,
        actions: u32,
        devices: Seq<u32>,
    ) -> Self
        decreases devices.len(),
    {
        if devices.len() == 0 {
            self
        } else {
            self.enter_devices(surface, at, source, actions, devices.drop_last()).enter_device(
                surface,
                at,
                source,
                actions,
                devices.last(),
            )
        }
    }

    /// The offers that introducing a drag to several devices makes.
    pub open spec fn offers_made(
        self,
        surface: ClientObjectId,
        at: (i32, i32),
        source: Option<ClientObjectId>,
        actions: u32,
        devices: Seq<u32>,
    ) -> Seq<ClientObjectId>
        decreases devices.len(),
    {
        if devices.len() == 0 {
            Seq::empty()
        } else {
            let before = self.offers_made(surface, at, source, actions, devices.drop_last());
            match self.enter_devices(surface, at, source, actions, devices.drop_last()).drag_offer(surface.0, source) {
                Some(o) => before.push(o),
                None => before,
            }
        }
    }

    /// What a source allows, and nothing for none.
    pub open spec fn actions_of(self, source: Option<ClientObjectId>) -> u32 {
        match source {
            Some(s) => if self.data.data_sources.has(s) {
                self.data.data_sources.at(s).actions
            } else {
                0
            },
            None => 0,
        }
    }

    /// With a drag over a surface, and the offers it has there.
    pub open spec fn focus_drag(self, surface: ClientObjectId, offers: Seq<ClientObjectId>) -> Self {
        match self.data.drag {
            Some(d) => self.set_drag(Some(DragView { focus: Some(surface), focus_offers: offers, ..d })),
            None => self,
        }
    }

    /// With a drag introduced to the client whose surface it has moved over,
    /// on every data device it has, and the actions settled.
    pub open spec fn enter_drag_surface(self, surface: ClientObjectId, at: (i32, i32)) -> Self {
        match self.data.drag {
            None => self,
            Some(d) => {
                let devices = self.devices_of(surface.0);
                let actions = self.actions_of(d.source);
                let offers = self.offers_made(surface, at, d.source, actions, devices);
                self.enter_devices(surface, at, d.source, actions, devices).focus_drag(surface, offers).resolve_each(
                    offers,
                )
            },
        }
    }

    /// What a drag is over: anything under the pointer, or only the dragging
    /// client's own surfaces if there is nothing to hand anyone else.
    pub open spec fn drag_hit<S: Shell>(self, shell: S, d: DragView) -> Option<HitResult> {
        match self.hit_test(shell, self.input.cursor) {
            Some(h) => if d.source is Some || h.surface.0 == d.origin_client {
                Some(h)
            } else {
                None
            },
            None => None,
        }
    }

    /// With a drag delivered to whatever is under the pointer.
    pub open spec fn update_drag<S: Shell>(self, shell: S, time: u32) -> Self {
        match self.data.drag {
            None => self,
            Some(d) => match self.drag_hit(shell, d) {
                Some(h) => if d.focus == Some(h.surface) {
                    self.dirtied().drag_event(
                        h.surface.0,
                        DragEvent::Motion { time, x: h.surface_x, y: h.surface_y },
                    )
                } else {
                    self.dirtied().end_drag_focus().enter_drag_surface(h.surface, (h.surface_x, h.surface_y))
                },
                None => if d.focus is None {
                    self.dirtied()
                } else {
                    self.dirtied().end_drag_focus()
                },
            },
        }
    }

    /// With a drop performed: the target told, its offers kept, and the source
    /// told.
    pub open spec fn perform_drop(
        self,
        focus: ClientObjectId,
        offers: Seq<ClientObjectId>,
        source: ClientObjectId,
    ) -> Self {
        self.drag_event(focus.0, DragEvent::Drop).mark_each_dropped(offers).notice(
            source.0,
            Notice::SourceDropPerformed { source: source.1 },
        )
    }

    /// With a drop refused: the target told it is gone, its offers dead, and
    /// the source cancelled.
    pub open spec fn refuse_drop(
        self,
        focus: ClientObjectId,
        offers: Seq<ClientObjectId>,
        source: ClientObjectId,
    ) -> Self {
        self.drag_event(focus.0, DragEvent::Leave).invalidate_each(offers).cancel_source(source)
    }

    /// With a drag resolved when the button comes up: cancelled over nothing,
    /// dropped within the client if it has nothing to hand over, and otherwise
    /// dropped if the target accepted it and refused if it did not.
    pub open spec fn finish_drag(self) -> Self {
        match self.data.drag {
            None => self,
            Some(d) => {
                let freed = self.set_drag(None).dirtied();
                match (d.focus, d.source) {
                    (None, _) => freed.cancel_optional(d.source),
                    (Some(f), None) => freed.drag_event(f.0, DragEvent::Drop),
                    (Some(f), Some(s)) => if self.drag_target_accepted() {
                        freed.perform_drop(f, d.focus_offers, s)
                    } else {
                        freed.refuse_drop(f, d.focus_offers, s)
                    },
                }
            },
        }
    }
}

fn enter_device(
    state: &mut CompositorState,
    surface: ClientObjectId,
    at: (i32, i32),
    source: Option<ClientObjectId>,
    actions: u32,
    device: u32,
) -> (r: Option<ClientObjectId>)
    ensures
        final(state)@ == old(state)@.enter_device(surface, at, source, actions, device),
        r == old(state)@.drag_offer(surface.0, source),
{
    let c: u32 = surface.0;
    let offer: Option<ClientObjectId> = match source {
        Some(s) => state.create_offer(c, device, s, DataInterface::WlData, OfferKind::Drag),
        None => None,
    };
    if let Some(o) = offer {
        state.notice(c, Notice::OfferSourceActions { offer: o.1, actions });
    }
    let serial = state.take_serial();
    state.notice(
        c,
        Notice::DragEnter {
            serial,
            device,
            surface: surface.1,
            x: at.0,
            y: at.1,
            offer: match offer {
                Some(o) => Some(o.1),
                None => None,
            },
        },
    );
    offer
}

fn enter_devices(
    state: &mut CompositorState,
    surface: ClientObjectId,
    at: (i32, i32),
    source: Option<ClientObjectId>,
    actions: u32,
    devices: &Vec<u32>,
) -> (r: Vec<ClientObjectId>)
    ensures
        final(state)@ == old(state)@.enter_devices(surface, at, source, actions, devices@),
        r@ == old(state)@.offers_made(surface, at, source, actions, devices@),
{
    let mut offers: Vec<ClientObjectId> = Vec::new();
    let mut i: usize = 0;
    proof {
        assert(offers@ =~= state@.offers_made(surface, at, source, actions, devices@.take(0)));
    }
    while i < devices.len()
        invariant
            i <= devices@.len(),
            state@ == old(state)@.enter_devices(surface, at, source, actions, devices@.take(i as int)),
            offers@ == old(state)@.offers_made(surface, at, source, actions, devices@.take(i as int)),
        decreases devices@.len() - i,
    {
        proof {
            assert(devices@.take(i + 1).drop_last() =~= devices@.take(i as int));
        }
        let offer = enter_device(state, surface, at, source, actions, devices[i]);
        if let Some(o) = offer {
            offers.push(o);
        }
        i += 1;
    }
    proof {
        assert(devices@.take(i as int) =~= devices@);
    }
    offers
}

fn focus_drag(state: &mut CompositorState, surface: ClientObjectId, offers: Vec<ClientObjectId>)
    ensures
        final(state)@ == old(state)@.focus_drag(surface, offers@),
{
    if let Some(drag) = &mut state.data.drag {
        drag.focus = Some(surface);
        drag.focus_offers = offers;
    }
}

/// Introduce a drag to the client whose surface it has just moved over.
///
/// One offer per data device, because `enter` is a per-device event and an
/// offer belongs to the device it arrived on. The order within a device is
/// forced: the client has to know the object exists and what mime types are
/// behind it before it is told a drag is over it and asked to decide.
pub fn enter_drag_surface(state: &mut CompositorState, surface: ClientObjectId, at: (i32, i32))
    ensures
        final(state)@ == old(state)@.enter_drag_surface(surface, at),
{
    let source: Option<ClientObjectId> = match &state.data.drag {
        Some(d) => d.source,
        None => {
            return;
        },
    };
    let actions: u32 = match source {
        Some(s) => match state.data.data_sources.get(s) {
            Some(s) => s.actions,
            None => 0,
        },
        None => 0,
    };
    let devices = state.devices_of(surface.0);
    let offers = enter_devices(state, surface, at, source, actions, &devices);
    focus_drag(state, surface, copy_keys(&offers));
    state.resolve_each(&offers);
}

/// Deliver a drag to whatever is under the pointer. Returns false if there is
/// no drag, in which case the pointer belongs to the ordinary path.
///
/// The surface under the pointer hears about this through its *data device*,
/// not its pointer: no `wl_pointer` event reaches anyone for the duration of a
/// drag.
pub fn update_drag<S: Shell>(state: &mut CompositorState, shell: &S, time_ms: u32) -> (r: bool)
    ensures
        r == (old(state)@.data.drag is Some),
        final(state)@ == old(state)@.update_drag(*shell, time_ms),
{
    let (own_only, origin_client, focus): (bool, u32, Option<ClientObjectId>) = match &state.data.drag {
        Some(d) => (d.source.is_none(), d.origin_client, d.focus),
        None => {
            return false;
        },
    };
    let hit: Option<HitResult> = match hit_test(state, shell, state.input.cursor.0, state.input.cursor.1) {
        Some(h) => if !own_only || h.surface.0 == origin_client {
            Some(h)
        } else {
            None
        },
        None => None,
    };
    state.dirty = true;
    match hit {
        Some(h) => {
            if same_opt_key(focus, Some(h.surface)) {
                state.drag_event(h.surface.0, DragEvent::Motion { time: time_ms, x: h.surface_x, y: h.surface_y });
            } else {
                state.end_drag_focus();
                enter_drag_surface(state, h.surface, (h.surface_x, h.surface_y));
            }
        },
        None => {
            if focus.is_some() {
                state.end_drag_focus();
            }
        },
    }
    true
}

fn perform_drop(
    state: &mut CompositorState,
    focus: ClientObjectId,
    offers: &Vec<ClientObjectId>,
    source: ClientObjectId,
)
    ensures
        final(state)@ == old(state)@.perform_drop(focus, offers@, source),
{
    state.drag_event(focus.0, DragEvent::Drop);
    state.mark_each_dropped(offers);
    state.notice(source.0, Notice::SourceDropPerformed { source: source.1 });
}

fn refuse_drop(
    state: &mut CompositorState,
    focus: ClientObjectId,
    offers: &Vec<ClientObjectId>,
    source: ClientObjectId,
)
    ensures
        final(state)@ == old(state)@.refuse_drop(focus, offers@, source),
{
    state.drag_event(focus.0, DragEvent::Leave);
    state.invalidate_each(offers);
    state.cancel_source(source);
}

/// Resolve a drag when the button comes up.
///
/// A drop frees the pointer immediately and does *not* end the offer. The
/// target has still to read the data and say when it is done, and everything
/// that needs is reachable from the offer rather than from the drag.
pub fn finish_drag(state: &mut CompositorState)
    ensures
        final(state)@ == old(state)@.finish_drag(),
{
    let accepted = state.drag_target_accepted();
    let drag = match state.data.drag.take() {
        Some(drag) => drag,
        None => {
            return;
        },
    };
    state.dirty = true;
    match (drag.focus, drag.source) {
        (None, source) => {
            state.cancel_optional(source);
        },
        (Some(f), None) => {
            state.drag_event(f.0, DragEvent::Drop);
        },
        (Some(f), Some(s)) => {
            if accepted {
                perform_drop(state, f, &drag.focus_offers, s);
            } else {
                refuse_drop(state, f, &drag.focus_offers, s);
            }
        },
    }
}

} // verus!
