//! Dragging: what a drag is over, and how it ends.
use crate::laws::delivery::{heard, lemma_heard_all, told_alone};
use crate::protocol::messages::{MessageView, Notice};
use crate::shell::Shell;
use crate::state::compositor_state::StateView;
use crate::state::drags::DragEvent;
use crate::state::types::{ClientObjectId, DataDeviceBinding, DragView, OfferKind};
use vstd::prelude::*;

verus! {

/// Whether every one of some offers is dead: nothing behind it, nothing accepted.
pub open spec fn offers_dead(s: StateView, offers: Seq<ClientObjectId>) -> bool {
    forall|i: int|
        0 <= i < offers.len() && s.data.data_offers.has(#[trigger] offers[i]) ==> s.data.data_offers.at(
            offers[i],
        ).source is None && s.data.data_offers.at(offers[i]).accepted is None
}

proof fn lemma_cut(s: StateView, offers: Seq<ClientObjectId>)
    ensures
        offers_dead(s.invalidate_each(offers), offers),
        s.invalidate_each(offers).clients == s.clients,
        s.invalidate_each(offers).dirty == s.dirty,
        s.invalidate_each(offers).data.drag == s.data.drag,
        s.invalidate_each(offers).data.data_sources == s.data.data_sources,
        forall|k: ClientObjectId| #[trigger]
            s.invalidate_each(offers).data.data_offers.has(k) == s.data.data_offers.has(k),
    decreases offers.len(),
{
    if offers.len() > 0 {
        let rest = offers.drop_last();
        lemma_cut(s, rest);
        let t = s.invalidate_each(rest);
        let u = s.invalidate_each(offers);
        assert forall|k: ClientObjectId| #[trigger] u.data.data_offers.has(k) == s.data.data_offers.has(k) by {
            assert(t.data.data_offers.has(k) == s.data.data_offers.has(k));
        }
        assert forall|i: int| 0 <= i < offers.len() && u.data.data_offers.has(#[trigger] offers[i]) implies
            u.data.data_offers.at(offers[i]).source is None && u.data.data_offers.at(offers[i]).accepted is None by {
            if i < rest.len() {
                assert(rest[i] == offers[i]);
                assert(t.data.data_offers.has(rest[i]));
            }
        }
    }
}

proof fn lemma_dropped(s: StateView, offers: Seq<ClientObjectId>, i: int)
    requires
        0 <= i < offers.len(),
        s.data.data_offers.has(offers[i]),
    ensures
        s.mark_each_dropped(offers).data.data_offers.has(offers[i]),
        s.mark_each_dropped(offers).data.data_offers.at(offers[i]).kind == OfferKind::Dropped,
        s.mark_each_dropped(offers).data.data_offers.at(offers[i]).source == s.data.data_offers.at(offers[i]).source,
        s.mark_each_dropped(offers).data.data_offers.at(offers[i]).accepted == s.data.data_offers.at(offers[i]).accepted,
    decreases offers.len(),
{
    let rest = offers.drop_last();
    lemma_marked_same(s, rest, offers[i]);
    if i < rest.len() {
        assert(rest[i] == offers[i]);
        lemma_dropped(s, rest, i);
    }
}

proof fn lemma_marked_same(s: StateView, offers: Seq<ClientObjectId>, k: ClientObjectId)
    ensures
        s.mark_each_dropped(offers).clients == s.clients,
        s.mark_each_dropped(offers).dirty == s.dirty,
        s.mark_each_dropped(offers).data.drag == s.data.drag,
        s.mark_each_dropped(offers).data.data_sources == s.data.data_sources,
        s.mark_each_dropped(offers).data.data_offers.has(k) == s.data.data_offers.has(k),
        s.mark_each_dropped(offers).data.data_offers.at(k).source == s.data.data_offers.at(k).source,
        s.mark_each_dropped(offers).data.data_offers.at(k).accepted == s.data.data_offers.at(k).accepted,
    decreases offers.len(),
{
    if offers.len() > 0 {
        lemma_marked_same(s, offers.drop_last(), k);
    }
}

/// Whether an offer was taken up: a type was named, and something is to be done
/// with it.
pub open spec fn taken_up(s: StateView, offer: ClientObjectId) -> bool {
    &&& s.data.data_offers.has(offer)
    &&& s.data.data_offers.at(offer).accepted is Some
    &&& s.data.data_offers.at(offer).resolved_action != 0
}

/// When the button comes up a drag is over. If its target took up any of its
/// offers they are dropped on and stay alive, and the source is told of the drop.
/// If it took up none they are dead, and the source is cancelled.
pub proof fn lemma_drop_goes_to_who_took_it_up(
    s: StateView,
    d: DragView,
    target: ClientObjectId,
    source: ClientObjectId,
    i: int,
)
    requires
        s.data.drag == Some(d),
        d.focus == Some(target),
        d.source == Some(source),
        s.data.data_sources.has(source),
        0 <= i < d.focus_offers.len(),
        s.data.data_offers.has(d.focus_offers[i]),
    ensures
        ({
            let t = s.finish_drag();
            let offer = d.focus_offers[i];
            let taken = exists|j: int| 0 <= j < d.focus_offers.len() && taken_up(s, #[trigger] d.focus_offers[j]);
            &&& t.data.drag is None
            &&& t.dirty
            &&& taken ==> {
                &&& t.data.data_offers.at(offer).kind == OfferKind::Dropped
                &&& t.data.data_offers.at(offer).source == s.data.data_offers.at(offer).source
                &&& t.data.data_sources == s.data.data_sources
                &&& s.clients.has(source.0) ==> t.clients.at(source.0).outbox.last() == MessageView::Notice(
                    Notice::SourceDropPerformed { source: source.1 },
                )
            }
            &&& !taken ==> {
                &&& t.data.data_offers.at(offer).source is None
                &&& t.data.data_offers.at(offer).accepted is None
                &&& t.data.data_sources.at(source).cancelled
            }
        }),
{
    let freed = s.set_drag(None).dirtied();
    assert(s.drag_target_accepted() == (exists|j: int|
        0 <= j < d.focus_offers.len() && taken_up(s, #[trigger] d.focus_offers[j]))) by {
        if s.drag_target_accepted() {
            let j = choose|j: int| 0 <= j < d.focus_offers.len() && s.offer_accepted(#[trigger] d.focus_offers[j]);
            assert(taken_up(s, d.focus_offers[j]));
        }
        if exists|j: int| 0 <= j < d.focus_offers.len() && taken_up(s, #[trigger] d.focus_offers[j]) {
            let j = choose|j: int| 0 <= j < d.focus_offers.len() && taken_up(s, #[trigger] d.focus_offers[j]);
            assert(s.offer_accepted(d.focus_offers[j]));
        }
    }
    if s.drag_target_accepted() {
        let told = freed.drag_event(target.0, DragEvent::Drop);
        lemma_dropped(told, d.focus_offers, i);
        lemma_marked_same(told, d.focus_offers, d.focus_offers[i]);
    } else {
        let told = freed.drag_event(target.0, DragEvent::Leave);
        lemma_cut(told, d.focus_offers);
        let cut = told.invalidate_each(d.focus_offers);
        assert(cut.data.data_offers.has(d.focus_offers[i]) == told.data.data_offers.has(d.focus_offers[i]));
    }
}

/// A drag that ends over nothing is cancelled, and one that has nothing to hand
/// over is dropped where it is.
pub proof fn lemma_drop_on_nothing(s: StateView, d: DragView)
    requires
        s.data.drag == Some(d),
        d.focus is None || d.source is None,
    ensures
        ({
            let t = s.finish_drag();
            &&& t.data.drag is None
            &&& t.dirty
            &&& d.focus is None && d.source is Some && s.data.data_sources.has(d.source->0)
                ==> t.data.data_sources.at(d.source->0).cancelled
            &&& d.focus is None && d.source is None ==> t.clients == s.clients
            &&& d.focus is Some ==> t.data.data_sources == s.data.data_sources
        }),
{
}

/// The data devices of a client hear of a drag, each once and in order, and nobody
/// else does.
pub proof fn lemma_devices_hear_of_a_drag(s: StateView, client_id: u32, e: DragEvent)
    ensures
        ({
            let t = s.drag_event(client_id, e);
            let devices = s.data.data_devices.filter(|d: DataDeviceBinding| d.client_id == client_id);
            let news = heard(s, t, client_id);
            &&& told_alone(s, t, client_id)
            &&& s.clients.has(client_id) ==> {
                &&& news.len() == devices.len()
                &&& forall|i: int|
                    0 <= i < devices.len() ==> {
                        let device = (#[trigger] devices[i]).object_id;
                        news[i] == MessageView::Notice(
                            match e {
                                DragEvent::Leave => Notice::DragLeave { device },
                                DragEvent::Drop => Notice::DragDrop { device },
                                DragEvent::Motion { time, x, y } => Notice::DragMotion { time, device, x, y },
                            },
                        )
                    }
            }
        }),
{
    lemma_heard_all(s, client_id, e.notices_for(s.devices_of(client_id)));
}

/// A drag that goes on over the surface it was over tells it where the pointer is.
/// One with nothing to hand over goes only over its own client's surfaces.
pub proof fn lemma_drag_goes_on<S: Shell>(s: StateView, shell: S, time: u32, d: DragView)
    requires
        s.data.drag == Some(d),
    ensures
        ({
            let hit = s.hit_test(shell, s.input.cursor);
            let t = s.update_drag(shell, time);
            let over = hit is Some && (d.source is Some || (hit->0).surface.0 == d.origin_client);
            &&& !over || d.focus == Some((hit->0).surface) ==> t.dirty
            &&& over && d.focus == Some((hit->0).surface) ==> t == s.dirtied().drag_event(
                (hit->0).surface.0,
                DragEvent::Motion { time, x: (hit->0).surface_x, y: (hit->0).surface_y },
            )
            &&& !over && d.focus is None ==> t.clients == s.clients && t.data == s.data
            &&& !over ==> t.data.drag is Some && (t.data.drag->0).focus is None && (t.data.drag->0).source == d.source
        }),
{
    lemma_end_keeps_drag(s.dirtied());
}

proof fn lemma_refused_keeps(s: StateView, offers: Seq<ClientObjectId>)
    ensures
        s.refuse_each(offers).data.drag == s.data.drag,
        s.refuse_each(offers).dirty == s.dirty,
    decreases offers.len(),
{
    if offers.len() > 0 {
        lemma_refused_keeps(s, offers.drop_last());
    }
}

proof fn lemma_end_keeps_drag(s: StateView)
    ensures
        s.end_drag_focus().dirty == s.dirty,
        s.data.drag is Some && (s.data.drag->0).focus is Some ==> s.end_drag_focus().data.drag == Some(
            DragView { focus: None, focus_offers: Seq::empty(), ..(s.data.drag->0) },
        ),
{
    if let Some(d) = s.data.drag {
        if let Some(f) = d.focus {
            lemma_refused_keeps(s.drag_event(f.0, DragEvent::Leave), d.focus_offers);
        }
    }
}

} // verus!
