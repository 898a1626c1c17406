//! Frame callbacks: none is lost.
use crate::input::frames::{FrameTarget, owned_by, Presentation};
use crate::protocol::messages::{event, MessageView};
use crate::protocol::wire_utils::ArgView;
use crate::protocol::wp_presentation_feedback::{DISCARDED, PRESENTED};
use crate::state::compositor_state::StateView;
use crate::state::types::{ClientObjectId, OutputId};
use vstd::prelude::*;

verus! {

/// Every surface is covered: by an output that shows it, or by being shown on
/// none.
pub proof fn lemma_every_surface_is_covered(on: Seq<OutputId>)
    ensures
        on.len() == 0 ==> FrameTarget::Offscreen.covers(on),
        on.len() > 0 ==> FrameTarget::Output(on[0]).covers(on),
{
    if on.len() > 0 {
        assert(on.contains(on[0]));
    }
}

proof fn lemma_settle_keeps(s: StateView, keys: Seq<ClientObjectId>, op_code: u16, args: Seq<ArgView>)
    ensures
        s.settle(keys, op_code, args).surf == s.surf,
        forall|c: u32| #[trigger] s.settle(keys, op_code, args).clients.has(c) <==> s.clients.has(c),
    decreases keys.len(),
{
    if keys.len() > 0 {
        lemma_settle_keeps(s, keys.drop_last(), op_code, args);
        let before = s.settle(keys.drop_last(), op_code, args);
        let after = s.settle(keys, op_code, args);
        assert forall|c: u32| #[trigger] after.clients.has(c) <==> s.clients.has(c) by {
            assert(before.clients.has(c) <==> s.clients.has(c));
        }
    }
}

/// Firing leaves no callback and no feedback on the surfaces it covers, and
/// touches no other surface.
pub proof fn lemma_fired_callbacks_are_taken(
    s: StateView,
    timestamp: u32,
    target: FrameTarget,
    presented: Option<Presentation>,
    key: ClientObjectId,
)
    requires
        s.surf.surfaces.has(key),
    ensures
        ({
            let before = s.surf.surfaces.at(key);
            let after = s.fire_frame_callbacks(timestamp, target, presented).surf.surfaces.at(key);
            &&& target.covers(before.visible_on) ==> after.frame_callbacks.len() == 0
                && after.presentation_feedbacks.len() == 0
            &&& !target.covers(before.visible_on) ==> after == before
        }),
{
    let keys = s.surf.surfaces.order;
    let drained_state = s.drain_frames(target);
    let called = drained_state.settle(s.callbacks_due(target, keys), 0, seq![ArgView::Uint(timestamp)]);
    lemma_settle_keeps(drained_state, s.callbacks_due(target, keys), 0, seq![ArgView::Uint(timestamp)]);
    match presented {
        Some(p) => {
            lemma_settle_keeps(called, s.feedbacks_due(target, keys), PRESENTED, p.told());
        },
        None => {
            lemma_settle_keeps(called, s.feedbacks_due(target, keys), DISCARDED, Seq::empty());
        },
    }
}

proof fn lemma_due_among(s: StateView, target: FrameTarget, keys: Seq<ClientObjectId>, key: ClientObjectId, id: u32)
    requires
        keys.contains(key),
        target.covers(s.surf.surfaces.at(key).visible_on),
        s.surf.surfaces.at(key).frame_callbacks.contains(id),
    ensures
        s.callbacks_due(target, keys).contains((s.surf.surfaces.at(key).client_id, id)),
    decreases keys.len(),
{
    let x = s.surf.surfaces.at(key);
    let owed = (x.client_id, id);
    let before = s.callbacks_due(target, keys.drop_last());
    let all = s.callbacks_due(target, keys);
    if keys.last() == key {
        let i = choose|i: int| 0 <= i < x.frame_callbacks.len() && x.frame_callbacks[i] == id;
        let mine = owned_by(x.client_id, x.frame_callbacks);
        assert(mine[i] == owed);
        assert(all[before.len() + i] == owed);
    } else {
        let i = choose|i: int| 0 <= i < keys.len() && keys[i] == key;
        assert(keys.drop_last()[i] == key);
        lemma_due_among(s, target, keys.drop_last(), key, id);
        let j = choose|j: int| 0 <= j < before.len() && before[j] == owed;
        assert(all[j] == owed);
    }
}

proof fn lemma_settle_tells(
    s: StateView,
    keys: Seq<ClientObjectId>,
    op_code: u16,
    args: Seq<ArgView>,
    client_id: u32,
    m: MessageView,
)
    requires
        s.clients.has(client_id),
        s.clients.at(client_id).outbox.contains(m) || exists|i: int|
            0 <= i < keys.len() && (#[trigger] keys[i]).0 == client_id && event(keys[i].1, op_code, args) == m,
    ensures
        s.settle(keys, op_code, args).clients.has(client_id),
        s.settle(keys, op_code, args).clients.at(client_id).outbox.contains(m),
    decreases keys.len(),
{
    if keys.len() > 0 {
        let key = keys.last();
        let earlier = keys.drop_last();
        let before = s.settle(earlier, op_code, args);
        lemma_settle_keeps(s, earlier, op_code, args);
        let told = before.tell(key.0, event(key.1, op_code, args));
        let after = told.unregister(key.0, key.1);
        assert(before.clients.has(client_id));
        if key.0 == client_id && event(key.1, op_code, args) == m {
            let outbox = told.clients.at(client_id).outbox;
            assert(outbox[outbox.len() - 1] == m);
            assert(outbox.contains(m));
        } else {
            if !s.clients.at(client_id).outbox.contains(m) {
                let i = choose|i: int|
                    0 <= i < keys.len() && (#[trigger] keys[i]).0 == client_id && event(keys[i].1, op_code, args) == m;
                assert(earlier[i] == keys[i]);
            }
            lemma_settle_tells(s, earlier, op_code, args, client_id, m);
            let old = before.clients.at(client_id).outbox;
            let i = choose|i: int| 0 <= i < old.len() && old[i] == m;
            assert(told.clients.at(client_id).outbox[i] == m);
            assert(told.clients.at(client_id).outbox.contains(m));
        }
        let outbox = told.clients.at(client_id).outbox;
        let i = choose|i: int| 0 <= i < outbox.len() && outbox[i] == m;
        assert(after.clients.at(client_id).outbox[i] == m);
    }
}

/// Every callback that waits on a covered surface is answered, if its client is
/// still there.
pub proof fn lemma_callback_is_answered(
    s: StateView,
    timestamp: u32,
    target: FrameTarget,
    presented: Option<Presentation>,
    key: ClientObjectId,
    id: u32,
)
    requires
        s.surf.surfaces.has(key),
        s.surf.surfaces.ok(),
        target.covers(s.surf.surfaces.at(key).visible_on),
        s.surf.surfaces.at(key).frame_callbacks.contains(id),
        s.clients.has(s.surf.surfaces.at(key).client_id),
    ensures
        s.fire_frame_callbacks(timestamp, target, presented).clients.at(
            s.surf.surfaces.at(key).client_id,
        ).outbox.contains(event(id, 0, seq![ArgView::Uint(timestamp)])),
{
    let keys = s.surf.surfaces.order;
    let c = s.surf.surfaces.at(key).client_id;
    let m = event(id, 0, seq![ArgView::Uint(timestamp)]);
    let drained_state = s.drain_frames(target);
    let due = s.callbacks_due(target, keys);
    assert(keys.contains(key));
    lemma_due_among(s, target, keys, key, id);
    let i = choose|i: int| 0 <= i < due.len() && due[i] == (c, id);
    assert(due[i].0 == c && event(due[i].1, 0, seq![ArgView::Uint(timestamp)]) == m);
    lemma_settle_tells(drained_state, due, 0, seq![ArgView::Uint(timestamp)], c, m);
    let called = drained_state.settle(due, 0, seq![ArgView::Uint(timestamp)]);
    match presented {
        Some(p) => {
            lemma_settle_tells(called, s.feedbacks_due(target, keys), PRESENTED, p.told(), c, m);
        },
        None => {
            lemma_settle_tells(called, s.feedbacks_due(target, keys), DISCARDED, Seq::empty(), c, m);
        },
    }
}

} // verus!
