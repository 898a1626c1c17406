//! Scenes: what may be taken for opaque, and what outputs are owed.
use crate::run::displays::lists;
use crate::run::pacer::{among, PacerView, put_outputs};
use crate::scene::compose::SceneView;
use crate::scene::damage::damaged;
use crate::scene::paint::{adds_all, covers_all};
use crate::seqs::lemma_filter_facts;
use crate::shell::Shell;
use crate::state::compositor_state::StateView;
use crate::state::types::{in_region, OutputId, OutputView, RegionRect};
use crate::table::{lemma_set_without, set_put, set_without};
use vstd::prelude::*;

verus! {

/// A surface taken for opaque has every pixel of it in the region its client
/// promised.
pub proof fn lemma_opaque_is_promised(rects: Seq<RegionRect>, width: i32, height: i32, x: i32, y: i32)
    requires
        covers_all(rects, width, height),
        0 <= x < width,
        0 <= y < height,
    ensures
        in_region(rects, x, y),
    decreases rects.len(),
{
    let r = rects.last();
    if !adds_all(r, width, height) {
        lemma_opaque_is_promised(rects.drop_last(), width, height, x, y);
    }
}

proof fn lemma_served<S: Shell>(p: PacerView, state: StateView, shell: S, ids: Seq<OutputId>, x: OutputId)
    ensures
        p.serve_each(state, shell, ids).stale.contains(x) <==> p.stale.contains(x) && !ids.contains(x),
        p.serve_each(state, shell, ids).waiting.contains(x) <==> p.waiting.contains(x) && !ids.contains(x),
        p.published.has(x) ==> p.serve_each(state, shell, ids).published.has(x),
        ids.contains(x) ==> p.serve_each(state, shell, ids).published.has(x),
    decreases ids.len(),
{
    if ids.len() > 0 {
        let before = p.serve_each(state, shell, ids.drop_last());
        lemma_served(p, state, shell, ids.drop_last(), x);
        let id = ids.last();
        lemma_filter_facts(before.stale, |k: OutputId| k != id);
        lemma_filter_facts(before.waiting, |k: OutputId| k != id);
        lemma_set_without(before.stale, id, |k: OutputId| k != id);
        lemma_set_without(before.waiting, id, |k: OutputId| k != id);
        assert(set_without(before.stale, id).contains(x) <==> before.stale.contains(x) && x != id);
        assert(set_without(before.waiting, id).contains(x) <==> before.waiting.contains(x) && x != id);
        assert(ids.contains(x) <==> ids.drop_last().contains(x) || x == id) by {
            if ids.contains(x) {
                let i = choose|i: int| 0 <= i < ids.len() && ids[i] == x;
                if i < ids.len() - 1 {
                    assert(ids.drop_last()[i] == x);
                }
            }
            if ids.drop_last().contains(x) {
                let i = choose|i: int| 0 <= i < ids.len() - 1 && ids.drop_last()[i] == x;
                assert(ids[i] == x);
            }
            assert(ids[ids.len() - 1] == id);
        }
    }
}

/// Once published, no output is left that is both waiting and out of date.
pub proof fn lemma_publish_serves_all<S: Shell>(p: PacerView, state: StateView, shell: S, x: OutputId)
    ensures
        !(p.publish(state, shell).stale.contains(x) && p.publish(state, shell).waiting.contains(x)),
{
    let ready = p.ready(state);
    let now = state.drawn().cursor_drawn();
    lemma_filter_facts(ready.stale, among(ready.waiting));
    if ready.due().len() == 0 {
        if ready.stale.contains(x) && ready.waiting.contains(x) {
            assert(ready.due().contains(x));
        }
    } else {
        let collected = ready.collect(now);
        lemma_served(collected, now, shell, ready.due(), x);
        if collected.stale.contains(x) && collected.waiting.contains(x) {
            assert(ready.due().contains(x));
        }
    }
}

/// An output that asks while nothing has changed is not turned away: it goes on
/// waiting.
pub proof fn lemma_idle_request_waits<S: Shell>(p: PacerView, state: StateView, shell: S, id: OutputId)
    requires
        p.waiting.contains(id),
        !p.stale.contains(id),
        !state.dirty,
    ensures
        p.publish(state, shell).waiting.contains(id),
{
    let ready = p.ready(state);
    let now = state.drawn().cursor_drawn();
    lemma_filter_facts(ready.stale, among(ready.waiting));
    if ready.due().len() > 0 {
        lemma_served(ready.collect(now), now, shell, ready.due(), id);
    }
}

proof fn lemma_all_put(s: Seq<OutputId>, outputs: Seq<OutputView>, x: OutputId)
    ensures
        s.contains(x) || lists(outputs, x) ==> put_outputs(s, outputs).contains(x),
    decreases outputs.len(),
{
    if outputs.len() > 0 {
        let before = put_outputs(s, outputs.drop_last());
        lemma_all_put(s, outputs.drop_last(), x);
        if lists(outputs, x) {
            let i = choose|i: int| 0 <= i < outputs.len() && (#[trigger] outputs[i]).id == x;
            if i < outputs.len() - 1 {
                assert(outputs.drop_last()[i].id == x);
                assert(lists(outputs.drop_last(), x));
            }
        }
        let after = set_put(before, outputs.last().id);
        if before.contains(x) {
            let i = choose|i: int| 0 <= i < before.len() && before[i] == x;
            assert(after[i] == x);
        }
        if x == outputs.last().id && !before.contains(x) {
            assert(after[before.len() as int] == x);
        }
    }
}

/// A publication carries every output's scene: one that has been composed is
/// never dropped by composing another.
pub proof fn lemma_publish_drops_nothing<S: Shell>(p: PacerView, state: StateView, shell: S, id: OutputId)
    requires
        p.published.has(id),
    ensures
        p.publish(state, shell).published.has(id),
{
    let ready = p.ready(state);
    let now = state.drawn().cursor_drawn();
    if ready.due().len() > 0 {
        lemma_served(ready.collect(now), now, shell, ready.due(), id);
    }
}

/// Whether every scene published has a serial older than those still to come.
pub open spec fn serials_old(p: PacerView) -> bool {
    forall|id: OutputId| #[trigger] p.published.has(id) ==> p.published.at(id).serial < p.next_serial
}

proof fn lemma_served_serials<S: Shell>(p: PacerView, state: StateView, shell: S, ids: Seq<OutputId>, id: OutputId)
    requires
        serials_old(p),
        p.next_serial + ids.len() <= u64::MAX,
    ensures
        serials_old(p.serve_each(state, shell, ids)),
        p.serve_each(state, shell, ids).next_serial == p.next_serial + ids.len(),
        p.published.has(id) ==> p.published.at(id).serial <= p.serve_each(state, shell, ids).published.at(id).serial,
        p.published.has(id) && ids.contains(id) ==> p.published.at(id).serial < p.serve_each(
            state,
            shell,
            ids,
        ).published.at(id).serial,
        ids.contains(id) ==> p.serve_each(state, shell, ids).published.at(id).serial >= p.next_serial,
    decreases ids.len(),
{
    if ids.len() > 0 {
        let before = p.serve_each(state, shell, ids.drop_last());
        lemma_served_serials(p, state, shell, ids.drop_last(), id);
        lemma_served(p, state, shell, ids.drop_last(), id);
        let after = p.serve_each(state, shell, ids);
        assert forall|x: OutputId| #[trigger] after.published.has(x) implies after.published.at(x).serial
            < after.next_serial by {
            if x != ids.last() {
                assert(before.published.has(x));
            }
        }
        if ids.contains(id) && id != ids.last() {
            let i = choose|i: int| 0 <= i < ids.len() && ids[i] == id;
            assert(ids.drop_last()[i] == id);
        }
        assert(p.published.has(id) ==> before.published.has(id));
    }
}

/// Serials rise: a scene that is composed, an output's first or one that takes
/// another's place, has a serial above every serial given before.
pub proof fn lemma_serials_rise<S: Shell>(p: PacerView, state: StateView, shell: S, id: OutputId)
    requires
        serials_old(p),
        p.next_serial + p.ready(state).due().len() <= u64::MAX,
    ensures
        serials_old(p.publish(state, shell)),
        p.publish(state, shell).next_serial >= p.next_serial,
        p.ready(state).due().contains(id) ==> {
            &&& p.publish(state, shell).published.at(id).serial >= p.next_serial
            &&& forall|x: OutputId| #[trigger]
                p.published.has(x) ==> p.published.at(x).serial < p.publish(state, shell).published.at(id).serial
        },
{
    let ready = p.ready(state);
    let now = state.drawn().cursor_drawn();
    assert(serials_old(ready)) by {
        assert forall|x: OutputId| #[trigger] ready.published.has(x) implies ready.published.at(x).serial
            < ready.next_serial by {
            assert(p.published.has(x));
        }
    }
    if ready.due().len() > 0 {
        let collected = ready.collect(now);
        assert(serials_old(collected)) by {
            assert forall|x: OutputId| #[trigger] collected.published.has(x) implies collected.published.at(x).serial
                < collected.next_serial by {
                assert(ready.published.has(x));
            }
        }
        lemma_served_serials(collected, now, shell, ready.due(), id);
    }
}

/// Every serial given is below those still to come from the start, and whatever
/// else is done with a pacer leaves it so.
pub proof fn lemma_serials_stay_old(p: PacerView, state: StateView, id: OutputId)
    ensures
        serials_old(PacerView::fresh()),
        serials_old(p) ==> serials_old(p.request(id)),
        serials_old(p) ==> serials_old(p.collect(state)),
        serials_old(p) ==> serials_old(p.forget_gone_outputs(state)),
{
    if serials_old(p) {
        let kept = p.forget_gone_outputs(state);
        assert forall|x: OutputId| #[trigger] kept.published.has(x) implies kept.published.at(x).serial
            < kept.next_serial by {
            assert(p.published.has(x));
        }
        assert forall|x: OutputId| #[trigger] p.request(id).published.has(x) implies p.request(id).published.at(x).serial
            < p.next_serial by {
            assert(p.published.has(x));
        }
        assert forall|x: OutputId| #[trigger] p.collect(state).published.has(x) implies p.collect(state).published.at(
            x,
        ).serial < p.next_serial by {
            assert(p.published.has(x));
        }
    }
}

/// A scene as it is composed for an output: drawn anew from the state, with what
/// has changed since the last one published for that output.
pub open spec fn newly_built<S: Shell>(q: PacerView, state: StateView, shell: S, id: OutputId) -> SceneView {
    q.against(state.scene(shell, q.cache, id, q.next_serial))
}

proof fn lemma_served_anew<S: Shell>(
    p: PacerView,
    state: StateView,
    shell: S,
    ids: Seq<OutputId>,
    id: OutputId,
) -> (n: int)
    requires
        ids.contains(id),
    ensures
        0 <= n < ids.len(),
        ids[n] == id,
        p.serve_each(state, shell, ids).published.at(id) == newly_built(
            p.serve_each(state, shell, ids.take(n)),
            state,
            shell,
            id,
        ),
    decreases ids.len(),
{
    if ids.last() == id {
        assert(ids.take(ids.len() - 1) =~= ids.drop_last());
        ids.len() - 1
    } else {
        let i = choose|i: int| 0 <= i < ids.len() && ids[i] == id;
        assert(ids.drop_last()[i] == id);
        let n = lemma_served_anew(p, state, shell, ids.drop_last(), id);
        assert(ids.drop_last().take(n) =~= ids.take(n));
        n
    }
}

proof fn lemma_unserved<S: Shell>(p: PacerView, state: StateView, shell: S, ids: Seq<OutputId>, id: OutputId)
    requires
        !ids.contains(id),
    ensures
        p.serve_each(state, shell, ids).published.has(id) == p.published.has(id),
        p.published.has(id) ==> p.serve_each(state, shell, ids).published.at(id) == p.published.at(id),
    decreases ids.len(),
{
    if ids.len() > 0 {
        assert(ids[ids.len() - 1] != id);
        assert forall|i: int| 0 <= i < ids.len() - 1 implies ids.drop_last()[i] != id by {
            assert(ids[i] != id);
        }
        lemma_unserved(p, state, shell, ids.drop_last(), id);
    }
}

/// Whether an output is composed for in its turn among those that are due, and
/// that scene is the one published for it.
pub open spec fn served_in_turn<S: Shell>(p: PacerView, state: StateView, shell: S, id: OutputId, n: int) -> bool {
    let due = p.ready(state).due();
    let now = state.drawn().cursor_drawn();
    &&& 0 <= n < due.len()
    &&& due[n] == id
    &&& p.publish(state, shell).published.at(id) == newly_built(
        p.ready(state).collect(now).serve_each(now, shell, due.take(n)),
        now,
        shell,
        id,
    )
}

/// As soon as something changes, an output that waits is given a scene drawn
/// anew, and waits no longer.
pub proof fn lemma_change_is_shown<S: Shell>(p: PacerView, state: StateView, shell: S, id: OutputId)
    requires
        p.waiting.contains(id),
        state.dirty,
        lists(state.out.outputs, id),
    ensures
        p.publishes(state),
        p.publish(state, shell).published.has(id),
        !p.publish(state, shell).waiting.contains(id),
        !p.publish(state, shell).stale.contains(id),
        exists|n: int| #[trigger] served_in_turn(p, state, shell, id, n),
{
    let ready = p.ready(state);
    let now = state.drawn().cursor_drawn();
    lemma_all_put(p.stale, state.out.outputs, id);
    lemma_filter_facts(ready.stale, among(ready.waiting));
    assert(ready.due().contains(id));
    lemma_served(ready.collect(now), now, shell, ready.due(), id);
    let n = lemma_served_anew(ready.collect(now), now, shell, ready.due(), id);
    assert(served_in_turn(p, state, shell, id, n));
}

/// Once published nothing is left to draw, and publishing again before anything
/// changes sends nothing and leaves everything as it is.
pub proof fn lemma_publish_settles<S: Shell, T: Shell>(
    p: PacerView,
    state: StateView,
    shell: S,
    later: StateView,
    later_shell: T,
)
    requires
        !later.dirty,
        !later.cursor_dirty,
    ensures
        !p.published_state(state).dirty,
        !p.published_state(state).cursor_dirty,
        !p.publish(state, shell).publishes(later),
        p.publish(state, shell).publish(later, later_shell) == p.publish(state, shell),
{
    let q = p.publish(state, shell);
    lemma_filter_facts(q.stale, among(q.waiting));
    if q.due().len() > 0 {
        let x = q.due()[0];
        assert(q.due().contains(x));
        lemma_publish_serves_all(p, state, shell, x);
    }
}

/// A request outlives the moment it was made. An output that asks while nothing
/// has changed is composed nothing, and as soon as something changes it is given
/// a scene with a serial above every earlier one, in a frame that still carries
/// the scene of every other output. After that there is nothing left to send.
pub proof fn lemma_request_is_served_by_the_next_change<S: Shell, T: Shell>(
    p: PacerView,
    id: OutputId,
    idle: StateView,
    idle_shell: S,
    changed: StateView,
    shell: T,
    later: StateView,
)
    requires
        serials_old(p),
        !p.stale.contains(id),
        !idle.dirty,
        changed.dirty,
        lists(changed.out.outputs, id),
        !later.dirty,
        !later.cursor_dirty,
        p.next_serial + p.request(id).ready(idle).due().len() <= u64::MAX,
        p.request(id).publish(idle, idle_shell).next_serial + p.request(id).publish(idle, idle_shell).ready(
            changed,
        ).due().len() <= u64::MAX,
    ensures
        ({
            let waiting = p.request(id).publish(idle, idle_shell);
            let served = waiting.publish(changed, shell);
            &&& waiting.published.has(id) == p.published.has(id)
            &&& p.published.has(id) ==> waiting.published.at(id) == p.published.at(id)
            &&& waiting.publishes(changed)
            &&& served.published.has(id)
            &&& exists|n: int| #[trigger] served_in_turn(waiting, changed, shell, id, n)
            &&& served.published.at(id).serial >= waiting.next_serial
            &&& waiting.next_serial >= p.next_serial
            &&& forall|x: OutputId| #[trigger]
                waiting.published.has(x) ==> {
                    &&& waiting.published.at(x).serial < served.published.at(id).serial
                    &&& served.published.has(x)
                }
            &&& !served.waiting.contains(id)
            &&& !served.stale.contains(id)
            &&& !waiting.published_state(changed).dirty
            &&& !waiting.published_state(changed).cursor_dirty
            &&& !served.publishes(later)
            &&& served.publish(later, shell) == served
        }),
{
    let asked = p.request(id);
    lemma_serials_stay_old(p, idle, id);
    let waiting = asked.publish(idle, idle_shell);
    lemma_asked(p.waiting, id);
    lemma_idle_request_waits(asked, idle, idle_shell, id);
    lemma_serials_rise(asked, idle, idle_shell, id);
    let ready = asked.ready(idle);
    lemma_filter_facts(ready.stale, among(ready.waiting));
    if ready.due().len() > 0 {
        let now = idle.drawn().cursor_drawn();
        lemma_unserved(ready.collect(now), now, idle_shell, ready.due(), id);
    }
    lemma_change_is_shown(waiting, changed, shell, id);
    lemma_serials_rise(waiting, changed, shell, id);
    lemma_all_put(waiting.stale, changed.out.outputs, id);
    lemma_filter_facts(waiting.ready(changed).stale, among(waiting.ready(changed).waiting));
    assert(waiting.ready(changed).due().contains(id));
    let served = waiting.publish(changed, shell);
    assert forall|x: OutputId| #[trigger] waiting.published.has(x) implies served.published.has(x) by {
        lemma_publish_drops_nothing(waiting, changed, shell, x);
    }
    lemma_publish_settles(waiting, changed, shell, later, shell);
}

proof fn lemma_asked(s: Seq<OutputId>, id: OutputId)
    ensures
        set_put(s, id).contains(id),
{
    if !s.contains(id) {
        assert(set_put(s, id)[s.len() as int] == id);
    }
}

proof fn lemma_put_once(s: Seq<OutputId>, outputs: Seq<OutputView>)
    requires
        s.no_duplicates(),
    ensures
        put_outputs(s, outputs).no_duplicates(),
    decreases outputs.len(),
{
    if outputs.len() > 0 {
        lemma_put_once(s, outputs.drop_last());
    }
}

/// The damage of a scene that is composed is told against the scene its output
/// last had, named by its serial. An output's first scene is against nothing.
pub proof fn lemma_damage_is_against_the_last<S: Shell>(p: PacerView, state: StateView, shell: S, id: OutputId)
    requires
        p.stale.no_duplicates(),
        p.ready(state).due().contains(id),
    ensures
        p.publish(state, shell).published.at(id).damage_from == if p.published.has(id) {
            Some(p.published.at(id).serial)
        } else {
            None
        },
        p.published.has(id) ==> p.publish(state, shell).published.at(id).damage == damaged(
            p.published.at(id),
            p.publish(state, shell).published.at(id),
        ),
{
    let ready = p.ready(state);
    let now = state.drawn().cursor_drawn();
    let due = ready.due();
    lemma_put_once(p.stale, state.out.outputs);
    lemma_filter_facts(ready.stale, among(ready.waiting));
    let n = lemma_served_anew(ready.collect(now), now, shell, due, id);
    assert(!due.take(n).contains(id)) by {
        if due.take(n).contains(id) {
            let i = choose|i: int| 0 <= i < n && due.take(n)[i] == id;
            assert(due[i] == due[n]);
        }
    }
    lemma_unserved(ready.collect(now), now, shell, due.take(n), id);
}

} // verus!
