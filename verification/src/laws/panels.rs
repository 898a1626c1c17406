//! Panels: that each is told the size of the place it has, whatever changes it.
use crate::laws::teardown::lemma_other_panels_stay;
use crate::layer::Rect;
use crate::protocol::wire_utils::ClientMessage;
use crate::run::displays::{output_index, output_updated};
use crate::seqs::{lemma_filter_agree, lemma_filter_facts};
use crate::state::compositor_state::{DisplaysView, StateView};
use crate::state::panels::{beside, layer_of, settled_on};
use crate::state::teardown::not_owned;
use crate::state::types::{
    ClientObjectId, LayerSurfaceState, LayerSurfaceStateView, OutputId, OutputView,
};
use crate::table::Dict;
use vstd::prelude::*;

verus! {

/// Whether a panel that has a place has been told how large it is.
pub open spec fn knows_its_size(s: StateView, key: ClientObjectId) -> bool {
    match s.layer_geometry(key) {
        Some(g) => s.layers.layer_surfaces.at(key).configured_size == Some((g.width, g.height)),
        None => true,
    }
}

/// Whether two states lay the same panels out in the same way.
pub open spec fn same_layout(a: StateView, b: StateView) -> bool {
    &&& a.out == b.out
    &&& a.layers.layer_surfaces.order == b.layers.layer_surfaces.order
    &&& a.layers.layer_surfaces.map.dom() == b.layers.layer_surfaces.map.dom()
    &&& forall|k: ClientObjectId|
        {
            &&& (#[trigger] b.layers.layer_surfaces.at(k)).current == a.layers.layer_surfaces.at(k).current
            &&& b.layers.layer_surfaces.at(k).output == a.layers.layer_surfaces.at(k).output
        }
}

proof fn lemma_same_arranged(a: StateView, b: StateView, full: Rect, keys: Seq<ClientObjectId>)
    requires
        same_layout(a, b),
    ensures
        a.arranged(full, keys) == b.arranged(full, keys),
    decreases keys.len(),
{
    if keys.len() > 0 {
        lemma_same_arranged(a, b, full, keys.drop_last());
        assert(b.layers.layer_surfaces.at(keys.last()).current == a.layers.layer_surfaces.at(keys.last()).current);
    }
}

proof fn lemma_same_output(a: StateView, b: StateView, id: OutputId, n: nat)
    requires
        a.out == b.out,
    ensures
        a.output_among(id, n) == b.output_among(id, n),
    decreases n,
{
    if n > 0 && n <= a.out.outputs.len() {
        lemma_same_output(a, b, id, (n - 1) as nat);
    }
}

proof fn lemma_same_order(a: StateView, b: StateView, id: OutputId)
    requires
        same_layout(a, b),
    ensures
        a.ordered_for_output(id) == b.ordered_for_output(id),
{
    let p = |k: ClientObjectId, l: LayerSurfaceStateView| l.output == Some(id);
    let pa = |k: ClientObjectId| p(k, a.layers.layer_surfaces.map[k]);
    let pb = |k: ClientObjectId| p(k, b.layers.layer_surfaces.map[k]);
    assert forall|k: ClientObjectId| #[trigger] pa(k) == pb(k) by {
        assert(b.layers.layer_surfaces.at(k).output == a.layers.layer_surfaces.at(k).output);
    }
    lemma_filter_agree(a.layers.layer_surfaces.order, pa, pb);
    assert(a.layers_of(id) == b.layers_of(id));
    assert(a.layer_order() =~= b.layer_order()) by {
        assert forall|x: ClientObjectId, y: ClientObjectId| #[trigger] a.layer_order()(x, y) == b.layer_order()(x, y) by {
            assert(b.layers.layer_surfaces.at(x).current == a.layers.layer_surfaces.at(x).current);
            assert(b.layers.layer_surfaces.at(y).current == a.layers.layer_surfaces.at(y).current);
        }
    }
}

proof fn lemma_same_geometry(a: StateView, b: StateView, key: ClientObjectId)
    requires
        same_layout(a, b),
    ensures
        a.layer_geometry(key) == b.layer_geometry(key),
{
    assert(b.layers.layer_surfaces.at(key).output == a.layers.layer_surfaces.at(key).output);
    if let Some(id) = a.layers.layer_surfaces.at(key).output {
        lemma_same_output(a, b, id, a.out.outputs.len());
        lemma_same_order(a, b, id);
        if let Some(o) = a.output(id) {
            lemma_same_arranged(a, b, Rect::whole(o), a.ordered_for_output(id));
        }
    }
}

proof fn lemma_configured_one(s: StateView, k: ClientObjectId, key: ClientObjectId)
    ensures
        same_layout(s, s.configure_layer(k)),
        k == key || knows_its_size(s, key) ==> knows_its_size(s.configure_layer(k), key),
{
    let t = s.configure_layer(k);
    assert(t.layers.layer_surfaces.map.dom() =~= s.layers.layer_surfaces.map.dom());
    assert(same_layout(s, t));
    lemma_same_geometry(s, t, key);
}

/// Configuring panels in turn moves none of them, and leaves each told its size.
pub proof fn lemma_configured_panels_know_their_size(s: StateView, keys: Seq<ClientObjectId>, key: ClientObjectId)
    ensures
        same_layout(s, s.configure_layers(keys)),
        keys.contains(key) || knows_its_size(s, key) ==> knows_its_size(s.configure_layers(keys), key),
    decreases keys.len(),
{
    if keys.len() > 0 {
        let before = s.configure_layers(keys.drop_last());
        lemma_configured_panels_know_their_size(s, keys.drop_last(), key);
        lemma_configured_one(before, keys.last(), key);
        if keys.contains(key) && keys.last() != key {
            let i = keys.index_of(key);
            assert(keys.drop_last()[i] == key);
        }
    }
}

/// A panel of an output that is resettled knows its size, if it was ever told
/// one.
proof fn lemma_resettled(s: StateView, output: Option<OutputId>, key: ClientObjectId)
    requires
        s.layers.layer_surfaces.ok(),
    ensures
        same_layout(s, s.resettle(output)),
        knows_its_size(s, key) ==> knows_its_size(s.resettle(output), key),
        output is Some && s.layers.layer_surfaces.has(key) && settled_on(output->0)(key, s.layers.layer_surfaces.at(key))
            ==> knows_its_size(s.resettle(output), key),
{
    if let Some(id) = output {
        let p = |k: ClientObjectId| settled_on(id)(k, s.layers.layer_surfaces.map[k]);
        let keys = s.layers.layer_surfaces.keys_where(settled_on(id));
        lemma_filter_facts(s.layers.layer_surfaces.order, p);
        lemma_configured_panels_know_their_size(s, keys, key);
    }
}

/// When an output is resized every panel on it is told the size it now has.
pub proof fn lemma_resized_output_tells_its_panels(s: StateView, o: OutputView, key: ClientObjectId)
    requires
        s.layers.layer_surfaces.ok(),
        output_index(s.out.outputs, o.id) is Some,
        s.layers.layer_surfaces.has(key),
        settled_on(o.id)(key, s.layers.layer_surfaces.at(key)),
    ensures
        knows_its_size(s.upsert_output(o), key),
{
    let i = output_index(s.out.outputs, o.id)->0;
    let changed = StateView {
        out: DisplaysView {
            outputs: s.out.outputs.update(i, output_updated(s.out.outputs[i], s.rescaled_output(o))),
            ..s.out
        },
        ..s
    };
    lemma_resettled(changed, Some(o.id), key);
}

/// When a panel is committed it is told its size, and so is every other panel of
/// its output.
pub proof fn lemma_committed_panel_tells_its_output(s: StateView, surface: ClientObjectId, key: ClientObjectId)
    requires
        s.layers.layer_surfaces.ok(),
        s.layer_surface_of(surface) is Some,
        s.layers.layer_surfaces.has(s.layer_surface_of(surface)->0),
        s.layers.layer_surfaces.has(key),
        s.layers.layer_surfaces.at(key).output == s.layers.layer_surfaces.at(s.layer_surface_of(surface)->0).output,
    ensures
        knows_its_size(s.commit_role(surface), key),
{
    let k = s.layer_surface_of(surface)->0;
    let current = s.commit_layer(k);
    let first = current.configure_layer(k);
    lemma_configured_one(current, k, key);
    assert(first.layers.layer_surfaces.at(k).output == current.layers.layer_surfaces.at(k).output);
    assert(first.layers.layer_surfaces.at(key).output == current.layers.layer_surfaces.at(key).output);
    let t = first.reconfigure_output_layers(k);
    if let Some(id) = first.layers.layer_surfaces.at(k).output {
        let p = |x: ClientObjectId| beside(k, id)(x, first.layers.layer_surfaces.map[x]);
        let others = first.layers_beside(k, id);
        lemma_filter_facts(first.layers.layer_surfaces.order, p);
        lemma_configured_panels_know_their_size(first, others, key);
    }
    assert(knows_its_size(t, key));
    assert(same_layout(t, t.dirtied()));
    lemma_same_geometry(t, t.dirtied(), key);
}

proof fn lemma_without_ok<K, V>(d: Dict<K, V>, k: K)
    requires
        d.ok(),
    ensures
        d.without(k).ok(),
{
    lemma_filter_facts(d.order, |x: K| x != k);
}

proof fn lemma_keep_ok<V>(d: Dict<ClientObjectId, V>, p: spec_fn(ClientObjectId, V) -> bool)
    requires
        d.ok(),
    ensures
        d.keep(p).ok(),
{
    lemma_filter_facts(d.order, |x: ClientObjectId| p(x, d.map[x]));
}

/// When a panel is destroyed the other panels of its output are told the size
/// they have with the room it leaves.
pub proof fn lemma_leaving_panel_makes_room(s: StateView, msg: ClientMessage, key: ClientObjectId)
    requires
        s.layers.layer_surfaces.ok(),
        s.layers.layer_surfaces.has((msg.client_id, msg.object_id)),
        s.layers.layer_surfaces.has(key),
        key != (msg.client_id, msg.object_id),
        s.layers.layer_surfaces.at((msg.client_id, msg.object_id)).output is Some,
        settled_on(s.layers.layer_surfaces.at((msg.client_id, msg.object_id)).output->0)(
            key,
            s.layers.layer_surfaces.at(key),
        ),
    ensures
        knows_its_size(s.layer_destroy(msg), key),
{
    let gone = (msg.client_id, msg.object_id);
    lemma_without_ok(s.layers.layer_surfaces, gone);
    let left = s.drop_layer(gone).unregister(msg.client_id, msg.object_id);
    lemma_resettled(left, s.panel_output(gone), key);
}

proof fn lemma_resettled_each(s: StateView, outputs: Seq<Option<OutputId>>, id: OutputId, key: ClientObjectId)
    requires
        s.layers.layer_surfaces.ok(),
    ensures
        same_layout(s, s.resettle_each(outputs)),
        settled_on(id)(key, s.layers.layer_surfaces.at(key)) ==> settled_on(id)(
            key,
            s.resettle_each(outputs).layers.layer_surfaces.at(key),
        ),
        outputs.contains(Some(id)) && s.layers.layer_surfaces.has(key) && settled_on(id)(
            key,
            s.layers.layer_surfaces.at(key),
        ) ==> knows_its_size(s.resettle_each(outputs), key),
    decreases outputs.len(),
{
    if outputs.len() > 0 {
        let before = s.resettle_each(outputs.drop_last());
        lemma_resettled_each(s, outputs.drop_last(), id, key);
        lemma_resettled(before, outputs.last(), key);
        lemma_resettled_stays(before, outputs.last(), id, key);
        if outputs.contains(Some(id)) && outputs.last() != Some(id) {
            let i = outputs.index_of(Some(id));
            assert(outputs.drop_last()[i] == Some(id));
        }
    }
}

proof fn lemma_configured_stays(s: StateView, keys: Seq<ClientObjectId>, id: OutputId, key: ClientObjectId)
    requires
        settled_on(id)(key, s.layers.layer_surfaces.at(key)),
    ensures
        settled_on(id)(key, s.configure_layers(keys).layers.layer_surfaces.at(key)),
    decreases keys.len(),
{
    if keys.len() > 0 {
        lemma_configured_stays(s, keys.drop_last(), id, key);
    }
}

proof fn lemma_resettled_stays(s: StateView, output: Option<OutputId>, id: OutputId, key: ClientObjectId)
    ensures
        settled_on(id)(key, s.layers.layer_surfaces.at(key)) ==> settled_on(id)(
            key,
            s.resettle(output).layers.layer_surfaces.at(key),
        ),
{
    if output is Some && settled_on(id)(key, s.layers.layer_surfaces.at(key)) {
        lemma_configured_stays(s, s.layers.layer_surfaces.keys_where(settled_on(output->0)), id, key);
    }
}

/// When a client goes the panels of others are told the size they have with the
/// room that its own leave.
pub proof fn lemma_lost_panels_make_room(s: StateView, client_id: u32, lost: ClientObjectId, key: ClientObjectId)
    requires
        s.layers.layer_surfaces.ok(),
        s.layers.layer_surfaces.has(lost),
        s.layers.layer_surfaces.at(lost).client_id == client_id,
        s.layers.layer_surfaces.at(lost).output is Some,
        s.layers.layer_surfaces.has(key),
        s.layers.layer_surfaces.at(key).client_id != client_id,
        settled_on(s.layers.layer_surfaces.at(lost).output->0)(key, s.layers.layer_surfaces.at(key)),
    ensures
        s.client_disconnected(client_id).layers.layer_surfaces.has(key),
        knows_its_size(s.client_disconnected(client_id), key),
{
    let id = s.layers.layer_surfaces.at(lost).output->0;
    let torn = s.remove_client_resources(client_id);
    lemma_other_panels_stay(s, client_id);
    lemma_keep_ok(s.layers.layer_surfaces, not_owned::<LayerSurfaceState>(client_id));
    let gone = StateView { clients: torn.clients.without(client_id), ..torn }.close_fds(torn.unclaimed(client_id));
    let outputs = s.panel_outputs(client_id);
    let p = |k: ClientObjectId| layer_of(client_id)(k, s.layers.layer_surfaces.map[k]);
    let mine = s.layers.layer_surfaces.keys_where(layer_of(client_id));
    lemma_filter_facts(s.layers.layer_surfaces.order, p);
    assert(mine.contains(lost));
    assert(outputs[mine.index_of(lost)] == Some(id));
    assert(gone.layers.layer_surfaces.at(key) == s.layers.layer_surfaces.at(key));
    lemma_resettled_each(gone, outputs, id, key);
    let settled = gone.resettle_each(outputs);
    let done = s.client_disconnected(client_id);
    assert(same_layout(settled, done));
    lemma_same_geometry(settled, done, key);
}

} // verus!
