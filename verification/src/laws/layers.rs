//! Layer surfaces: where they go, and the room they leave.
use crate::layer::{in_band, placed, Rect, surface_of};
use crate::seqs::{lemma_filter_agree, lemma_filter_all, lemma_filter_facts, lemma_filter_push};
use crate::state::compositor_state::StateView;
use crate::state::types::{
    ClientObjectId, LayerKind, LayerSurfaceStatePending, LayerSurfaceStateView, OutputId,
};
use vstd::prelude::*;

verus! {

/// Every layer surface is placed, in order.
pub proof fn lemma_all_placed(s: StateView, full: Rect, keys: Seq<ClientObjectId>)
    ensures
        s.arranged(full, keys).placements.len() == keys.len(),
        forall|i: int| 0 <= i < keys.len() ==> (#[trigger] s.arranged(full, keys).placements[i]).0 == keys[i],
    decreases keys.len(),
{
    if keys.len() > 0 {
        lemma_all_placed(s, full, keys.drop_last());
    }
}

/// Reserving room never adds any, and what is left never begins before the area
/// does.
pub proof fn lemma_room_only_shrinks(s: StateView, full: Rect, keys: Seq<ClientObjectId>)
    requires
        full.width >= 0,
        full.height >= 0,
    ensures
        0 <= s.arranged(full, keys).usable.width <= full.width,
        0 <= s.arranged(full, keys).usable.height <= full.height,
        s.arranged(full, keys).usable.x >= full.x,
        s.arranged(full, keys).usable.y >= full.y,
    decreases keys.len(),
{
    if keys.len() > 0 {
        lemma_room_only_shrinks(s, full, keys.drop_last());
    }
}

proof fn lemma_placed_within(s: StateView, full: Rect, keys: Seq<ClientObjectId>, i: int)
    requires
        0 <= i < keys.len(),
    ensures
        i < s.arranged(full, keys).placements.len(),
        s.arranged(full, keys).placements[i] == s.arranged(full, keys.take(i + 1)).placements[i],
    decreases keys.len(),
{
    lemma_all_placed(s, full, keys);
    lemma_all_placed(s, full, keys.drop_last());
    if i < keys.len() - 1 {
        lemma_placed_within(s, full, keys.drop_last(), i);
        assert(keys.drop_last().take(i + 1) =~= keys.take(i + 1));
    } else {
        assert(keys.take(i + 1) =~= keys);
    }
}

proof fn lemma_same_room(s: StateView, t: StateView, full: Rect, keys: Seq<ClientObjectId>)
    requires
        forall|j: int|
            0 <= j < keys.len() ==> t.layers.layer_surfaces.at(#[trigger] keys[j]).current
                == s.layers.layer_surfaces.at(keys[j]).current,
    ensures
        s.arranged(full, keys) == t.arranged(full, keys),
    decreases keys.len(),
{
    if keys.len() > 0 {
        assert forall|j: int| 0 <= j < keys.len() - 1 implies t.layers.layer_surfaces.at(
            #[trigger] keys.drop_last()[j],
        ).current == s.layers.layer_surfaces.at(keys.drop_last()[j]).current by {
            assert(keys.drop_last()[j] == keys[j]);
        }
        lemma_same_room(s, t, full, keys.drop_last());
        assert(keys.last() == keys[keys.len() - 1]);
    }
}

/// The room a layer surface reserves never moves itself: however much it
/// reserves, it is placed in what those before it have left.
pub proof fn lemma_own_reservation_moves_nothing(
    s: StateView,
    t: StateView,
    full: Rect,
    keys: Seq<ClientObjectId>,
    i: int,
    zone: i32,
)
    requires
        0 <= i < keys.len(),
        forall|j: int|
            0 <= j < i ==> t.layers.layer_surfaces.at(#[trigger] keys[j]).current == s.layers.layer_surfaces.at(
                keys[j],
            ).current,
        s.layers.layer_surfaces.at(keys[i]).current.exclusive_zone >= 0,
        zone >= 0,
        t.layers.layer_surfaces.at(keys[i]).current == (LayerSurfaceStatePending {
            exclusive_zone: zone,
            ..s.layers.layer_surfaces.at(keys[i]).current
        }),
    ensures
        s.arranged(full, keys).placements[i] == t.arranged(full, keys).placements[i],
{
    lemma_placed_within(s, full, keys, i);
    lemma_placed_within(t, full, keys, i);
    let upto = keys.take(i + 1);
    assert(upto.drop_last() =~= keys.take(i));
    assert(upto.last() == keys[i]);
    assert forall|j: int| 0 <= j < keys.take(i).len() implies t.layers.layer_surfaces.at(
        #[trigger] keys.take(i)[j],
    ).current == s.layers.layer_surfaces.at(keys.take(i)[j]).current by {
        assert(keys.take(i)[j] == keys[j]);
    }
    lemma_same_room(s, t, full, keys.take(i));
    lemma_all_placed(s, full, keys.take(i));
    lemma_all_placed(t, full, keys.take(i));
}

/// What comes later in the order never moves what comes before it.
pub proof fn lemma_later_moves_nothing(s: StateView, full: Rect, keys: Seq<ClientObjectId>, more: Seq<ClientObjectId>, i: int)
    requires
        0 <= i < keys.len(),
    ensures
        s.arranged(full, keys + more).placements[i] == s.arranged(full, keys).placements[i],
{
    lemma_placed_within(s, full, keys + more, i);
    lemma_placed_within(s, full, keys, i);
    assert((keys + more).take(i + 1) =~= keys.take(i + 1));
}

/// A layer surface that asks to ignore what others reserve is placed in the
/// whole area.
pub proof fn lemma_ignoring_uses_all(s: StateView, full: Rect, keys: Seq<ClientObjectId>, i: int)
    requires
        0 <= i < keys.len(),
        s.layers.layer_surfaces.at(keys[i]).current.exclusive_zone < 0,
    ensures
        s.arranged(full, keys).placements[i].1 == placed(full, s.layers.layer_surfaces.at(keys[i]).current),
{
    lemma_placed_within(s, full, keys, i);
    let upto = keys.take(i + 1);
    assert(upto.last() == keys[i]);
    lemma_all_placed(s, full, upto.drop_last());
}

/// Whether what a predicate holds of comes after what it does not hold of.
#[verifier::opaque]
pub open spec fn holds_from<A>(s: Seq<A>, p: spec_fn(A) -> bool) -> bool {
    forall|i: int, j: int| #![trigger s[i], s[j]] 0 <= i < j < s.len() && p(s[i]) ==> p(s[j])
}

proof fn lemma_two_parts<A>(s: Seq<A>, p: spec_fn(A) -> bool, q: spec_fn(A) -> bool)
    requires
        forall|i: int| 0 <= i < s.len() ==> q(#[trigger] s[i]) == !p(s[i]),
        holds_from(s, p),
    ensures
        s.filter(q) + s.filter(p) == s,
    decreases s.len(),
{
    reveal(holds_from);
    if s.len() == 0 {
        lemma_filter_all(s, p);
        lemma_filter_all(s, q);
        assert(s.filter(q) + s.filter(p) =~= s);
    } else {
        let rest = s.drop_last();
        let last = s.last();
        assert(s =~= rest.push(last));
        lemma_filter_push(rest, last, p);
        lemma_filter_push(rest, last, q);
        assert(q(last) == !p(last)) by {
            assert(q(s[s.len() - 1]) == !p(s[s.len() - 1]));
        }
        if p(last) {
            assert forall|i: int| 0 <= i < rest.len() implies q(#[trigger] rest[i]) == !p(rest[i]) by {
                assert(rest[i] == s[i]);
            }
            assert(holds_from(rest, p)) by {
                assert forall|i: int, j: int|
                    #![trigger rest[i], rest[j]]
                    0 <= i < j < rest.len() && p(rest[i]) implies p(rest[j]) by {
                    assert(rest[i] == s[i] && rest[j] == s[j]);
                }
            }
            lemma_two_parts(rest, p, q);
            assert(rest.filter(q) + rest.filter(p).push(last) =~= (rest.filter(q) + rest.filter(p)).push(last));
        } else {
            assert forall|i: int| 0 <= i < rest.len() implies q(#[trigger] rest[i]) && !p(rest[i]) by {
                assert(rest[i] == s[i]);
                assert(s[s.len() - 1] == last);
            }
            lemma_none_kept(rest, p);
            lemma_filter_all(rest, q);
            assert(rest.push(last) + rest.filter(p) =~= s);
        }
    }
}

proof fn lemma_none_kept<A>(s: Seq<A>, p: spec_fn(A) -> bool)
    requires
        forall|i: int| 0 <= i < s.len() ==> !p(#[trigger] s[i]),
    ensures
        s.filter(p).len() == 0,
{
    lemma_filter_facts(s, p);
    if s.filter(p).len() > 0 {
        let x = s.filter(p)[0];
        assert(s.filter(p).contains(x));
        let i = choose|i: int| 0 <= i < s.len() && s[i] == x;
        assert(!p(s[i]));
    }
}

proof fn lemma_maps_join<A, B>(a: Seq<A>, b: Seq<A>, s: Seq<A>, f: spec_fn(A) -> B)
    requires
        a + b == s,
    ensures
        a.map_values(f) + b.map_values(f) == s.map_values(f),
{
    assert(a.map_values(f) + b.map_values(f) =~= s.map_values(f));
}

proof fn lemma_upper_band_comes_last(s: StateView, output_id: OutputId)
    ensures
        holds_from(s.ordered_for_output(output_id), in_band(s, true)),
{
    let all = s.ordered_for_output(output_id);
    s.lemma_layer_order();
    s.layers_of(output_id).lemma_sort_by_ensures(s.layer_order());
    reveal(holds_from);
    assert forall|i: int, j: int|
        #![trigger all[i], all[j]]
        0 <= i < j < all.len() && in_band(s, true)(all[i]) implies in_band(s, true)(all[j]) by {
        assert(s.layer_order()(all[i], all[j]));
    }
}

proof fn lemma_bands_join(s: StateView, all: Seq<ClientObjectId>)
    requires
        holds_from(all, in_band(s, true)),
    ensures
        all.filter(in_band(s, false)) + all.filter(in_band(s, true)) == all,
{
    let (p, q) = (in_band(s, true), in_band(s, false));
    assert forall|i: int| 0 <= i < all.len() implies q(#[trigger] all[i]) == !p(all[i]) by {
        let layer = s.layers.layer_surfaces.at(all[i]).current.layer;
        assert(p(all[i]) == layer.above());
        assert(q(all[i]) == !layer.above());
    }
    lemma_two_parts(all, p, q);
    assert(all.filter(q) + all.filter(p) == all);
}

/// The layer surfaces of an output are those under the windows followed by those
/// over them: none is lost, drawn twice or drawn out of order.
pub proof fn lemma_bands_make_the_whole(s: StateView, output_id: OutputId)
    ensures
        s.keys_in_band(output_id, false) + s.keys_in_band(output_id, true) == s.ordered_for_output(
            output_id,
        ).map_values(surface_of(s)),
{
    let all = s.ordered_for_output(output_id);
    lemma_upper_band_comes_last(s, output_id);
    lemma_bands_join(s, all);
    lemma_maps_join(all.filter(in_band(s, false)), all.filter(in_band(s, true)), all, surface_of(s));
}

/// Putting the layer surfaces of an output in order loses none of them and
/// repeats none.
pub proof fn lemma_order_keeps_all(s: StateView, output_id: OutputId)
    ensures
        s.ordered_for_output(output_id).to_multiset() == s.layers_of(output_id).to_multiset(),
{
    s.lemma_layer_order();
    s.layers_of(output_id).lemma_sort_by_ensures(s.layer_order());
}

/// How high a layer is: wallpapers lowest, then what windows cover, then what
/// covers windows, and last what covers everything.
pub open spec fn layer_height(kind: LayerKind) -> int {
    match kind {
        LayerKind::Background => 0,
        LayerKind::Bottom => 1,
        LayerKind::Top => 3,
        LayerKind::Overlay => 4,
    }
}

/// The order of an output's layer surfaces has each of them once, the lower
/// layers first, and those of one layer by the client and the object.
pub proof fn lemma_layers_are_in_order(s: StateView, output_id: OutputId)
    requires
        s.layers.layer_surfaces.ok(),
    ensures
        ({
            let all = s.ordered_for_output(output_id);
            &&& all.no_duplicates()
            &&& forall|k: ClientObjectId| #[trigger]
                all.contains(k) <==> s.layers.layer_surfaces.has(k) && s.layers.layer_surfaces.at(k).output == Some(
                    output_id,
                )
            &&& forall|i: int, j: int|
                #![trigger all[i], all[j]]
                0 <= i < j < all.len() ==> {
                    let a = layer_height(s.layers.layer_surfaces.at(all[i]).current.layer);
                    let b = layer_height(s.layers.layer_surfaces.at(all[j]).current.layer);
                    a < b || (a == b && (all[i].0 < all[j].0 || (all[i].0 == all[j].0 && all[i].1 < all[j].1)))
                }
        }),
{
    let all = s.ordered_for_output(output_id);
    let some = s.layers_of(output_id);
    let p = |k: ClientObjectId| s.layers.layer_surfaces.map[k].output == Some(output_id);
    let q = |k: ClientObjectId|
        (|k: ClientObjectId, l: LayerSurfaceStateView| l.output == Some(output_id))(k, s.layers.layer_surfaces.map[k]);
    lemma_filter_facts(s.layers.layer_surfaces.order, p);
    lemma_filter_agree(s.layers.layer_surfaces.order, p, q);
    assert(some == s.layers.layer_surfaces.order.filter(p));
    s.lemma_layer_order();
    some.lemma_sort_by_ensures(s.layer_order());
    some.to_multiset_ensures();
    all.to_multiset_ensures();
    assert forall|k: ClientObjectId| #[trigger] all.contains(k) <==> some.contains(k) by {
        assert(all.to_multiset().count(k) == some.to_multiset().count(k));
    }
    assert(all.no_duplicates()) by {
        some.lemma_multiset_has_no_duplicates();
        all.lemma_multiset_has_no_duplicates_conv();
    }
    assert forall|i: int, j: int|
        #![trigger all[i], all[j]]
        0 <= i < j < all.len() implies ({
        let a = layer_height(s.layers.layer_surfaces.at(all[i]).current.layer);
        let b = layer_height(s.layers.layer_surfaces.at(all[j]).current.layer);
        a < b || (a == b && (all[i].0 < all[j].0 || (all[i].0 == all[j].0 && all[i].1 < all[j].1)))
    }) by {
        assert(s.layer_order()(all[i], all[j]));
        assert(all[i] != all[j]);
    }
}

} // verus!
