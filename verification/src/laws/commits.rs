//! Commits: what is cached, and what two of them come to.
use crate::protocol::wire_utils::ClientMessage;
use crate::state::compositor_state::StateView;
use crate::state::types::{ClientObjectId, SurfacePendingView, SurfaceView};
use vstd::prelude::*;

verus! {

/// Whether two states have the same surfaces in the same tree, synchronised
/// alike.
pub open spec fn same_tree(a: StateView, b: StateView) -> bool {
    &&& a.surface_count() == b.surface_count()
    &&& forall|k: ClientObjectId| #[trigger] b.surf.surfaces.has(k) <==> a.surf.surfaces.has(k)
    &&& forall|k: ClientObjectId|
        a.surf.surfaces.has(k) ==> (#[trigger] b.surf.surfaces.at(k)).parent == a.surf.surfaces.at(k).parent
            && b.surf.surfaces.at(k).is_subsurface == a.surf.surfaces.at(k).is_subsurface
            && b.surf.surfaces.at(k).subsurface_sync == a.surf.surfaces.at(k).subsurface_sync
}

pub proof fn lemma_same_sync(a: StateView, b: StateView, client_id: u32, id: u32, fuel: nat)
    requires
        same_tree(a, b),
    ensures
        a.synced_within(client_id, id, fuel) == b.synced_within(client_id, id, fuel),
    decreases fuel,
{
    let key = (client_id, id);
    assert(b.surf.surfaces.has(key) == a.surf.surfaces.has(key));
    if a.surf.surfaces.has(key) {
        assert(b.surf.surfaces.at(key).parent == a.surf.surfaces.at(key).parent);
        if fuel > 0 && a.surf.surfaces.at(key).parent is Some {
            lemma_same_sync(a, b, client_id, a.surf.surfaces.at(key).parent->0, (fuel - 1) as nat);
        }
    }
}

/// A commit to a synchronised subsurface reaches nothing that is shown: it is
/// folded into the surface's cache, and every other surface, every buffer and
/// the need to draw stay as they were.
pub proof fn lemma_synced_commit_is_cached(s: StateView, msg: ClientMessage, other: ClientObjectId)
    requires
        s.surf.surfaces.has((msg.client_id, msg.object_id)),
        s.effectively_synced((msg.client_id, msg.object_id)),
        s.layer_surface_of((msg.client_id, msg.object_id)) is None,
        s.xdg_surface_of((msg.client_id, msg.object_id)) is None,
        other != (msg.client_id, msg.object_id),
    ensures
        ({
            let key = (msg.client_id, msg.object_id);
            let before = s.surf.surfaces.at(key);
            let after = s.surface_commit(msg);
            &&& after.surf.surfaces.at(key) == (SurfaceView {
                pending: SurfacePendingView::nothing(),
                cached: Some(
                    match before.cached {
                        Some(c) => c.merged(before.pending),
                        None => SurfacePendingView::nothing().merged(before.pending),
                    },
                ),
                ..before
            })
            &&& after.surf.surfaces.get(other) == s.surf.surfaces.get(other)
            &&& after.mem == s.mem
            &&& after.dirty == s.dirty
            &&& after.clients == s.clients
        }),
{
    let key = (msg.client_id, msg.object_id);
    let taken = s.take_pending(key);
    assert(taken.commit_role(key) == taken);
    assert(same_tree(s, taken));
    lemma_same_sync(s, taken, key.0, key.1, s.surface_count());
    assert(taken.layer_surface_of(key) == s.layer_surface_of(key));
    assert(taken.xdg_surface_of(key) == s.xdg_surface_of(key));
    assert(taken.may_show(key));
}

/// A subsurface of a synchronised subsurface is synchronised whatever it asks
/// for itself.
pub proof fn lemma_sync_is_inherited(s: StateView, client_id: u32, id: u32, parent: u32, fuel: nat)
    requires
        s.surf.surfaces.has((client_id, id)),
        s.surf.surfaces.at((client_id, id)).is_subsurface,
        s.surf.surfaces.at((client_id, id)).parent == Some(parent),
        s.synced_within(client_id, parent, fuel),
    ensures
        s.synced_within(client_id, id, fuel + 1),
{
}

/// Two commits folded into one do what the two do one after the other, except
/// for where the sums of offsets are brought within range.
pub proof fn lemma_merged_commits(s: SurfaceView, a: SurfacePendingView, b: SurfacePendingView)
    ensures
        s.committed(a.merged(b)) == (SurfaceView {
            offset: s.committed(a.merged(b)).offset,
            ..s.committed(a).committed(b)
        }),
{
    assert(s.frame_callbacks + (a.frame_callbacks + b.frame_callbacks) =~= s.frame_callbacks + a.frame_callbacks
        + b.frame_callbacks);
    assert(s.presentation_feedbacks + (a.presentation_feedbacks + b.presentation_feedbacks)
        =~= s.presentation_feedbacks + a.presentation_feedbacks + b.presentation_feedbacks);
}

/// A commit of nothing, folded in before or after, changes nothing.
pub proof fn lemma_merged_with_nothing(a: SurfacePendingView)
    requires
        a.buffer_attached || a.buffer_id is None,
    ensures
        a.merged(SurfacePendingView::nothing()) == a,
        SurfacePendingView::nothing().merged(a) == a,
{
    let n = SurfacePendingView::nothing();
    assert(a.damage_surface + n.damage_surface =~= a.damage_surface);
    assert(a.damage_buffer + n.damage_buffer =~= a.damage_buffer);
    assert(a.frame_callbacks + n.frame_callbacks =~= a.frame_callbacks);
    assert(a.presentation_feedbacks + n.presentation_feedbacks =~= a.presentation_feedbacks);
    assert(n.damage_surface + a.damage_surface =~= a.damage_surface);
    assert(n.damage_buffer + a.damage_buffer =~= a.damage_buffer);
    assert(n.frame_callbacks + a.frame_callbacks =~= a.frame_callbacks);
    assert(n.presentation_feedbacks + a.presentation_feedbacks =~= a.presentation_feedbacks);
}

/// Every callback of two commits folded into one is kept, the earlier first.
pub proof fn lemma_merged_callbacks_are_kept(a: SurfacePendingView, b: SurfacePendingView, id: u32)
    requires
        a.frame_callbacks.contains(id) || b.frame_callbacks.contains(id),
    ensures
        a.merged(b).frame_callbacks.contains(id),
{
    let all = a.merged(b).frame_callbacks;
    if a.frame_callbacks.contains(id) {
        let i = choose|i: int| 0 <= i < a.frame_callbacks.len() && a.frame_callbacks[i] == id;
        assert(all[i] == id);
    } else {
        let i = choose|i: int| 0 <= i < b.frame_callbacks.len() && b.frame_callbacks[i] == id;
        assert(all[a.frame_callbacks.len() + i] == id);
    }
}

/// Whether nothing is cached in the second of two states that was not in the
/// first.
pub open spec fn caches_less(a: StateView, b: StateView) -> bool {
    forall|k: ClientObjectId|
        #[trigger] b.surf.surfaces.has(k) ==> a.surf.surfaces.has(k) && (a.surf.surfaces.at(k).cached is None
            ==> b.surf.surfaces.at(k).cached is None)
}

proof fn lemma_caches_less_twice(a: StateView, b: StateView, c: StateView)
    requires
        caches_less(a, b),
        caches_less(b, c),
    ensures
        caches_less(a, c),
{
    assert forall|k: ClientObjectId| #[trigger] c.surf.surfaces.has(k) implies a.surf.surfaces.has(k) && (
    a.surf.surfaces.at(k).cached is None ==> c.surf.surfaces.at(k).cached is None) by {
        assert(b.surf.surfaces.has(k));
    }
}

proof fn lemma_apply_one_caches(s: StateView, key: ClientObjectId, p: SurfacePendingView)
    ensures
        caches_less(s, s.apply_one(key, p)),
{
}

proof fn lemma_uncache_caches(s: StateView, keys: Seq<ClientObjectId>)
    ensures
        caches_less(s, s.uncache_each(keys)),
        forall|k: ClientObjectId|
            keys.contains(k) && #[trigger] s.uncache_each(keys).surf.surfaces.has(k) ==> s.uncache_each(
                keys,
            ).surf.surfaces.at(k).cached is None,
    decreases keys.len(),
{
    if keys.len() > 0 {
        let before = s.uncache_each(keys.drop_last());
        lemma_uncache_caches(s, keys.drop_last());
        let after = s.uncache_each(keys);
        assert(caches_less(before, after)) by {
            assert forall|k: ClientObjectId| #[trigger] after.surf.surfaces.has(k) implies before.surf.surfaces.has(k)
                && (before.surf.surfaces.at(k).cached is None ==> after.surf.surfaces.at(k).cached is None) by {
            }
        }
        lemma_caches_less_twice(s, before, after);
        assert forall|k: ClientObjectId| keys.contains(k) && #[trigger] after.surf.surfaces.has(
            k,
        ) implies after.surf.surfaces.at(k).cached is None by {
            assert(before.surf.surfaces.has(k));
            if k != keys.last() {
                let i = choose|i: int| 0 <= i < keys.len() && keys[i] == k;
                assert(keys.drop_last()[i] == k);
                assert(keys.drop_last().contains(k));
            }
        }
    }
}

proof fn lemma_entries_cache(s: StateView, entries: Seq<(ClientObjectId, SurfacePendingView)>)
    ensures
        caches_less(s, s.apply_entries(entries)),
    decreases entries.len(),
{
    if entries.len() > 0 {
        let before = s.apply_entries(entries.drop_last());
        lemma_entries_cache(s, entries.drop_last());
        let e = entries.last();
        let applied = before.apply_one(e.0, e.1);
        lemma_apply_one_caches(before, e.0, e.1);
        lemma_uncache_caches(applied, applied.synced_children(e.0));
        lemma_caches_less_twice(before, applied, before.apply_entry(e));
        lemma_caches_less_twice(s, before, before.apply_entry(e));
    }
}

proof fn lemma_levels_cache(s: StateView, entries: Seq<(ClientObjectId, SurfacePendingView)>, fuel: nat)
    ensures
        caches_less(s, s.apply_levels(entries, fuel)),
    decreases fuel,
{
    let applied = s.apply_entries(entries);
    lemma_entries_cache(s, entries);
    let next = s.entries_caches(entries);
    if fuel > 0 && next.len() > 0 {
        lemma_levels_cache(applied, next, (fuel - 1) as nat);
        lemma_caches_less_twice(s, applied, applied.apply_levels(next, (fuel - 1) as nat));
    }
}

/// When a surface's commit reaches the screen, what its synchronised
/// subsurfaces have cached goes with it: none of them has anything cached
/// afterwards.
pub proof fn lemma_commit_takes_caches(s: StateView, key: ClientObjectId, p: SurfacePendingView, child: ClientObjectId)
    requires
        s.apply_one(key, p).synced_children(key).contains(child),
        s.apply_surface_state(key, p).surf.surfaces.has(child),
    ensures
        s.apply_surface_state(key, p).surf.surfaces.at(child).cached is None,
{
    let entries = seq![(key, p)];
    let applied = s.apply_one(key, p);
    let children = applied.synced_children(key);
    let taken = applied.uncache_each(children);
    lemma_uncache_caches(applied, children);
    assert(entries.drop_last() =~= Seq::<(ClientObjectId, SurfacePendingView)>::empty());
    assert(s.apply_entries(entries.drop_last()) == s);
    assert(s.apply_entries(entries) == taken);
    let next = s.entries_caches(entries);
    let fuel = s.surface_count();
    if fuel > 0 && next.len() > 0 {
        lemma_levels_cache(taken, next, (fuel - 1) as nat);
        assert(taken.surf.surfaces.has(child));
    }
}

} // verus!
