//! Synchronised subsurfaces: what one has cached is shown with its parent's
//! commit.
use crate::laws::commits::{lemma_same_sync, same_tree};
use crate::laws::tree::{lemma_no_return, lemma_same_grounded, lemma_up_further};
use crate::seqs::{lemma_filter_agree, lemma_filter_facts};
use crate::state::compositor_state::StateView;
use crate::state::types::{ClientObjectId, SurfacePendingView, SurfaceView};
use vstd::prelude::*;

verus! {

/// Whether two states have the same surfaces linked and synchronised alike.
pub open spec fn same_shape(a: StateView, b: StateView) -> bool {
    &&& same_tree(a, b)
    &&& forall|k: ClientObjectId|
        a.surf.surfaces.has(k) ==> (#[trigger] b.surf.surfaces.at(k)).children == a.surf.surfaces.at(k).children
}

proof fn lemma_shape_twice(a: StateView, b: StateView, c: StateView)
    requires
        same_shape(a, b),
        same_shape(b, c),
    ensures
        same_shape(a, c),
{
    assert forall|k: ClientObjectId| #[trigger] c.surf.surfaces.has(k) <==> a.surf.surfaces.has(k) by {
        assert(b.surf.surfaces.has(k) <==> a.surf.surfaces.has(k));
    }
    assert forall|k: ClientObjectId| a.surf.surfaces.has(k) implies (#[trigger] c.surf.surfaces.at(k)).parent
        == a.surf.surfaces.at(k).parent && c.surf.surfaces.at(k).is_subsurface == a.surf.surfaces.at(k).is_subsurface
        && c.surf.surfaces.at(k).subsurface_sync == a.surf.surfaces.at(k).subsurface_sync
        && c.surf.surfaces.at(k).children == a.surf.surfaces.at(k).children by {
        assert(b.surf.surfaces.has(k));
        assert(b.surf.surfaces.at(k).children == a.surf.surfaces.at(k).children);
        assert(b.surf.surfaces.at(k).parent == a.surf.surfaces.at(k).parent);
    }
}

/// Whether every child of a surface has it as its parent, and is its child
/// once.
pub open spec fn linked_both_ways(s: StateView) -> bool {
    forall|k: ClientObjectId|
        #[trigger] s.surf.surfaces.has(k) ==> s.surf.surfaces.at(k).children.no_duplicates() && forall|c: u32|
            #[trigger] s.surf.surfaces.at(k).children.contains(c) ==> s.parent_of(k.0, c) == Some(k.1)
}

proof fn lemma_linked_same(a: StateView, b: StateView)
    requires
        same_shape(a, b),
        linked_both_ways(a),
    ensures
        linked_both_ways(b),
{
    assert forall|k: ClientObjectId| #[trigger] b.surf.surfaces.has(k) implies b.surf.surfaces.at(
        k,
    ).children.no_duplicates() && forall|c: u32| #[trigger]
        b.surf.surfaces.at(k).children.contains(c) ==> b.parent_of(k.0, c) == Some(k.1) by {
        assert(a.surf.surfaces.has(k));
        assert(b.surf.surfaces.at(k).children == a.surf.surfaces.at(k).children);
        assert forall|c: u32| #[trigger] b.surf.surfaces.at(k).children.contains(c) implies b.parent_of(k.0, c) == Some(
            k.1,
        ) by {
            assert(a.surf.surfaces.at(k).children.contains(c));
            assert(a.parent_of(k.0, c) == Some(k.1));
            lemma_parent_same(a, b, k.0, c);
        }
    }
}

proof fn lemma_parent_same(a: StateView, b: StateView, client_id: u32, id: u32)
    requires
        same_tree(a, b),
    ensures
        a.parent_of(client_id, id) == b.parent_of(client_id, id),
{
    let k = (client_id, id);
    assert(b.surf.surfaces.has(k) <==> a.surf.surfaces.has(k));
    if a.surf.surfaces.has(k) {
        assert(b.surf.surfaces.at(k).parent == a.surf.surfaces.at(k).parent);
    }
}

proof fn lemma_up_same(a: StateView, b: StateView, client_id: u32, id: u32, n: nat)
    requires
        same_tree(a, b),
    ensures
        a.up(client_id, id, n) == b.up(client_id, id, n),
    decreases n,
{
    if n > 0 {
        lemma_up_same(a, b, client_id, id, (n - 1) as nat);
        if let Some(x) = a.up(client_id, id, (n - 1) as nat) {
            lemma_parent_same(a, b, client_id, x);
        }
    }
}

proof fn lemma_synced_children(s: StateView, key: ClientObjectId, x: ClientObjectId)
    requires
        linked_both_ways(s),
    ensures
        s.synced_children(key).no_duplicates(),
        s.synced_children(key).contains(x) ==> x.0 == key.0 && s.parent_of(x.0, x.1) == Some(key.1)
            && s.surf.surfaces.has(key),
{
    if s.surf.surfaces.has(key) {
        let children = s.surf.surfaces.at(key).children;
        let all = children.map_values(|c: u32| (key.0, c));
        let p = |c: ClientObjectId| s.effectively_synced(c);
        lemma_filter_facts(all, p);
        assert(all.no_duplicates()) by {
            assert forall|i: int, j: int| 0 <= i < j < all.len() implies all[i] != all[j] by {
                assert(children[i] != children[j]);
            }
        }
        if s.synced_children(key).contains(x) {
            assert(all.contains(x));
            let i = choose|i: int| 0 <= i < all.len() && all[i] == x;
            assert(children[i] == x.1);
            assert(children.contains(x.1));
        }
    }
}

proof fn lemma_apply_one_shape(s: StateView, key: ClientObjectId, p: SurfacePendingView, x: ClientObjectId)
    ensures
        same_shape(s, s.apply_one(key, p)),
        x != key && s.surf.surfaces.has(x) ==> s.apply_one(key, p).surf.surfaces.at(x) == s.surf.surfaces.at(x),
        s.surf.surfaces.has(key) ==> s.apply_one(key, p).surf.surfaces.at(key) == (SurfaceView {
            position: s.apply_one(key, p).surf.surfaces.at(key).position,
            ..s.surf.surfaces.at(key).committed(p)
        }),
{
}

proof fn lemma_uncache_shape(s: StateView, keys: Seq<ClientObjectId>, x: ClientObjectId)
    ensures
        same_shape(s, s.uncache_each(keys)),
        s.surf.surfaces.has(x) && !keys.contains(x) ==> s.uncache_each(keys).surf.surfaces.at(x)
            == s.surf.surfaces.at(x),
        s.surf.surfaces.has(x) && keys.contains(x) ==> s.uncache_each(keys).surf.surfaces.at(x) == (SurfaceView {
            cached: None,
            ..s.surf.surfaces.at(x)
        }),
    decreases keys.len(),
{
    if keys.len() > 0 {
        let before = s.uncache_each(keys.drop_last());
        lemma_uncache_shape(s, keys.drop_last(), x);
        let after = s.uncache_each(keys);
        assert(same_shape(before, after));
        lemma_shape_twice(s, before, after);
        assert(before.surf.surfaces.has(x) <==> s.surf.surfaces.has(x));
        if keys.contains(x) {
            let i = choose|i: int| 0 <= i < keys.len() && keys[i] == x;
            if i < keys.len() - 1 {
                assert(keys.drop_last()[i] == x);
            }
        }
        if keys.drop_last().contains(x) {
            let i = choose|i: int| 0 <= i < keys.len() - 1 && keys.drop_last()[i] == x;
            assert(keys[i] == x);
        }
        assert(keys[keys.len() - 1] == keys.last());
    }
}

proof fn lemma_caches(s: StateView, keys: Seq<ClientObjectId>, i: int)
    requires
        keys.no_duplicates(),
        0 <= i < keys.len(),
    ensures
        s.caches(keys).len() == keys.len(),
        s.caches(keys)[i] == (keys[i], s.cached_of(keys[i])),
    decreases keys.len(),
{
    lemma_caches_len(s, keys);
    lemma_caches_len(s, keys.drop_last());
    let last = keys.last();
    if i < keys.len() - 1 {
        assert(keys.drop_last().no_duplicates());
        lemma_caches(s, keys.drop_last(), i);
        assert(keys.drop_last()[i] == keys[i]);
    } else {
        lemma_uncache_shape(s, keys.drop_last(), last);
        if keys.drop_last().contains(last) {
            let j = choose|j: int| 0 <= j < keys.len() - 1 && keys.drop_last()[j] == last;
            assert(keys[j] == keys[keys.len() - 1]);
        }
        let before = s.uncache_each(keys.drop_last());
        assert(before.surf.surfaces.has(last) <==> s.surf.surfaces.has(last));
    }
}

proof fn lemma_caches_len(s: StateView, keys: Seq<ClientObjectId>)
    ensures
        s.caches(keys).len() == keys.len(),
        forall|i: int| 0 <= i < keys.len() ==> (#[trigger] s.caches(keys)[i]).0 == keys[i],
    decreases keys.len(),
{
    if keys.len() > 0 {
        lemma_caches_len(s, keys.drop_last());
    }
}

/// Whether every entry is some steps below a surface.
pub open spec fn all_below(
    s: StateView,
    root: ClientObjectId,
    entries: Seq<(ClientObjectId, SurfacePendingView)>,
    n: nat,
) -> bool {
    forall|i: int|
        0 <= i < entries.len() ==> (#[trigger] entries[i]).0.0 == root.0 && s.up(root.0, entries[i].0.1, n) == Some(
            root.1,
        )
}

/// Whether a surface is nowhere some steps or more below another.
pub open spec fn never_below(s: StateView, root: ClientObjectId, x: ClientObjectId, n: nat) -> bool {
    forall|m: nat| m >= n ==> x.0 != root.0 || #[trigger] s.up(root.0, x.1, m) != Some(root.1)
}

proof fn lemma_child_up(s: StateView, c: u32, child: u32, parent: u32, root: u32, n: nat)
    requires
        s.parent_of(c, child) == Some(parent),
        s.up(c, parent, n) == Some(root),
    ensures
        s.up(c, child, n + 1) == Some(root),
{
    assert(s.up(c, child, 0) == Some(child));
    assert(s.up(c, child, 1) == Some(parent));
    lemma_up_further(s, c, child, 1, n);
}

proof fn lemma_entry(s: StateView, e: (ClientObjectId, SurfacePendingView), x: ClientObjectId)
    requires
        linked_both_ways(s),
        x != e.0,
        s.parent_of(x.0, x.1) != Some(e.0.1) || x.0 != e.0.0,
    ensures
        same_shape(s, s.apply_entry(e)),
        s.surf.surfaces.has(x) ==> s.apply_entry(e).surf.surfaces.at(x) == s.surf.surfaces.at(x),
{
    let applied = s.apply_one(e.0, e.1);
    lemma_apply_one_shape(s, e.0, e.1, x);
    lemma_linked_same(s, applied);
    let children = applied.synced_children(e.0);
    lemma_synced_children(applied, e.0, x);
    lemma_parent_same(s, applied, x.0, x.1);
    lemma_uncache_shape(applied, children, x);
    lemma_shape_twice(s, applied, applied.uncache_each(children));
    assert(applied.surf.surfaces.has(x) <==> s.surf.surfaces.has(x));
}

proof fn lemma_entry_shape(s: StateView, e: (ClientObjectId, SurfacePendingView))
    ensures
        same_shape(s, s.apply_entry(e)),
{
    let applied = s.apply_one(e.0, e.1);
    lemma_apply_one_shape(s, e.0, e.1, e.0);
    lemma_uncache_shape(applied, applied.synced_children(e.0), e.0);
    lemma_shape_twice(s, applied, s.apply_entry(e));
}

proof fn lemma_entries_untouched(
    s: StateView,
    entries: Seq<(ClientObjectId, SurfacePendingView)>,
    root: ClientObjectId,
    n: nat,
    x: ClientObjectId,
)
    requires
        linked_both_ways(s),
        all_below(s, root, entries, n),
        never_below(s, root, x, n),
    ensures
        same_shape(s, s.apply_entries(entries)),
        all_below(s, root, s.entries_caches(entries), n + 1),
        s.surf.surfaces.has(x) ==> s.apply_entries(entries).surf.surfaces.at(x) == s.surf.surfaces.at(x),
    decreases entries.len(),
{
    if entries.len() > 0 {
        let before = s.apply_entries(entries.drop_last());
        assert(all_below(s, root, entries.drop_last(), n)) by {
            assert forall|i: int| 0 <= i < entries.len() - 1 implies (#[trigger] entries.drop_last()[i]).0.0 == root.0
                && s.up(root.0, entries.drop_last()[i].0.1, n) == Some(root.1) by {
                assert(entries[i] == entries.drop_last()[i]);
            }
        }
        lemma_entries_untouched(s, entries.drop_last(), root, n, x);
        let e = entries.last();
        assert(entries[entries.len() - 1] == e);
        lemma_linked_same(s, before);
        assert(x != e.0) by {
            assert(s.up(root.0, e.0.1, n) == Some(root.1));
        }
        if x.0 == e.0.0 && before.parent_of(x.0, x.1) == Some(e.0.1) {
            lemma_parent_same(s, before, x.0, x.1);
            lemma_child_up(s, root.0, x.1, e.0.1, root.1, n);
            assert(s.up(root.0, x.1, n + 1) != Some(root.1));
        }
        lemma_entry(before, e, x);
        lemma_shape_twice(s, before, before.apply_entry(e));
        assert(before.surf.surfaces.has(x) <==> s.surf.surfaces.has(x));
        let applied = before.apply_one(e.0, e.1);
        lemma_apply_one_shape(before, e.0, e.1, x);
        lemma_linked_same(before, applied);
        lemma_shape_twice(s, before, applied);
        let children = applied.synced_children(e.0);
        let more = applied.caches(children);
        lemma_caches_len(applied, children);
        let all = s.entries_caches(entries);
        let earlier = s.entries_caches(entries.drop_last());
        assert(all == earlier + more);
        assert forall|i: int| 0 <= i < all.len() implies (#[trigger] all[i]).0.0 == root.0 && s.up(
            root.0,
            all[i].0.1,
            n + 1,
        ) == Some(root.1) by {
            if i < earlier.len() {
                assert(all[i] == earlier[i]);
            } else {
                let c = children[i - earlier.len()];
                assert(more[i - earlier.len()].0 == c);
                assert(children.contains(c));
                lemma_synced_children(applied, e.0, c);
                lemma_parent_same(s, applied, c.0, c.1);
                lemma_child_up(s, root.0, c.1, e.0.1, root.1, n);
            }
        }
    }
}

proof fn lemma_levels_untouched(
    s: StateView,
    entries: Seq<(ClientObjectId, SurfacePendingView)>,
    root: ClientObjectId,
    n: nat,
    fuel: nat,
    x: ClientObjectId,
)
    requires
        linked_both_ways(s),
        all_below(s, root, entries, n),
        never_below(s, root, x, n),
        s.surf.surfaces.has(x),
    ensures
        s.apply_levels(entries, fuel).surf.surfaces.at(x) == s.surf.surfaces.at(x),
    decreases fuel,
{
    let next = s.entries_caches(entries);
    let applied = s.apply_entries(entries);
    lemma_entries_untouched(s, entries, root, n, x);
    if fuel > 0 && next.len() > 0 {
        lemma_linked_same(s, applied);
        assert(all_below(applied, root, next, n + 1)) by {
            assert forall|i: int| 0 <= i < next.len() implies (#[trigger] next[i]).0.0 == root.0 && applied.up(
                root.0,
                next[i].0.1,
                n + 1,
            ) == Some(root.1) by {
                lemma_up_same(s, applied, root.0, next[i].0.1, n + 1);
            }
        }
        assert(never_below(applied, root, x, n + 1)) by {
            assert forall|m: nat| m >= n + 1 implies x.0 != root.0 || #[trigger] applied.up(root.0, x.1, m) != Some(
                root.1,
            ) by {
                lemma_up_same(s, applied, root.0, x.1, m);
                assert(x.0 != root.0 || s.up(root.0, x.1, m) != Some(root.1));
            }
        }
        lemma_levels_untouched(applied, next, root, n + 1, (fuel - 1) as nat, x);
    }
}

proof fn lemma_siblings(
    s: StateView,
    entries: Seq<(ClientObjectId, SurfacePendingView)>,
    root: ClientObjectId,
    x: ClientObjectId,
    at: int,
)
    requires
        linked_both_ways(s),
        s.grounded(),
        all_below(s, root, entries, 1),
        0 <= at < entries.len(),
        entries[at].0 == x,
        forall|i: int| 0 <= i < entries.len() && i != at ==> (#[trigger] entries[i]).0 != x,
        s.surf.surfaces.has(x),
    ensures
        s.apply_entries(entries).surf.surfaces.at(x) == (SurfaceView {
            position: s.apply_entries(entries).surf.surfaces.at(x).position,
            ..s.surf.surfaces.at(x).committed(entries[at].1)
        }),
    decreases entries.len(),
{
    let e = entries.last();
    let rest = entries.drop_last();
    let before = s.apply_entries(rest);
    assert(entries[entries.len() - 1] == e);
    assert(all_below(s, root, rest, 1)) by {
        assert forall|i: int| 0 <= i < rest.len() implies (#[trigger] rest[i]).0.0 == root.0 && s.up(
            root.0,
            rest[i].0.1,
            1,
        ) == Some(root.1) by {
            assert(entries[i] == rest[i]);
        }
    }
    lemma_rest_shape(s, rest);
    lemma_linked_same(s, before);
    assert(s.up(root.0, x.1, 1) == Some(root.1)) by {
        assert(entries[at].0 == x);
    }
    assert(s.up(root.0, x.1, 0) == Some(x.1));
    assert(s.parent_of(root.0, x.1) == Some(root.1));
    if at == entries.len() - 1 {
        assert forall|i: int| 0 <= i < rest.len() implies (#[trigger] rest[i]).0 != x by {
            assert(entries[i] == rest[i]);
        }
        lemma_not_among(s, rest, root, x);
        let applied = before.apply_one(e.0, e.1);
        lemma_apply_one_shape(before, e.0, e.1, x);
        lemma_linked_same(before, applied);
        lemma_synced_children(applied, x, x);
        lemma_parent_same(s, before, x.0, x.1);
        lemma_parent_same(before, applied, x.0, x.1);
        assert(s.ends(root.0, x.1));
        let m = choose|m: nat| s.ends_within(root.0, x.1, m);
        lemma_no_return(s, root.0, x.1, m, 1);
        assert(!applied.synced_children(x).contains(x));
        lemma_uncache_shape(applied, applied.synced_children(x), x);
        assert(before.surf.surfaces.has(x));
        assert(applied.surf.surfaces.has(x));
    } else {
        assert forall|i: int| 0 <= i < rest.len() && i != at implies (#[trigger] rest[i]).0 != x by {
            assert(entries[i] == rest[i]);
        }
        assert(rest[at] == entries[at]);
        lemma_siblings(s, rest, root, x, at);
        assert(e.0 != x);
        lemma_sibling_is_no_parent(s, root, x, e.0);
        lemma_parent_same(s, before, x.0, x.1);
        lemma_entry(before, e, x);
        assert(before.surf.surfaces.has(x));
    }
}

proof fn lemma_sibling_is_no_parent(s: StateView, root: ClientObjectId, x: ClientObjectId, other: ClientObjectId)
    requires
        s.grounded(),
        x.0 == root.0,
        other.0 == root.0,
        s.parent_of(root.0, x.1) == Some(root.1),
        s.up(root.0, other.1, 1) == Some(root.1),
    ensures
        s.parent_of(x.0, x.1) != Some(other.1),
{
    if other.1 == root.1 {
        assert(s.ends(root.0, root.1));
        let m = choose|m: nat| s.ends_within(root.0, root.1, m);
        lemma_no_return(s, root.0, root.1, m, 1);
    }
}

proof fn lemma_rest_shape(s: StateView, entries: Seq<(ClientObjectId, SurfacePendingView)>)
    ensures
        same_shape(s, s.apply_entries(entries)),
    decreases entries.len(),
{
    if entries.len() > 0 {
        let before = s.apply_entries(entries.drop_last());
        lemma_rest_shape(s, entries.drop_last());
        lemma_entry_shape(before, entries.last());
        lemma_shape_twice(s, before, before.apply_entry(entries.last()));
    }
}

proof fn lemma_not_among(
    s: StateView,
    entries: Seq<(ClientObjectId, SurfacePendingView)>,
    root: ClientObjectId,
    x: ClientObjectId,
)
    requires
        linked_both_ways(s),
        s.grounded(),
        all_below(s, root, entries, 1),
        forall|i: int| 0 <= i < entries.len() ==> (#[trigger] entries[i]).0 != x,
        x.0 == root.0,
        s.parent_of(root.0, x.1) == Some(root.1),
        s.surf.surfaces.has(x),
    ensures
        s.apply_entries(entries).surf.surfaces.at(x) == s.surf.surfaces.at(x),
    decreases entries.len(),
{
    if entries.len() > 0 {
        let rest = entries.drop_last();
        let e = entries.last();
        let before = s.apply_entries(rest);
        assert(entries[entries.len() - 1] == e);
        assert forall|i: int| 0 <= i < rest.len() implies (#[trigger] rest[i]).0 != x && rest[i].0.0 == root.0 && s.up(
            root.0,
            rest[i].0.1,
            1,
        ) == Some(root.1) by {
            assert(entries[i] == rest[i]);
        }
        lemma_not_among(s, rest, root, x);
        lemma_rest_shape(s, rest);
        lemma_linked_same(s, before);
        lemma_sibling_is_no_parent(s, root, x, e.0);
        lemma_parent_same(s, before, x.0, x.1);
        lemma_entry(before, e, x);
        assert(before.surf.surfaces.has(x));
    }
}

/// A state with a surface's commit applied and the caches beneath it taken.
pub open spec fn after_first(s: StateView, key: ClientObjectId, p: SurfacePendingView) -> StateView {
    let applied = s.apply_one(key, p);
    applied.uncache_each(applied.synced_children(key))
}

/// The caches beneath a surface that its commit takes.
pub open spec fn taken_caches(s: StateView, key: ClientObjectId, p: SurfacePendingView) -> Seq<
    (ClientObjectId, SurfacePendingView),
> {
    let applied = s.apply_one(key, p);
    applied.caches(applied.synced_children(key))
}

proof fn lemma_child_is_other(s: StateView, key: ClientObjectId, child: ClientObjectId)
    requires
        s.grounded(),
        linked_both_ways(s),
        s.synced_children(key).contains(child),
    ensures
        child != key,
        child.0 == key.0,
        s.parent_of(key.0, child.1) == Some(key.1),
{
    lemma_synced_children(s, key, child);
    if child == key {
        assert(s.ends(key.0, key.1));
        let m = choose|m: nat| s.ends_within(key.0, key.1, m);
        assert(s.up(key.0, key.1, 0) == Some(key.1));
        assert(s.up(key.0, key.1, 1) == Some(key.1));
        lemma_no_return(s, key.0, key.1, m, 1);
    }
}

proof fn lemma_first_shape(s: StateView, key: ClientObjectId, p: SurfacePendingView, child: ClientObjectId)
    requires
        s.grounded(),
        linked_both_ways(s),
        s.surf.surfaces.has(child),
        s.synced_children(key).contains(child),
    ensures
        same_shape(s, after_first(s, key, p)),
        linked_both_ways(after_first(s, key, p)),
        after_first(s, key, p).grounded(),
        after_first(s, key, p).surf.surfaces.has(child),
        after_first(s, key, p).surf.surfaces.at(child) == (SurfaceView { cached: None, ..s.surf.surfaces.at(child) }),
        s.apply_one(key, p).synced_children(key) == s.synced_children(key),
        s.apply_one(key, p).cached_of(child) == s.cached_of(child),
        linked_both_ways(s.apply_one(key, p)),
        same_shape(s.apply_one(key, p), after_first(s, key, p)),
{
    let applied = s.apply_one(key, p);
    lemma_child_is_other(s, key, child);
    lemma_apply_one_shape(s, key, p, child);
    lemma_linked_same(s, applied);
    lemma_synced_same(s, applied, key);
    let children = applied.synced_children(key);
    let taken = after_first(s, key, p);
    lemma_uncache_shape(applied, children, child);
    lemma_shape_twice(s, applied, taken);
    lemma_linked_same(s, taken);
    lemma_same_grounded_shape(s, taken);
    assert(applied.surf.surfaces.has(child) <==> s.surf.surfaces.has(child));
    assert(taken.surf.surfaces.has(child) <==> s.surf.surfaces.has(child));
}

proof fn lemma_first_caches(s: StateView, key: ClientObjectId, p: SurfacePendingView, child: ClientObjectId) -> (at: int)
    requires
        s.grounded(),
        linked_both_ways(s),
        s.surf.surfaces.has(child),
        s.synced_children(key).contains(child),
    ensures
        0 <= at < taken_caches(s, key, p).len(),
        taken_caches(s, key, p)[at] == (child, s.cached_of(child)),
        forall|i: int|
            0 <= i < taken_caches(s, key, p).len() && i != at ==> (#[trigger] taken_caches(s, key, p)[i]).0 != child,
        all_below(after_first(s, key, p), key, taken_caches(s, key, p), 1),
{
    let applied = s.apply_one(key, p);
    let children = applied.synced_children(key);
    let taken = after_first(s, key, p);
    let next = taken_caches(s, key, p);
    lemma_first_shape(s, key, p, child);
    lemma_synced_children(applied, key, child);
    let at = choose|i: int| 0 <= i < children.len() && children[i] == child;
    lemma_caches(applied, children, at);
    lemma_caches_len(applied, children);
    assert forall|i: int| 0 <= i < next.len() && i != at implies (#[trigger] next[i]).0 != child by {
        assert(children[i] != children[at]);
    }
    assert forall|i: int| 0 <= i < next.len() implies (#[trigger] next[i]).0.0 == key.0 && taken.up(
        key.0,
        next[i].0.1,
        1,
    ) == Some(key.1) by {
        let c = children[i];
        assert(children.contains(c));
        lemma_synced_children(applied, key, c);
        lemma_parent_same(applied, taken, c.0, c.1);
        assert(taken.up(key.0, c.1, 0) == Some(c.1));
    }
    at
}

proof fn lemma_never_again(s: StateView, key: ClientObjectId, child: ClientObjectId)
    requires
        s.grounded(),
        child.0 == key.0,
        s.parent_of(key.0, child.1) == Some(key.1),
    ensures
        never_below(s, key, child, 2),
{
    assert forall|m: nat| m >= 2 implies child.0 != key.0 || #[trigger] s.up(key.0, child.1, m) != Some(key.1) by {
        assert(s.up(key.0, child.1, 0) == Some(child.1));
        assert(s.up(key.0, child.1, 1) == Some(key.1));
        lemma_up_further(s, key.0, child.1, 1, (m - 1) as nat);
        assert(s.ends(key.0, key.1));
        let e = choose|e: nat| s.ends_within(key.0, key.1, e);
        lemma_no_return(s, key.0, key.1, e, (m - 1) as nat);
    }
}

proof fn lemma_second_level(
    s: StateView,
    next: Seq<(ClientObjectId, SurfacePendingView)>,
    key: ClientObjectId,
    child: ClientObjectId,
    at: int,
    fuel: nat,
)
    requires
        s.grounded(),
        linked_both_ways(s),
        s.surf.surfaces.has(child),
        child.0 == key.0,
        s.parent_of(key.0, child.1) == Some(key.1),
        all_below(s, key, next, 1),
        0 <= at < next.len(),
        next[at].0 == child,
        forall|i: int| 0 <= i < next.len() && i != at ==> (#[trigger] next[i]).0 != child,
    ensures
        ({
            let after = s.apply_levels(next, fuel).surf.surfaces.at(child);
            after == (SurfaceView { position: after.position, ..s.surf.surfaces.at(child).committed(next[at].1) })
        }),
{
    lemma_siblings(s, next, key, child, at);
    let shown = s.apply_entries(next);
    let further = s.entries_caches(next);
    if fuel > 0 && further.len() > 0 {
        lemma_rest_shape(s, next);
        lemma_linked_same(s, shown);
        lemma_same_grounded_shape(s, shown);
        lemma_far(s, next, key);
        assert(all_below(shown, key, further, 2)) by {
            assert forall|i: int| 0 <= i < further.len() implies (#[trigger] further[i]).0.0 == key.0 && shown.up(
                key.0,
                further[i].0.1,
                2,
            ) == Some(key.1) by {
                lemma_up_same(s, shown, key.0, further[i].0.1, 2);
            }
        }
        lemma_parent_same(s, shown, child.0, child.1);
        lemma_never_again(shown, key, child);
        assert(shown.surf.surfaces.has(child) <==> s.surf.surfaces.has(child));
        lemma_levels_untouched(shown, further, key, 2, (fuel - 1) as nat, child);
    }
}

proof fn lemma_first_level(s: StateView, key: ClientObjectId, p: SurfacePendingView, fuel: nat)
    requires
        fuel > 0,
        taken_caches(s, key, p).len() > 0,
    ensures
        s.apply_levels(seq![(key, p)], fuel) == after_first(s, key, p).apply_levels(
            taken_caches(s, key, p),
            (fuel - 1) as nat,
        ),
{
    let entries = seq![(key, p)];
    let none = Seq::<(ClientObjectId, SurfacePendingView)>::empty();
    assert(entries.drop_last() =~= none);
    assert(s.apply_entries(none) == s);
    assert(s.entries_caches(none) == none);
    assert(entries.last() == (key, p));
    assert(s.apply_entries(entries) == s.apply_entry((key, p)));
    assert(s.entries_caches(entries) == none + s.entry_caches((key, p)));
    assert(none + taken_caches(s, key, p) =~= taken_caches(s, key, p));
}

/// What a synchronised subsurface has cached is shown with its parent's commit:
/// once the parent's commit is applied, the subsurface is as committing its
/// cache makes it, and has nothing cached.
pub proof fn lemma_cache_is_shown_with_parent(s: StateView, key: ClientObjectId, p: SurfacePendingView, child: ClientObjectId)
    requires
        s.grounded(),
        linked_both_ways(s),
        s.surf.surfaces.ok(),
        s.surf.surfaces.has(child),
        s.synced_children(key).contains(child),
    ensures
        ({
            let after = s.apply_surface_state(key, p).surf.surfaces.at(child);
            let before = s.surf.surfaces.at(child);
            after == (SurfaceView {
                position: after.position,
                cached: None,
                ..before.committed(s.cached_of(child))
            })
        }),
{
    let fuel = s.surface_count();
    assert(s.surf.surfaces.order.contains(child));
    assert(fuel > 0);
    lemma_child_is_other(s, key, child);
    lemma_first_shape(s, key, p, child);
    let at = lemma_first_caches(s, key, p, child);
    let taken = after_first(s, key, p);
    lemma_parent_same(s, taken, child.0, child.1);
    lemma_second_level(taken, taken_caches(s, key, p), key, child, at, (fuel - 1) as nat);
    lemma_first_level(s, key, p, fuel);
}

proof fn lemma_far(s: StateView, entries: Seq<(ClientObjectId, SurfacePendingView)>, root: ClientObjectId)
    requires
        linked_both_ways(s),
        all_below(s, root, entries, 1),
    ensures
        all_below(s, root, s.entries_caches(entries), 2),
    decreases entries.len(),
{
    if entries.len() > 0 {
        let rest = entries.drop_last();
        let e = entries.last();
        assert(entries[entries.len() - 1] == e);
        assert forall|i: int| 0 <= i < rest.len() implies (#[trigger] rest[i]).0.0 == root.0 && s.up(
            root.0,
            rest[i].0.1,
            1,
        ) == Some(root.1) by {
            assert(entries[i] == rest[i]);
        }
        lemma_far(s, rest, root);
        let before = s.apply_entries(rest);
        lemma_rest_shape(s, rest);
        let applied = before.apply_one(e.0, e.1);
        lemma_apply_one_shape(before, e.0, e.1, e.0);
        lemma_shape_twice(s, before, applied);
        lemma_linked_same(s, applied);
        let children = applied.synced_children(e.0);
        let more = applied.caches(children);
        lemma_caches_len(applied, children);
        let earlier = s.entries_caches(rest);
        let all = s.entries_caches(entries);
        assert(all == earlier + more);
        assert forall|i: int| 0 <= i < all.len() implies (#[trigger] all[i]).0.0 == root.0 && s.up(
            root.0,
            all[i].0.1,
            2,
        ) == Some(root.1) by {
            if i < earlier.len() {
                assert(all[i] == earlier[i]);
            } else {
                let c = children[i - earlier.len()];
                assert(more[i - earlier.len()].0 == c);
                assert(children.contains(c));
                lemma_synced_children(applied, e.0, c);
                lemma_parent_same(s, applied, c.0, c.1);
                lemma_child_up(s, root.0, c.1, e.0.1, root.1, 1);
            }
        }
    }
}

proof fn lemma_synced_same(a: StateView, b: StateView, key: ClientObjectId)
    requires
        same_shape(a, b),
    ensures
        a.synced_children(key) == b.synced_children(key),
{
    assert(b.surf.surfaces.has(key) <==> a.surf.surfaces.has(key));
    if a.surf.surfaces.has(key) {
        assert(b.surf.surfaces.at(key).children == a.surf.surfaces.at(key).children);
        let all = a.surf.surfaces.at(key).children.map_values(|c: u32| (key.0, c));
        let p = |c: ClientObjectId| a.effectively_synced(c);
        let q = |c: ClientObjectId| b.effectively_synced(c);
        assert forall|i: int| 0 <= i < all.len() implies p(#[trigger] all[i]) == q(all[i]) by {
            lemma_same_sync(a, b, all[i].0, all[i].1, a.surface_count());
        }
        lemma_filter_agree(all, p, q);
    }
}

proof fn lemma_same_grounded_shape(a: StateView, b: StateView)
    requires
        same_shape(a, b),
        a.grounded(),
    ensures
        b.grounded(),
{
    assert forall|c: u32, id: u32| #[trigger] b.parent_of(c, id) == a.parent_of(c, id) by {
        lemma_parent_same(a, b, c, id);
    }
    lemma_same_grounded(a, b);
}

} // verus!
