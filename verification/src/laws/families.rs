//! A window and its dialogs: they are raised together, each once, and a dialog
//! after the window it belongs to.
use crate::seqs::lemma_filter_facts;
use crate::state::compositor_state::StateView;
use crate::state::types::ClientObjectId;
use vstd::prelude::*;

verus! {

/// Whether some toplevel belongs to a parent.
pub open spec fn belongs_to(s: StateView, key: ClientObjectId, parent: ClientObjectId) -> bool {
    s.win.xdg_toplevels.has(key) && key.0 == parent.0 && s.win.xdg_toplevels.at(key).parent == Some(parent.1)
}

/// Whether a list of toplevels holds each once and not the root, and each of
/// them behind the one it belongs to, or belonging to the root.
pub open spec fn in_order(s: StateView, root: ClientObjectId, found: Seq<ClientObjectId>) -> bool {
    &&& found.no_duplicates()
    &&& !found.contains(root)
    &&& forall|i: int| 0 <= i < found.len() ==> s.win.xdg_toplevels.has(#[trigger] found[i])
    &&& forall|i: int|
        0 <= i < found.len() ==> belongs_to(s, #[trigger] found[i], root) || exists|j: int|
            0 <= j < i && belongs_to(s, found[i], #[trigger] found[j])
}

/// Whether every toplevel that belongs to one of a list, or to the root, is in
/// the list, but for those that belong to a frontier.
pub open spec fn closed_but(
    s: StateView,
    root: ClientObjectId,
    found: Seq<ClientObjectId>,
    frontier: Seq<ClientObjectId>,
) -> bool {
    forall|k: ClientObjectId, p: ClientObjectId|
        #[trigger] belongs_to(s, k, p) && (p == root || found.contains(p)) && !frontier.contains(p) && k != root
            ==> found.contains(k)
}

proof fn lemma_next_generation(
    s: StateView,
    root: ClientObjectId,
    found: Seq<ClientObjectId>,
    frontier: Seq<ClientObjectId>,
)
    requires
        s.win.xdg_toplevels.ok(),
    ensures
        s.next_generation(root, found, frontier).no_duplicates(),
        forall|k: ClientObjectId|
            #[trigger] s.next_generation(root, found, frontier).contains(k) <==> s.win.xdg_toplevels.has(k)
                && StateView::newly_below(root, found, frontier)(k, s.win.xdg_toplevels.at(k)),
{
    let d = s.win.xdg_toplevels;
    let p = StateView::newly_below(root, found, frontier);
    lemma_filter_facts(d.order, |k: ClientObjectId| p(k, d.map[k]));
    assert forall|k: ClientObjectId| #[trigger] s.next_generation(root, found, frontier).contains(k) <==> d.has(k) && p(
        k,
        d.at(k),
    ) by {
        assert(d.order.contains(k) <==> d.map.contains_key(k));
    }
}

proof fn lemma_joined(
    s: StateView,
    root: ClientObjectId,
    found: Seq<ClientObjectId>,
    frontier: Seq<ClientObjectId>,
)
    requires
        s.win.xdg_toplevels.ok(),
        in_order(s, root, found),
        closed_but(s, root, found, frontier),
        forall|p: ClientObjectId| #[trigger] frontier.contains(p) ==> p == root || found.contains(p),
        forall|p: ClientObjectId| #[trigger] frontier.contains(p) ==> p.0 == root.0,
    ensures
        ({
            let next = s.next_generation(root, found, frontier);
            &&& in_order(s, root, found + next)
            &&& closed_but(s, root, found + next, next)
            &&& forall|p: ClientObjectId| #[trigger] next.contains(p) ==> (found + next).contains(p) && p.0 == root.0
        }),
{
    let next = s.next_generation(root, found, frontier);
    let all = found + next;
    lemma_next_generation(s, root, found, frontier);
    assert forall|k: ClientObjectId| all.contains(k) <==> found.contains(k) || #[trigger] next.contains(k) by {
        if found.contains(k) {
            let i = choose|i: int| 0 <= i < found.len() && found[i] == k;
            assert(all[i] == k);
        }
        if next.contains(k) {
            let i = choose|i: int| 0 <= i < next.len() && next[i] == k;
            assert(all[found.len() + i] == k);
        }
        if all.contains(k) {
            let i = choose|i: int| 0 <= i < all.len() && all[i] == k;
            if i < found.len() {
                assert(found[i] == k);
            } else {
                assert(next[i - found.len()] == k);
            }
        }
    }
    assert(all.no_duplicates()) by {
        assert forall|i: int, j: int| 0 <= i < j < all.len() implies all[i] != all[j] by {
            if i < found.len() && j >= found.len() {
                assert(next.contains(next[j - found.len()]));
                assert(found.contains(found[i]));
            } else if j < found.len() {
                assert(found[i] != found[j]);
            } else {
                assert(next[i - found.len()] != next[j - found.len()]);
            }
        }
    }
    assert(!all.contains(root)) by {
        if all.contains(root) {
            assert(next.contains(root));
        }
    }
    assert forall|i: int| 0 <= i < all.len() implies s.win.xdg_toplevels.has(#[trigger] all[i]) by {
        if i >= found.len() {
            assert(next.contains(next[i - found.len()]));
        } else {
            assert(s.win.xdg_toplevels.has(found[i]));
        }
    }
    assert forall|i: int| 0 <= i < all.len() implies belongs_to(s, #[trigger] all[i], root) || exists|j: int|
        0 <= j < i && belongs_to(s, all[i], #[trigger] all[j]) by {
        if i < found.len() {
            if !belongs_to(s, found[i], root) {
                let j = choose|j: int| 0 <= j < i && belongs_to(s, found[i], #[trigger] found[j]);
                assert(all[j] == found[j]);
            }
        } else {
            let k = next[i - found.len()];
            assert(next.contains(k));
            let p = (k.0, s.win.xdg_toplevels.at(k).parent->0);
            assert(frontier.contains(p));
            assert(belongs_to(s, k, p));
            if p != root {
                assert(found.contains(p));
                let j = choose|j: int| 0 <= j < found.len() && found[j] == p;
                assert(all[j] == p);
            }
        }
    }
    assert forall|k: ClientObjectId, p: ClientObjectId|
        #[trigger] belongs_to(s, k, p) && (p == root || all.contains(p)) && !next.contains(p) && k
            != root implies all.contains(k) by {
        if p == root || found.contains(p) {
            if frontier.contains(p) {
                if !found.contains(k) {
                    assert(next.contains(k));
                }
            } else {
                assert(found.contains(k));
                assert(next.contains(k) || found.contains(k));
            }
            assert(next.contains(k) || found.contains(k));
        } else {
            assert(next.contains(p));
        }
    }
    assert forall|p: ClientObjectId| #[trigger] next.contains(p) implies all.contains(p) && p.0 == root.0 by {
    }
}

proof fn lemma_found_bounded(s: StateView, root: ClientObjectId, found: Seq<ClientObjectId>)
    requires
        s.win.xdg_toplevels.ok(),
        in_order(s, root, found),
    ensures
        found.len() <= s.win.xdg_toplevels.order.len(),
{
    let order = s.win.xdg_toplevels.order;
    found.unique_seq_to_set();
    order.unique_seq_to_set();
    assert forall|k: ClientObjectId| found.to_set().contains(k) implies order.to_set().contains(k) by {
        assert(found.contains(k));
        let i = choose|i: int| 0 <= i < found.len() && found[i] == k;
        assert(s.win.xdg_toplevels.has(found[i]));
        assert(order.contains(k));
    }
    vstd::set_lib::lemma_len_subset(found.to_set(), order.to_set());
}

proof fn lemma_generations(
    s: StateView,
    root: ClientObjectId,
    found: Seq<ClientObjectId>,
    frontier: Seq<ClientObjectId>,
    fuel: nat,
)
    requires
        s.win.xdg_toplevels.ok(),
        in_order(s, root, found),
        closed_but(s, root, found, frontier),
        forall|p: ClientObjectId| #[trigger] frontier.contains(p) ==> p == root || found.contains(p),
        forall|p: ClientObjectId| #[trigger] frontier.contains(p) ==> p.0 == root.0,
        found.len() + fuel >= s.win.xdg_toplevels.order.len(),
    ensures
        ({
            let all = s.generations(root, found, frontier, fuel);
            in_order(s, root, all) && closed_but(s, root, all, Seq::empty())
        }),
    decreases fuel,
{
    let next = s.next_generation(root, found, frontier);
    lemma_joined(s, root, found, frontier);
    lemma_next_generation(s, root, found, frontier);
    if next.len() > 0 {
        lemma_found_bounded(s, root, found + next);
    }
    if fuel == 0 || next.len() == 0 {
        assert(next.len() == 0);
        assert(found + next =~= found);
        assert forall|k: ClientObjectId, p: ClientObjectId|
            #[trigger] belongs_to(s, k, p) && (p == root || found.contains(p)) && !Seq::<ClientObjectId>::empty().contains(
                p,
            ) && k != root implies found.contains(k) by {
            assert(!next.contains(p));
        }
    } else {
        lemma_generations(s, root, found + next, next, (fuel - 1) as nat);
    }
}

/// A window's dialogs, and theirs, are raised with it: each once, and each
/// after the window it belongs to, so that none is buried by a click on that
/// window.
pub proof fn lemma_family_is_raised_in_order(s: StateView, toplevel: ClientObjectId)
    requires
        s.win.xdg_toplevels.ok(),
    ensures
        ({
            let family = s.toplevel_family(toplevel);
            let root = family[0];
            &&& family.len() > 0
            &&& family.no_duplicates()
            &&& family.contains(toplevel)
            &&& forall|i: int|
                1 <= i < family.len() ==> exists|j: int|
                    0 <= j < i && belongs_to(s, #[trigger] family[i], #[trigger] family[j])
            &&& forall|k: ClientObjectId, p: ClientObjectId|
                #[trigger] belongs_to(s, k, p) && family.contains(p) ==> family.contains(k)
        }),
{
    let root = s.family_root_within(toplevel, s.win.xdg_toplevels.order.len());
    let below = s.descendants_of(root);
    let family = s.toplevel_family(toplevel);
    let none = Seq::<ClientObjectId>::empty();
    assert(seq![root][0] == root);
    assert forall|p: ClientObjectId| #[trigger] seq![root].contains(p) implies p == root by {
    }
    assert(closed_but(s, root, none, seq![root])) by {
        assert(seq![root].contains(root)) by {
            assert(seq![root][0] == root);
        }
    }
    lemma_generations(s, root, none, seq![root], s.win.xdg_toplevels.order.len());
    assert(family[0] == root);
    assert(family.no_duplicates()) by {
        assert forall|i: int, j: int| 0 <= i < j < family.len() implies family[i] != family[j] by {
            if i == 0 {
                assert(below.contains(below[j - 1]));
            } else {
                assert(below[i - 1] != below[j - 1]);
            }
        }
    }
    assert forall|i: int| 1 <= i < family.len() implies exists|j: int|
        0 <= j < i && belongs_to(s, #[trigger] family[i], #[trigger] family[j]) by {
        assert(family[i] == below[i - 1]);
        if belongs_to(s, below[i - 1], root) {
            assert(belongs_to(s, family[i], family[0]));
        } else {
            let j = choose|j: int| 0 <= j < i - 1 && belongs_to(s, below[i - 1], #[trigger] below[j]);
            assert(belongs_to(s, family[i], family[j + 1]));
        }
    }
    assert forall|k: ClientObjectId, p: ClientObjectId| #[trigger] belongs_to(s, k, p) && family.contains(
        p,
    ) implies family.contains(k) by {
        let i = choose|i: int| 0 <= i < family.len() && family[i] == p;
        if i > 0 {
            assert(below[i - 1] == p);
            assert(below.contains(p));
        }
        if k != root {
            assert(!none.contains(p));
            assert(below.contains(k));
            let j = choose|j: int| 0 <= j < below.len() && below[j] == k;
            assert(family[j + 1] == k);
        } else {
            assert(family.contains(family[0]));
        }
    }
    assert(family.contains(family[0]));
    lemma_reaches_root(s, toplevel, s.win.xdg_toplevels.order.len(), family);
}

proof fn lemma_reaches_root(s: StateView, toplevel: ClientObjectId, fuel: nat, family: Seq<ClientObjectId>)
    requires
        family.contains(s.family_root_within(toplevel, fuel)),
        forall|k: ClientObjectId, p: ClientObjectId|
            #[trigger] belongs_to(s, k, p) && family.contains(p) ==> family.contains(k),
    ensures
        family.contains(toplevel),
    decreases fuel,
{
    if fuel > 0 && s.win.xdg_toplevels.has(toplevel) {
        if let Some(p) = s.win.xdg_toplevels.at(toplevel).parent {
            if s.win.xdg_toplevels.has((toplevel.0, p)) {
                lemma_reaches_root(s, (toplevel.0, p), (fuel - 1) as nat, family);
                assert(belongs_to(s, toplevel, (toplevel.0, p)));
            }
        }
    }
}

} // verus!
