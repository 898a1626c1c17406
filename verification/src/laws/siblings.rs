//! Siblings: what placing a subsurface above or below another does to the order.
use crate::protocol::wire_utils::ClientMessage;
use crate::seqs::lemma_remove_is_filter;
use crate::state::compositor_state::StateView;
use crate::table::set_without;
use vstd::prelude::*;

verus! {

/// Whether one list is another with nothing moved but one item.
pub open spec fn only_moved(before: Seq<u32>, after: Seq<u32>, id: u32) -> bool {
    &&& after.len() == before.len()
    &&& after.no_duplicates()
    &&& forall|x: u32| #[trigger] after.contains(x) <==> before.contains(x)
    &&& forall|x: u32, y: u32|
        x != id && y != id && before.contains(x) && before.contains(y) ==> (#[trigger] after.index_of(x)
            < #[trigger] after.index_of(y) <==> before.index_of(x) < before.index_of(y))
}

proof fn lemma_index<A>(s: Seq<A>, i: int)
    requires
        s.no_duplicates(),
        0 <= i < s.len(),
    ensures
        s.contains(s[i]),
        s.index_of(s[i]) == i,
{
    let j = s.index_of(s[i]);
    assert(s.contains(s[i]));
    assert(s[j] == s[i]);
}

/// Where an item of a list with one item taken out and put in again is found.
proof fn lemma_reinserted(before: Seq<u32>, id: u32, at: int)
    requires
        before.no_duplicates(),
        before.contains(id),
        0 <= at < before.len(),
    ensures
        only_moved(before, before.remove(before.index_of(id)).insert(at, id), id),
        before.remove(before.index_of(id)).insert(at, id).index_of(id) == at,
        set_without(before, id) == before.remove(before.index_of(id)),
{
    let k = before.index_of(id);
    let rest = before.remove(k);
    let after = rest.insert(at, id);
    lemma_remove_is_filter(before, k);
    assert(set_without(before, id) =~= rest);
    assert forall|i: int, j: int| 0 <= i < j < after.len() implies after[i] != after[j] by {
        let a = if i < at { i } else { i - 1 };
        let b = if j < at { j } else { j - 1 };
        let x = if a < k { a } else { a + 1 };
        let y = if b < k { b } else { b + 1 };
        if i == at {
            assert(before[y] != before[k]);
        } else if j == at {
            assert(before[x] != before[k]);
        } else {
            assert(before[x] != before[y]);
        }
    }
    lemma_index(after, at);
    assert forall|x: u32| #[trigger] after.contains(x) <==> before.contains(x) by {
        if before.contains(x) && x != id {
            let i = before.index_of(x);
            let a = if i < k { i } else { i - 1 };
            let b = if a < at { a } else { a + 1 };
            assert(after[b] == x);
        }
        if x == id {
            assert(after[at] == x);
        }
        if after.contains(x) {
            let b = after.index_of(x);
            if b != at {
                let a = if b < at { b } else { b - 1 };
                let i = if a < k { a } else { a + 1 };
                assert(before[i] == x);
            }
        }
    }
    assert forall|x: u32, y: u32| x != id && y != id && before.contains(x) && before.contains(y) implies (
    #[trigger] after.index_of(x) < #[trigger] after.index_of(y) <==> before.index_of(x) < before.index_of(y)) by {
        lemma_kept_place(before, id, at, x);
        lemma_kept_place(before, id, at, y);
    }
}

proof fn lemma_kept_place(before: Seq<u32>, id: u32, at: int, x: u32)
    requires
        before.no_duplicates(),
        before.contains(id),
        before.contains(x),
        x != id,
        0 <= at < before.len(),
        before.remove(before.index_of(id)).insert(at, id).no_duplicates(),
    ensures
        ({
            let k = before.index_of(id);
            let i = before.index_of(x);
            let a = if i < k { i } else { i - 1 };
            let b = if a < at { a } else { a + 1 };
            before.remove(k).insert(at, id).index_of(x) == b
        }),
{
    let k = before.index_of(id);
    let after = before.remove(k).insert(at, id);
    let i = before.index_of(x);
    let a = if i < k { i } else { i - 1 };
    let b = if a < at { a } else { a + 1 };
    assert(after[b] == x);
    lemma_index(after, b);
}

/// `place_above` puts a subsurface just over a sibling and `place_below` just
/// under it. No other sibling moves against another, and nothing else changes.
pub proof fn lemma_placed_beside_its_sibling(s: StateView, msg: ClientMessage, id: u32, parent: u32, sibling: u32)
    requires
        msg.op_code == 2 || msg.op_code == 3,
        msg.word(0) == Some(sibling),
        s.surf.subsurface_map.has((msg.client_id, msg.object_id)),
        s.surf.subsurface_map.at((msg.client_id, msg.object_id)) == id,
        s.surf.surfaces.has((msg.client_id, id)),
        s.surf.surfaces.at((msg.client_id, id)).parent == Some(parent),
        s.surf.surfaces.has((msg.client_id, parent)),
        s.surf.surfaces.at((msg.client_id, parent)).children.no_duplicates(),
        s.surf.surfaces.at((msg.client_id, parent)).children.contains(id),
        s.surf.surfaces.at((msg.client_id, parent)).children.contains(sibling),
        sibling != id,
    ensures
        ({
            let before = s.surf.surfaces.at((msg.client_id, parent)).children;
            let t = s.subsurface_request(msg);
            let after = t.surf.surfaces.at((msg.client_id, parent)).children;
            &&& only_moved(before, after, id)
            &&& msg.op_code == 2 ==> after.index_of(id) == after.index_of(sibling) + 1
            &&& msg.op_code == 3 ==> after.index_of(id) == after.index_of(sibling) - 1
            &&& t.dirty
            &&& t.clients == s.clients
            &&& forall|k: (u32, u32)|
                k != (msg.client_id, parent) ==> #[trigger] t.surf.surfaces.at(k) == s.surf.surfaces.at(k)
        }),
{
    let before = s.surf.surfaces.at((msg.client_id, parent)).children;
    let k = before.index_of(id);
    let rest = before.remove(k);
    lemma_reinserted(before, id, 0);
    let j = before.index_of(sibling);
    let i = if j < k { j } else { j - 1 };
    assert(rest[i] == sibling);
    assert forall|a: int, b: int| 0 <= a < b < rest.len() implies rest[a] != rest[b] by {
        assert(before[if a < k { a } else { a + 1 }] != before[if b < k { b } else { b + 1 }]);
    }
    rest.index_of_first_ensures(sibling);
    assert(rest.index_of_first(sibling) == Some(i)) by {
        assert(rest.contains(sibling));
        let f = rest.index_of_first(sibling)->0;
        assert(rest[f] == sibling);
    }
    let at = if msg.op_code == 2 { i + 1 } else { i };
    lemma_reinserted(before, id, at);
    let after = rest.insert(at, id);
    lemma_kept_place(before, id, at, sibling);
}

/// A subsurface placed against what is no sibling of it, its parent say, goes on
/// top of its siblings or under all of them.
pub proof fn lemma_placed_against_all(s: StateView, msg: ClientMessage, id: u32, parent: u32, other: u32)
    requires
        msg.op_code == 2 || msg.op_code == 3,
        msg.word(0) == Some(other),
        s.surf.subsurface_map.has((msg.client_id, msg.object_id)),
        s.surf.subsurface_map.at((msg.client_id, msg.object_id)) == id,
        s.surf.surfaces.has((msg.client_id, id)),
        s.surf.surfaces.at((msg.client_id, id)).parent == Some(parent),
        s.surf.surfaces.has((msg.client_id, parent)),
        s.surf.surfaces.at((msg.client_id, parent)).children.no_duplicates(),
        s.surf.surfaces.at((msg.client_id, parent)).children.contains(id),
        !s.surf.surfaces.at((msg.client_id, parent)).children.contains(other),
    ensures
        ({
            let before = s.surf.surfaces.at((msg.client_id, parent)).children;
            let after = s.subsurface_request(msg).surf.surfaces.at((msg.client_id, parent)).children;
            &&& only_moved(before, after, id)
            &&& msg.op_code == 2 ==> after.last() == id
            &&& msg.op_code == 3 ==> after.first() == id
        }),
{
    let before = s.surf.surfaces.at((msg.client_id, parent)).children;
    let k = before.index_of(id);
    let rest = before.remove(k);
    let at = if msg.op_code == 2 { before.len() - 1 } else { 0 };
    lemma_reinserted(before, id, at);
    rest.index_of_first_ensures(other);
    assert(!rest.contains(other)) by {
        if rest.contains(other) {
            let i = rest.index_of(other);
            assert(before[if i < k { i } else { i + 1 }] == other);
        }
    }
    assert(rest.push(id) =~= rest.insert(rest.len() as int, id));
}

} // verus!
