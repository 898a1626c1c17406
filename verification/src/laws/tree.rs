//! The tree of surfaces: it has no loops, and nothing that links surfaces makes
//! one.
use crate::protocol::ObjectType;
use crate::protocol::wire_utils::ClientMessage;
use crate::protocol::xdg_surface::PopupRequest;
use crate::protocol::zwlr_layer_surface::AdoptRequest;
use crate::state::compositor_state::StateView;
use crate::state::types::ClientObjectId;
use vstd::prelude::*;

verus! {

impl StateView {
    /// Whether a walk up from a surface ends within some steps.
    pub open spec fn ends_within(self, client_id: u32, id: u32, n: nat) -> bool
        decreases n,
    {
        match self.parent_of(client_id, id) {
            None => true,
            Some(p) => n > 0 && self.ends_within(client_id, p, (n - 1) as nat),
        }
    }

    /// Whether a walk up from a surface ends at all.
    pub open spec fn ends(self, client_id: u32, id: u32) -> bool {
        exists|n: nat| self.ends_within(client_id, id, n)
    }

    /// Whether a walk up from any surface ends: there is no loop.
    pub open spec fn grounded(self) -> bool {
        forall|client_id: u32, id: u32| #[trigger] self.ends(client_id, id)
    }

    /// The surface some steps up from another.
    pub open spec fn up(self, client_id: u32, id: u32, n: nat) -> Option<u32>
        decreases n,
    {
        if n == 0 {
            Some(id)
        } else {
            match self.up(client_id, id, (n - 1) as nat) {
                Some(x) => self.parent_of(client_id, x),
                None => None,
            }
        }
    }
}

/// Whether two states have the same surfaces under the same parents.
pub open spec fn same_parents(a: StateView, b: StateView) -> bool {
    forall|c: u32, id: u32| #[trigger] b.parent_of(c, id) == a.parent_of(c, id)
}

/// Whether two states differ in no parent but that of one surface, which has
/// one parent in the second or none.
pub open spec fn relinked(a: StateView, b: StateView, client_id: u32, id: u32, parent: u32) -> bool {
    &&& forall|c: u32, x: u32| (c, x) != (client_id, id) ==> #[trigger] b.parent_of(c, x) == a.parent_of(c, x)
    &&& b.parent_of(client_id, id) == Some(parent) || b.parent_of(client_id, id) is None
}

proof fn lemma_climb(a: StateView, b: StateView, client_id: u32, id: u32, parent: u32, from: u32, fuel: nat)
    requires
        relinked(a, b, client_id, id, parent),
        !a.reaches_within(client_id, id, from, fuel),
    ensures
        b.ends_within(client_id, from, fuel),
    decreases fuel,
{
    match a.parent_of(client_id, from) {
        None => {},
        Some(p) => {
            lemma_climb(a, b, client_id, id, parent, p, (fuel - 1) as nat);
        },
    }
}

proof fn lemma_walk(a: StateView, b: StateView, client_id: u32, id: u32, parent: u32, c: u32, x: u32, n: nat)
    requires
        relinked(a, b, client_id, id, parent),
        b.ends(client_id, id),
        a.ends_within(c, x, n),
    ensures
        b.ends(c, x),
    decreases n,
{
    if (c, x) != (client_id, id) {
        match a.parent_of(c, x) {
            None => {
                assert(b.ends_within(c, x, 0));
            },
            Some(p) => {
                lemma_walk(a, b, client_id, id, parent, c, p, (n - 1) as nat);
                let m = choose|m: nat| b.ends_within(c, p, m);
                assert(b.ends_within(c, x, m + 1));
            },
        }
    }
}

/// Linking a surface under a parent that is neither it nor below it makes no
/// loop.
pub proof fn lemma_link_grounded(a: StateView, b: StateView, client_id: u32, id: u32, parent: u32)
    requires
        a.grounded(),
        !a.ancestor(client_id, id, parent),
        relinked(a, b, client_id, id, parent),
    ensures
        b.grounded(),
{
    lemma_climb(a, b, client_id, id, parent, parent, a.surface_count());
    assert(b.ends_within(client_id, id, a.surface_count() + 1));
    assert forall|c: u32, x: u32| #[trigger] b.ends(c, x) by {
        assert(a.ends(c, x));
        let n = choose|n: nat| a.ends_within(c, x, n);
        lemma_walk(a, b, client_id, id, parent, c, x, n);
    }
}

/// Cutting a surface loose, or leaving every parent as it is, makes no loop.
pub proof fn lemma_unlink_grounded(a: StateView, b: StateView, client_id: u32, id: u32)
    requires
        a.grounded(),
        relinked(a, b, client_id, id, 0),
        b.parent_of(client_id, id) is None || b.parent_of(client_id, id) == a.parent_of(client_id, id),
    ensures
        b.grounded(),
{
    if b.parent_of(client_id, id) is None {
        assert(b.ends_within(client_id, id, 0));
        assert forall|c: u32, x: u32| #[trigger] b.ends(c, x) by {
            assert(a.ends(c, x));
            let n = choose|n: nat| a.ends_within(c, x, n);
            lemma_walk(a, b, client_id, id, 0, c, x, n);
        }
    } else {
        lemma_same_grounded(a, b);
    }
}

proof fn lemma_same_ends(a: StateView, b: StateView, c: u32, x: u32, n: nat)
    requires
        same_parents(a, b),
        a.ends_within(c, x, n),
    ensures
        b.ends_within(c, x, n),
    decreases n,
{
    assert(b.parent_of(c, x) == a.parent_of(c, x));
    if let Some(p) = a.parent_of(c, x) {
        lemma_same_ends(a, b, c, p, (n - 1) as nat);
    }
}

/// Whatever leaves every parent as it is makes no loop.
pub proof fn lemma_same_grounded(a: StateView, b: StateView)
    requires
        a.grounded(),
        same_parents(a, b),
    ensures
        b.grounded(),
{
    assert forall|c: u32, x: u32| #[trigger] b.ends(c, x) by {
        assert(a.ends(c, x));
        let n = choose|n: nat| a.ends_within(c, x, n);
        lemma_same_ends(a, b, c, x, n);
    }
}

/// A state with no surfaces has no loop.
pub proof fn lemma_fresh_grounded()
    ensures
        StateView::fresh().grounded(),
{
    let s = StateView::fresh();
    assert forall|c: u32, x: u32| #[trigger] s.ends(c, x) by {
        assert(s.ends_within(c, x, 0));
    }
}

proof fn lemma_push_child_parents(s: StateView, client_id: u32, parent_id: u32, child: u32)
    ensures
        same_parents(s, s.push_child(client_id, parent_id, child)),
{
}

/// Making a surface a subsurface makes no loop, whatever the client asks for.
pub proof fn lemma_get_subsurface_grounded(s: StateView, msg: ClientMessage)
    requires
        s.grounded(),
    ensures
        s.get_subsurface(msg).grounded(),
{
    let c = msg.client_id;
    let after = s.get_subsurface(msg);
    if s.surf == after.surf {
        lemma_same_grounded(s, after);
    } else {
        let id = msg.word(1)->0;
        let parent = msg.word(2)->0;
        let named = s.register_at(
            c,
            msg.word(0)->0,
            ObjectType::WlSubsurface,
            s.object_version((c, msg.object_id)),
        );
        assert(named.surf == s.surf);
        let made = named.make_subsurface(c, id, parent);
        lemma_push_child_parents(made, c, parent, id);
        assert(relinked(s, made, c, id, parent));
        assert(relinked(s, after, c, id, parent));
        lemma_link_grounded(s, after, c, id, parent);
    }
}

/// Making a popup makes no loop, whatever the client asks for.
pub proof fn lemma_get_popup_grounded(s: StateView, msg: ClientMessage, q: PopupRequest, at: (i32, i32, i32, i32))
    requires
        s.grounded(),
        s.popup_request(msg) == Some(q),
    ensures
        s.finish_popup(q, at).grounded(),
{
    let c = q.client_id;
    let after = s.finish_popup(q, at);
    let named = s.register_at(c, q.popup_id, ObjectType::XdgPopup, s.object_version((c, q.xdg_surface_id)));
    assert(named.surf == s.surf);
    match q.parented {
        None => {
            assert(after.surf == s.surf);
            lemma_same_grounded(s, after);
        },
        Some(l) => {
            if !s.may_register(c, q.popup_id) {
                lemma_same_grounded(s, after);
            } else {
                assert(relinked(s, after, c, l.0, l.1));
                lemma_link_grounded(s, after, c, l.0, l.1);
            }
        },
    }
}

/// Taking a popup in under a layer surface makes no loop, whatever the client
/// asks for.
pub proof fn lemma_adopt_popup_grounded(s: StateView, layer: ClientObjectId, popup_id: u32, q: AdoptRequest)
    requires
        s.grounded(),
        s.adoptable(layer, popup_id) == Some(q),
    ensures
        s.adopt_popup(q).grounded(),
{
    let after = s.adopt_popup(q);
    let c = q.client_id;
    let linked = s.set_parent((c, q.popup_wl), q.layer_wl);
    lemma_push_child_parents(linked, c, q.layer_wl, q.popup_wl);
    assert(relinked(s, linked, c, q.popup_wl, q.layer_wl));
    assert(relinked(s, after, c, q.popup_wl, q.layer_wl));
    lemma_link_grounded(s, after, c, q.popup_wl, q.layer_wl);
}

/// Making a surface makes no loop.
pub proof fn lemma_create_surface_grounded(s: StateView, client_id: u32, surface_id: u32)
    requires
        s.grounded(),
    ensures
        s.create_surface(client_id, surface_id).grounded(),
{
    lemma_unlink_grounded(s, s.create_surface(client_id, surface_id), client_id, surface_id);
}

proof fn lemma_up_step(s: StateView, c: u32, x: u32, n: nat, d: nat)
    requires
        s.ends_within(c, x, n),
        s.up(c, x, d) is Some,
    ensures
        d <= n,
        s.ends_within(c, s.up(c, x, d)->0, (n - d) as nat),
    decreases d,
{
    if d > 0 {
        lemma_up_step(s, c, x, n, (d - 1) as nat);
    }
}

pub proof fn lemma_no_return(s: StateView, c: u32, x: u32, n: nat, d: nat)
    requires
        s.ends_within(c, x, n),
        d > 0,
    ensures
        s.up(c, x, d) != Some(x),
    decreases n,
{
    if s.up(c, x, d) == Some(x) {
        lemma_up_step(s, c, x, n, d);
        lemma_no_return(s, c, x, (n - d) as nat, d);
    }
}

pub proof fn lemma_up_further(s: StateView, c: u32, x: u32, i: nat, d: nat)
    requires
        s.up(c, x, i) is Some,
    ensures
        s.up(c, s.up(c, x, i)->0, d) == s.up(c, x, i + d),
    decreases d,
{
    if d > 0 {
        lemma_up_further(s, c, x, i, (d - 1) as nat);
    }
}

proof fn lemma_up_while(s: StateView, c: u32, x: u32, n: nat, k: nat)
    requires
        !s.ends_within(c, x, n),
        k <= n + 1,
    ensures
        s.up(c, x, k) is Some,
        k <= n ==> !s.ends_within(c, s.up(c, x, k)->0, (n - k) as nat),
    decreases k,
{
    if k > 0 {
        lemma_up_while(s, c, x, n, (k - 1) as nat);
    }
}

/// Without a loop, every walk up ends within as many steps as there are
/// surfaces.
pub proof fn lemma_walks_are_short(s: StateView, client_id: u32, id: u32)
    requires
        s.grounded(),
        s.surf.surfaces.ok(),
    ensures
        s.ends_within(client_id, id, s.surface_count()),
{
    let n = s.surface_count();
    let order = s.surf.surfaces.order;
    if !s.ends_within(client_id, id, n) {
        let keys = Seq::new(n + 1, |k: int| (client_id, s.up(client_id, id, k as nat)->0));
        assert forall|k: int| 0 <= k < keys.len() implies order.contains(#[trigger] keys[k]) by {
            lemma_up_while(s, client_id, id, n, k as nat);
            lemma_up_while(s, client_id, id, n, (k + 1) as nat);
            assert(s.surf.surfaces.has(keys[k]));
        }
        assert forall|i: int, j: int| 0 <= i < j < keys.len() implies keys[i] != keys[j] by {
            lemma_up_while(s, client_id, id, n, i as nat);
            lemma_up_while(s, client_id, id, n, j as nat);
            if keys[i] == keys[j] {
                let x = s.up(client_id, id, i as nat)->0;
                lemma_up_further(s, client_id, id, i as nat, (j - i) as nat);
                assert(s.ends(client_id, x));
                let m = choose|m: nat| s.ends_within(client_id, x, m);
                lemma_no_return(s, client_id, x, m, (j - i) as nat);
            }
        }
        assert(keys.no_duplicates());
        keys.unique_seq_to_set();
        order.unique_seq_to_set();
        assert forall|k: ClientObjectId| keys.to_set().contains(k) implies order.to_set().contains(k) by {
            assert(keys.contains(k));
            let i = choose|i: int| 0 <= i < keys.len() && keys[i] == k;
            assert(order.contains(keys[i]));
        }
        vstd::set_lib::lemma_len_subset(keys.to_set(), order.to_set());
    }
}

proof fn lemma_root_within(s: StateView, client_id: u32, id: u32, fuel: nat)
    requires
        s.ends_within(client_id, id, fuel),
    ensures
        s.parent_of(client_id, s.root_within(client_id, id, fuel)) is None,
    decreases fuel,
{
    if let Some(p) = s.parent_of(client_id, id) {
        lemma_root_within(s, client_id, p, (fuel - 1) as nat);
    }
}

/// Without a loop, the root of a surface's tree has no parent.
pub proof fn lemma_root_has_no_parent(s: StateView, key: ClientObjectId)
    requires
        s.grounded(),
        s.surf.surfaces.ok(),
    ensures
        s.parent_of(s.root(key).0, s.root(key).1) is None,
{
    lemma_walks_are_short(s, key.0, key.1);
    lemma_root_within(s, key.0, key.1, s.surface_count());
}

} // verus!
