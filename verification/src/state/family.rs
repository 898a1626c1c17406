//! Windows and their dialogs.
use crate::state::compositor_state::{CompositorState, StateView};
use crate::state::types::{ClientObjectId, Hook, same_key, XdgToplevelState, XdgToplevelStateView};
use vstd::prelude::*;

verus! {

/// Whether a list holds an object.
pub fn holds(v: &Vec<ClientObjectId>, key: ClientObjectId) -> (r: bool)
    ensures
        r == v@.contains(key),
{
    let mut i: usize = 0;
    while i < v.len()
        invariant
            i <= v@.len(),
            forall|j: int| 0 <= j < i ==> v@[j] != key,
        decreases v@.len() - i,
    {
        if same_key(v[i], key) {
            return true;
        }
        i += 1;
    }
    false
}

/// The same list again.
pub fn copy_keys(v: &Vec<ClientObjectId>) -> (r: Vec<ClientObjectId>)
    ensures
        r@ == v@,
{
    let mut r: Vec<ClientObjectId> = Vec::new();
    let mut i: usize = 0;
    while i < v.len()
        invariant
            i <= v@.len(),
            r@ == v@.take(i as int),
        decreases v@.len() - i,
    {
        r.push(v[i]);
        i += 1;
        proof {
            assert(r@ =~= v@.take(i as int));
        }
    }
    proof {
        assert(v@.take(i as int) =~= v@);
    }
    r
}

impl StateView {
    /// The root of a toplevel's chain of parents.
    pub open spec fn family_root_within(self, toplevel: ClientObjectId, fuel: nat) -> ClientObjectId
        decreases fuel,
    {
        if fuel == 0 || !self.win.xdg_toplevels.has(toplevel) {
            toplevel
        } else {
            match self.win.xdg_toplevels.at(toplevel).parent {
                None => toplevel,
                Some(p) => if self.win.xdg_toplevels.has((toplevel.0, p)) {
                    self.family_root_within((toplevel.0, p), (fuel - 1) as nat)
                } else {
                    toplevel
                },
            }
        }
    }

    /// Whether a toplevel is one not yet found whose parent is one of a
    /// frontier.
    pub open spec fn newly_below(
        root: ClientObjectId,
        found: Seq<ClientObjectId>,
        frontier: Seq<ClientObjectId>,
    ) -> spec_fn(ClientObjectId, XdgToplevelStateView) -> bool {
        |k: ClientObjectId, t: XdgToplevelStateView|
            k.0 == root.0 && !found.contains(k) && k != root && match t.parent {
                Some(p) => frontier.contains((k.0, p)),
                None => false,
            }
    }

    /// The toplevels not yet found whose parent is one of a frontier.
    pub open spec fn next_generation(
        self,
        root: ClientObjectId,
        found: Seq<ClientObjectId>,
        frontier: Seq<ClientObjectId>,
    ) -> Seq<ClientObjectId> {
        self.win.xdg_toplevels.keys_where(Self::newly_below(root, found, frontier))
    }

    /// Toplevels below a frontier, one generation after another.
    pub open spec fn generations(
        self,
        root: ClientObjectId,
        found: Seq<ClientObjectId>,
        frontier: Seq<ClientObjectId>,
        fuel: nat,
    ) -> Seq<ClientObjectId>
        decreases fuel,
    {
        let next = self.next_generation(root, found, frontier);
        if fuel == 0 || next.len() == 0 {
            found
        } else {
            self.generations(root, found + next, next, (fuel - 1) as nat)
        }
    }

    /// Every toplevel below one in the parent chain, nearest first.
    pub open spec fn descendants_of(self, root: ClientObjectId) -> Seq<ClientObjectId> {
        self.generations(root, Seq::empty(), seq![root], self.win.xdg_toplevels.order.len())
    }

    /// A toplevel's whole family: the root of its parent chain first, then
    /// every descendant, nearest first.
    pub open spec fn toplevel_family(self, toplevel: ClientObjectId) -> Seq<ClientObjectId> {
        let root = self.family_root_within(toplevel, self.win.xdg_toplevels.order.len());
        seq![root] + self.descendants_of(root)
    }

    /// What raising some toplevels in turn asks of the shell.
    pub open spec fn raises(self, keys: Seq<ClientObjectId>) -> Seq<Hook>
        decreases keys.len(),
    {
        if keys.len() == 0 {
            Seq::empty()
        } else {
            let before = self.raises(keys.drop_last());
            match self.surface_of_toplevel(keys.last()) {
                Some(s) => before.push(Hook::Raise(s)),
                None => before,
            }
        }
    }

    /// With a window and its dialogs raised, the window first.
    pub open spec fn raise_with_children(self, toplevel: ClientObjectId) -> Self {
        StateView { hooks: self.hooks + self.raises(self.toplevel_family(toplevel)), dirty: true, ..self }
    }
}

impl CompositorState {
    /// Every toplevel below one in the parent chain, nearest first.
    ///
    /// Breadth-first, and bounded by the number of toplevels that exist:
    /// `set_parent` refuses a link that would close a loop, but this must not
    /// depend on that for its own termination.
    fn descendants_of(&self, root: ClientObjectId) -> (r: Vec<ClientObjectId>)
        ensures
            r@ == self@.descendants_of(root),
    {
        let mut found: Vec<ClientObjectId> = Vec::new();
        let mut frontier: Vec<ClientObjectId> = vec![root];
        let n: usize = self.win.xdg_toplevels.len();
        proof {
            assert(found@ =~= Seq::<ClientObjectId>::empty());
            assert(frontier@ =~= seq![root]);
        }
        let mut i: usize = 0;
        while i < n
            invariant
                i <= n,
                self@.descendants_of(root) == self@.generations(root, found@, frontier@, (n - i) as nat),
            decreases n - i,
        {
            let ghost seen = found@;
            let ghost edge = frontier@;
            let next = self.win.xdg_toplevels.keys_where(
                |k: &ClientObjectId, t: &XdgToplevelState| -> (r: bool)
                    ensures r == StateView::newly_below(root, found@, frontier@)(*k, t@)
                    {
                        k.0 == root.0 && !holds(&found, *k) && !same_key(*k, root) && match t.parent {
                            Some(p) => holds(&frontier, (k.0, p)),
                            None => false,
                        }
                    },
                Ghost(StateView::newly_below(root, seen, edge)),
            );
            if next.len() == 0 {
                return found;
            }
            let mut more = copy_keys(&next);
            found.append(&mut more);
            frontier = next;
            i += 1;
        }
        found
    }

    /// A toplevel's whole family - the root of its parent chain first, then
    /// every descendant, nearest first. This is the set a raise lifts
    /// together.
    pub fn toplevel_family(&self, toplevel: ClientObjectId) -> (r: Vec<ClientObjectId>)
        ensures
            r@ == self@.toplevel_family(toplevel),
    {
        let mut root: ClientObjectId = toplevel;
        let n: usize = self.win.xdg_toplevels.len();
        let mut i: usize = 0;
        let mut done = false;
        while i < n && !done
            invariant
                i <= n,
                n == self@.win.xdg_toplevels.order.len(),
                done ==> self@.family_root_within(toplevel, n as nat) == root,
                !done ==> self@.family_root_within(toplevel, n as nat) == self@.family_root_within(root, (n - i) as nat),
            decreases n - i + if done { 0int } else { 1int },
        {
            let parent = match self.win.xdg_toplevels.get(root) {
                Some(t) => t.parent,
                None => None,
            };
            match parent {
                None => {
                    done = true;
                },
                Some(p) => {
                    if self.win.xdg_toplevels.contains((root.0, p)) {
                        root = (root.0, p);
                        i += 1;
                    } else {
                        done = true;
                    }
                },
            }
        }
        let mut family: Vec<ClientObjectId> = vec![root];
        let mut below = self.descendants_of(root);
        family.append(&mut below);
        proof {
            assert(family@ =~= self@.toplevel_family(toplevel));
        }
        family
    }

    /// Raise a window, bringing its dialogs up with it.
    ///
    /// A child is kept above its parent, so raising either has to move both -
    /// otherwise clicking a window would bury the dialog that belongs to it.
    ///
    /// The parent goes up first and the children follow, deepest last, so a
    /// chain of dialogs keeps its own order.
    pub fn raise_with_children(&mut self, toplevel: ClientObjectId)
        ensures
            final(self)@ == old(self)@.raise_with_children(toplevel),
    {
        let family = self.toplevel_family(toplevel);
        let mut i: usize = 0;
        proof {
            assert(self@.hooks + self@.raises(family@.take(0)) =~= self@.hooks);
        }
        while i < family.len()
            invariant
                i <= family@.len(),
                self@ == (StateView { hooks: old(self)@.hooks + old(self)@.raises(family@.take(i as int)), ..old(self)@ }),
            decreases family@.len() - i,
        {
            let key = family[i];
            proof {
                assert(family@.take(i + 1).drop_last() =~= family@.take(i as int));
                assert(self@.surface_of_toplevel(key) == old(self)@.surface_of_toplevel(key));
            }
            if let Some(surface) = self.surface_of_toplevel(key) {
                self.hook(Hook::Raise(surface));
            }
            i += 1;
            proof {
                assert(self@.hooks =~= old(self)@.hooks + old(self)@.raises(family@.take(i as int)));
            }
        }
        proof {
            assert(family@.take(i as int) =~= family@);
        }
        self.dirty = true;
    }
}

} // verus!
