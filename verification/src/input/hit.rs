//! Hit testing: what is under a point.
use crate::layer::{geometry, keys_in_band};
use crate::shell::Shell;
use crate::state::compositor_state::{CompositorState, StateView};
use crate::state::surfaces::{move_by, moved};
use crate::state::types::{ClientObjectId, in_region, minus, plus, region_contains, to_i32};
use vstd::prelude::*;

verus! {

/// What a hit test found under a point.
#[derive(Debug, Clone, Copy, PartialEq, Eq)]
pub struct HitResult {
    /// The toplevel surface key - the thing stacking and keyboard focus act on.
    pub toplevel: ClientObjectId,
    /// The specific surface under the pointer (possibly a subsurface) - the
    /// thing pointer events are delivered to.
    pub surface: ClientObjectId,
    /// Global x position of the specific surface, for computing local coordinates.
    pub surface_x: i32,
    /// Global y position of the specific surface, for computing local coordinates.
    pub surface_y: i32,
}

impl StateView {
    /// The layer surfaces of a band on the first few outputs, topmost first
    /// within each output.
    pub open spec fn band_top_down(self, above_windows: bool, n: nat) -> Seq<ClientObjectId>
        decreases n,
    {
        if n == 0 || n > self.out.outputs.len() {
            Seq::empty()
        } else {
            self.band_top_down(above_windows, (n - 1) as nat) + self.keys_in_band(
                self.out.outputs[n - 1].id,
                above_windows,
            ).reverse()
        }
    }

    /// The windows on the first few outputs, bottom to top within each output.
    pub open spec fn stacks<S: Shell>(self, shell: S, n: nat) -> Seq<ClientObjectId>
        decreases n,
    {
        if n == 0 || n > self.out.outputs.len() {
            Seq::empty()
        } else {
            self.stacks(shell, (n - 1) as nat) + shell.stack_on(self.out.outputs[n - 1].id)
        }
    }

    /// Everything on screen that the compositor places, topmost first: the
    /// layers over the windows, the windows, and the layers under them.
    pub open spec fn top_down<S: Shell>(self, shell: S) -> Seq<ClientObjectId> {
        self.band_top_down(true, self.out.outputs.len()) + self.stacks(shell, self.out.outputs.len()).reverse()
            + self.band_top_down(false, self.out.outputs.len())
    }

    /// Where a surface the compositor places sits: a layer surface where its
    /// anchor and the room left over put it, a toplevel where it is.
    pub open spec fn placed_position(self, key: ClientObjectId) -> (i32, i32) {
        let own = if self.surf.surfaces.has(key) {
            self.surf.surfaces.at(key).position
        } else {
            (0, 0)
        };
        match self.layer_surface_of(key) {
            Some(k) => match self.layer_geometry(k) {
                Some(g) => (g.x, g.y),
                None => own,
            },
            None => own,
        }
    }

    /// Whether a surface at a place takes input at a point: the point is within
    /// its size and its input region.
    pub open spec fn takes_input(self, key: ClientObjectId, at: (i32, i32), p: (i32, i32)) -> bool {
        let size = self.surface_size(key);
        &&& size.0 != 0
        &&& size.1 != 0
        &&& at.0 <= p.0 < to_i32(at.0 + size.0)
        &&& at.1 <= p.1 < to_i32(at.1 + size.1)
        &&& match self.surf.surfaces.at(key).input_region {
            Some(r) => in_region(r, to_i32(p.0 - at.0), to_i32(p.1 - at.1)),
            None => true,
        }
    }

    /// The surface of a tree under a point and where it sits: a child before
    /// its parent, and the topmost child first.
    pub open spec fn hit_tree(self, key: ClientObjectId, at: (i32, i32), p: (i32, i32), fuel: nat) -> Option<
        (ClientObjectId, (i32, i32)),
    >
        decreases fuel, 1nat, 0nat,
    {
        if !self.surf.surfaces.has(key) {
            None
        } else {
            let s = self.surf.surfaces.at(key);
            match self.hit_children(s.client_id, s.children, at, p, fuel) {
                Some(r) => Some(r),
                None => if self.takes_input(key, at, p) {
                    Some((key, at))
                } else {
                    None
                },
            }
        }
    }

    /// The surface of some children's trees under a point, the last child
    /// first.
    pub open spec fn hit_children(
        self,
        client_id: u32,
        children: Seq<u32>,
        at: (i32, i32),
        p: (i32, i32),
        fuel: nat,
    ) -> Option<(ClientObjectId, (i32, i32))>
        decreases fuel, 0nat, children.len(),
    {
        if children.len() == 0 || fuel == 0 {
            None
        } else {
            let key = (client_id, children.last());
            let found = if self.surf.surfaces.has(key) {
                self.hit_tree(
                    key,
                    moved(at, self.surf.surfaces.at(key).subsurface_position),
                    p,
                    (fuel - 1) as nat,
                )
            } else {
                None
            };
            match found {
                Some(r) => Some(r),
                None => self.hit_children(client_id, children.drop_last(), at, p, fuel),
            }
        }
    }

    /// Whether a surface may be hit at all: it is there, and if it is a layer
    /// surface it has agreed a size.
    pub open spec fn hittable(self, key: ClientObjectId) -> bool {
        self.surf.surfaces.has(key) && match self.layer_surface_of(key) {
            Some(k) => self.layers.layer_surfaces.has(k) && self.layers.layer_surfaces.at(k).configured,
            None => true,
        }
    }

    /// What one tree has under a point.
    pub open spec fn hit_one(self, key: ClientObjectId, p: (i32, i32)) -> Option<HitResult> {
        if !self.hittable(key) {
            None
        } else {
            match self.hit_tree(key, self.placed_position(key), p, self.surface_count()) {
                Some((surface, at)) => Some(
                    HitResult { toplevel: key, surface, surface_x: at.0, surface_y: at.1 },
                ),
                None => None,
            }
        }
    }

    /// What the first of the first few trees has under a point.
    pub open spec fn hit_first(self, keys: Seq<ClientObjectId>, p: (i32, i32)) -> Option<HitResult>
        decreases keys.len(),
    {
        if keys.len() == 0 {
            None
        } else {
            match self.hit_first(keys.drop_last(), p) {
                Some(r) => Some(r),
                None => self.hit_one(keys.last(), p),
            }
        }
    }

    /// What is under a point.
    pub open spec fn hit_test<S: Shell>(self, shell: S, p: (i32, i32)) -> Option<HitResult> {
        self.hit_first(self.top_down(shell), p)
    }

    /// Whether a surface is part of a window the user can currently see.
    pub open spec fn visible<S: Shell>(self, shell: S, key: ClientObjectId) -> bool {
        shell.shown(self.root(key))
    }
}

/// Whether a surface is part of a window the user can currently see.
///
/// Popups and subsurfaces have no standing of their own, so the question is
/// really about the toplevel they hang off.
pub fn is_visible<S: Shell>(state: &CompositorState, shell: &S, key: ClientObjectId) -> (r: bool)
    ensures
        r == state@.visible(*shell, key),
{
    shell.is_visible(state.root_of(key))
}

fn reversed(v: &Vec<ClientObjectId>) -> (r: Vec<ClientObjectId>)
    ensures
        r@ == v@.reverse(),
{
    let mut r: Vec<ClientObjectId> = Vec::new();
    let n: usize = v.len();
    let mut i: usize = 0;
    while i < n
        invariant
            i <= n,
            n == v@.len(),
            r@ == v@.reverse().take(i as int),
        decreases n - i,
    {
        r.push(v[n - 1 - i]);
        i += 1;
        proof {
            assert(r@ =~= v@.reverse().take(i as int));
        }
    }
    proof {
        assert(v@.reverse().take(i as int) =~= v@.reverse());
    }
    r
}

fn band_top_down(state: &CompositorState, above_windows: bool) -> (r: Vec<ClientObjectId>)
    ensures
        r@ == state@.band_top_down(above_windows, state@.out.outputs.len()),
{
    let mut r: Vec<ClientObjectId> = Vec::new();
    let mut i: usize = 0;
    proof {
        assert(r@ =~= state@.band_top_down(above_windows, 0));
    }
    while i < state.out.outputs.len()
        invariant
            i <= state.out.outputs@.len(),
            r@ == state@.band_top_down(above_windows, i as nat),
        decreases state.out.outputs@.len() - i,
    {
        proof {
            assert(state@.out.outputs[i as int] == state.out.outputs@[i as int]@);
        }
        let band = keys_in_band(state, state.out.outputs[i].id, above_windows);
        let mut more = reversed(&band);
        r.append(&mut more);
        i += 1;
    }
    r
}

fn stacks<S: Shell>(state: &CompositorState, shell: &S) -> (r: Vec<ClientObjectId>)
    ensures
        r@ == state@.stacks(*shell, state@.out.outputs.len()),
{
    let mut r: Vec<ClientObjectId> = Vec::new();
    let mut i: usize = 0;
    proof {
        assert(r@ =~= state@.stacks(*shell, 0));
    }
    while i < state.out.outputs.len()
        invariant
            i <= state.out.outputs@.len(),
            r@ == state@.stacks(*shell, i as nat),
        decreases state.out.outputs@.len() - i,
    {
        proof {
            assert(state@.out.outputs[i as int] == state.out.outputs@[i as int]@);
        }
        let mut more = shell.visible_stack(state.out.outputs[i].id);
        r.append(&mut more);
        i += 1;
    }
    r
}

/// Every window on screen, topmost first.
///
/// Only what is showing on each output contributes: a window that is not
/// displayed cannot be clicked.
fn visible_toplevels_top_down<S: Shell>(state: &CompositorState, shell: &S) -> (r: Vec<ClientObjectId>)
    ensures
        r@ == state@.top_down(*shell),
{
    let mut keys = band_top_down(state, true);
    let windows = stacks(state, shell);
    let mut windows = reversed(&windows);
    keys.append(&mut windows);
    let mut below = band_top_down(state, false);
    keys.append(&mut below);
    keys
}

/// Where a surface the compositor places sits, in global logical coordinates.
///
/// A toplevel carries its own position; a layer surface's is computed from its
/// anchor and the room left over. Hit testing needs one answer for both.
pub fn placed_position(state: &CompositorState, key: ClientObjectId) -> (r: (i32, i32))
    ensures
        r == state@.placed_position(key),
{
    if let Some(k) = state.layer_surface_of(key) {
        if let Some(g) = geometry(state, k) {
            return (g.x, g.y);
        }
    }
    match state.surf.surfaces.get(key) {
        Some(s) => s.position,
        None => (0, 0),
    }
}

fn takes_input(state: &CompositorState, key: ClientObjectId, at: (i32, i32), p: (i32, i32)) -> (r: bool)
    requires
        state@.surf.surfaces.has(key),
    ensures
        r == state@.takes_input(key, at, p),
{
    let (w, h) = state.surface_size(key);
    if w == 0 || h == 0 {
        return false;
    }
    if p.0 < at.0 || p.1 < at.1 || p.0 >= plus(at.0, w) || p.1 >= plus(at.1, h) {
        return false;
    }
    match state.surf.surfaces.get(key) {
        Some(s) => match &s.input_region {
            Some(r) => region_contains(r.as_slice(), minus(p.0, at.0), minus(p.1, at.1)),
            None => true,
        },
        None => true,
    }
}

/// Hit-test a surface and its children at the given offset. Returns the
/// specific surface key and its global offset if hit.
fn hit_test_surface_tree(
    state: &CompositorState,
    key: ClientObjectId,
    at: (i32, i32),
    p: (i32, i32),
    fuel: usize,
) -> (r: Option<(ClientObjectId, (i32, i32))>)
    ensures
        r == state@.hit_tree(key, at, p, fuel as nat),
    decreases fuel,
{
    let s = match state.surf.surfaces.get(key) {
        Some(s) => s,
        None => {
            return None;
        },
    };
    let mut n: usize = s.children.len();
    proof {
        assert(s.children@.take(n as int) =~= s.children@);
    }
    if fuel > 0 {
        while n > 0
            invariant
                n <= s.children@.len(),
                fuel > 0,
                state@.surf.surfaces.has(key),
                s@ == state@.surf.surfaces.at(key),
                state@.hit_children(s.client_id, s.children@, at, p, fuel as nat) == state@.hit_children(
                    s.client_id,
                    s.children@.take(n as int),
                    at,
                    p,
                    fuel as nat,
                ),
            decreases n,
        {
            n -= 1;
            let child = (s.client_id, s.children[n]);
            proof {
                assert(s.children@.take(n + 1).drop_last() =~= s.children@.take(n as int));
                assert(s.children@.take(n + 1).last() == s.children@[n as int]);
            }
            if let Some(c) = state.surf.surfaces.get(child) {
                let found = hit_test_surface_tree(state, child, move_by(at, c.subsurface_position), p, fuel - 1);
                if found.is_some() {
                    return found;
                }
            }
        }
        proof {
            assert(s.children@.take(0).len() == 0);
        }
    }
    if takes_input(state, key, at, p) {
        Some((key, at))
    } else {
        None
    }
}

fn hit_one(state: &CompositorState, key: ClientObjectId, p: (i32, i32)) -> (r: Option<HitResult>)
    ensures
        r == state@.hit_one(key, p),
{
    if !state.surf.surfaces.contains(key) {
        return None;
    }
    if let Some(k) = state.layer_surface_of(key) {
        let configured: bool = match state.layers.layer_surfaces.get(k) {
            Some(l) => l.configured,
            None => false,
        };
        if !configured {
            return None;
        }
    }
    let at = placed_position(state, key);
    match hit_test_surface_tree(state, key, at, p, state.surf.surfaces.len()) {
        Some((surface, at)) => Some(HitResult { toplevel: key, surface, surface_x: at.0, surface_y: at.1 }),
        None => None,
    }
}

/// Hit-test the visible windows from top to bottom. Returns the toplevel and
/// the specific surface (possibly a subsurface) at a point.
pub fn hit_test<S: Shell>(state: &CompositorState, shell: &S, x: i32, y: i32) -> (r: Option<HitResult>)
    ensures
        r == state@.hit_test(*shell, (x, y)),
{
    let keys = visible_toplevels_top_down(state, shell);
    let mut found: Option<HitResult> = None;
    let mut i: usize = 0;
    while i < keys.len()
        invariant
            i <= keys@.len(),
            found == state@.hit_first(keys@.take(i as int), (x, y)),
        decreases keys@.len() - i,
    {
        proof {
            assert(keys@.take(i + 1).drop_last() =~= keys@.take(i as int));
        }
        if found.is_none() {
            found = hit_one(state, keys[i], (x, y));
        }
        i += 1;
    }
    proof {
        assert(keys@.take(i as int) =~= keys@);
    }
    found
}

} // verus!
