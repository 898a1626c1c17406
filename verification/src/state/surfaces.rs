//! Surfaces: the tree they make, and how their buffers map onto the screen.
use crate::seqs::lemma_filter_push;
use crate::state::compositor_state::{CompositorState, StateView, SurfacesView};
use crate::state::types::{
    BufferMapping, ClientObjectId, FixedRect64, plus, Region, RegionView, Surface, SurfaceView,
    to_i32, ViewportState,
};
use vstd::prelude::*;

verus! {

/// The sum of two positions, brought within range on both axes.
pub open spec fn moved(a: (i32, i32), b: (i32, i32)) -> (i32, i32) {
    (to_i32(a.0 + b.0), to_i32(a.1 + b.1))
}

/// The sum of two positions, brought within range on both axes.
pub fn move_by(a: (i32, i32), b: (i32, i32)) -> (r: (i32, i32))
    ensures
        r == moved(a, b),
{
    (plus(a.0, b.0), plus(a.1, b.1))
}

impl StateView {
    /// The parent of a surface, if the surface exists and has one.
    pub open spec fn parent_of(self, client_id: u32, id: u32) -> Option<u32> {
        if self.surf.surfaces.has((client_id, id)) {
            self.surf.surfaces.at((client_id, id)).parent
        } else {
            None
        }
    }

    /// How many surfaces there are, which bounds every walk up a tree of them.
    pub open spec fn surface_count(self) -> nat {
        self.surf.surfaces.order.len()
    }

    /// Whether a subsurface, or a subsurface above it with nothing but
    /// subsurfaces between, is synchronised.
    pub open spec fn synced_within(self, client_id: u32, id: u32, fuel: nat) -> bool
        decreases fuel,
    {
        let key = (client_id, id);
        if !self.surf.surfaces.has(key) || !self.surf.surfaces.at(key).is_subsurface {
            false
        } else if self.surf.surfaces.at(key).subsurface_sync {
            true
        } else {
            match self.surf.surfaces.at(key).parent {
                None => false,
                Some(p) => fuel > 0 && self.synced_within(client_id, p, (fuel - 1) as nat),
            }
        }
    }

    /// Whether a surface's commits are cached rather than applied.
    pub open spec fn effectively_synced(self, key: ClientObjectId) -> bool {
        self.synced_within(key.0, key.1, self.surface_count())
    }

    /// The direct children of a surface whose commits are cached.
    pub open spec fn synced_children(self, key: ClientObjectId) -> Seq<ClientObjectId> {
        if self.surf.surfaces.has(key) {
            self.surf.surfaces.at(key).children.map_values(|c: u32| (key.0, c)).filter(
                |c: ClientObjectId| self.effectively_synced(c),
            )
        } else {
            Seq::empty()
        }
    }

    /// Whether walking up from one surface meets another. A walk longer than
    /// there are surfaces counts as meeting it.
    pub open spec fn reaches_within(self, client_id: u32, target: u32, from: u32, fuel: nat) -> bool
        decreases fuel,
    {
        if from == target {
            true
        } else {
            match self.parent_of(client_id, from) {
                None => false,
                Some(p) => fuel == 0 || self.reaches_within(client_id, target, p, (fuel - 1) as nat),
            }
        }
    }

    /// Whether one surface is another or one of its ancestors.
    pub open spec fn ancestor(self, client_id: u32, surface_id: u32, candidate_id: u32) -> bool {
        self.reaches_within(client_id, surface_id, candidate_id, self.surface_count())
    }

    /// The surface a walk up ends at.
    pub open spec fn root_within(self, client_id: u32, id: u32, fuel: nat) -> u32
        decreases fuel,
    {
        match self.parent_of(client_id, id) {
            None => id,
            Some(p) => if fuel == 0 {
                id
            } else {
                self.root_within(client_id, p, (fuel - 1) as nat)
            },
        }
    }

    /// The surface at the root of a surface's tree.
    pub open spec fn root(self, key: ClientObjectId) -> ClientObjectId {
        (key.0, self.root_within(key.0, key.1, self.surface_count()))
    }

    /// A position with a surface's place in its tree added, from the surface
    /// up to the root, and the root's own position last.
    pub open spec fn placed_within(self, client_id: u32, id: u32, at: (i32, i32), fuel: nat) -> (i32, i32)
        decreases fuel,
    {
        let key = (client_id, id);
        if !self.surf.surfaces.has(key) {
            at
        } else {
            let here = moved(at, self.surf.surfaces.at(key).subsurface_position);
            match self.surf.surfaces.at(key).parent {
                None => moved(here, self.surf.surfaces.at(key).position),
                Some(p) => if fuel == 0 {
                    here
                } else {
                    self.placed_within(client_id, p, here, (fuel - 1) as nat)
                },
            }
        }
    }

    /// Where a surface sits in global coordinates.
    pub open spec fn global_position(self, key: ClientObjectId) -> (i32, i32) {
        self.placed_within(key.0, key.1, (0, 0), self.surface_count())
    }

    /// The viewport of a surface, if it has one.
    pub open spec fn viewport_of(self, key: ClientObjectId) -> Option<ViewportState> {
        if self.surf.surface_viewport.has(key) {
            self.surf.viewports.get((key.0, self.surf.surface_viewport.at(key)))
        } else {
            None
        }
    }

    /// Which part of a surface's buffer is shown, and at what size: a viewport's
    /// source crops and its destination sizes; failing either, the whole
    /// buffer is shown, divided by the surface's scale and turned as its
    /// transform turns it.
    pub open spec fn buffer_mapping(self, key: ClientObjectId) -> Option<BufferMapping> {
        if !self.surf.surfaces.has(key) || self.surf.surfaces.at(key).buffer_id is None {
            None
        } else {
            let surface = self.surf.surfaces.at(key);
            let buffer_key = (key.0, surface.buffer_id->0);
            if !self.mem.buffers.has(buffer_key) {
                None
            } else {
                let buffer = self.mem.buffers.at(buffer_key);
                let viewport = self.viewport_of(key);
                let src = match viewport {
                    Some(ViewportState { source: Some(s), .. }) => FixedRect64 {
                        x: s.x as i64,
                        y: s.y as i64,
                        width: s.width as i64,
                        height: s.height as i64,
                    },
                    _ => FixedRect64 {
                        x: 0,
                        y: 0,
                        width: (buffer.width * 256) as i64,
                        height: (buffer.height * 256) as i64,
                    },
                };
                let scale = if surface.buffer_scale < 1 {
                    1
                } else {
                    surface.buffer_scale as int
                };
                let whole = (src.width as int / 256 / scale, src.height as int / 256 / scale);
                let dest = match viewport {
                    Some(ViewportState { destination: Some(d), .. }) => (d.0 as int, d.1 as int),
                    _ => if surface.buffer_transform.quarter() {
                        (whole.1, whole.0)
                    } else {
                        whole
                    },
                };
                if buffer.width <= 0 || buffer.height <= 0 || dest.0 <= 0 || dest.1 <= 0 {
                    None
                } else {
                    Some(BufferMapping { src, dest_width: dest.0 as i32, dest_height: dest.1 as i32 })
                }
            }
        }
    }

    /// The size of a surface in surface-local coordinates, zero with nothing
    /// to show.
    pub open spec fn surface_size(self, key: ClientObjectId) -> (i32, i32) {
        match self.buffer_mapping(key) {
            Some(m) => (m.dest_width, m.dest_height),
            None => (0, 0),
        }
    }

    /// With a new surface.
    pub open spec fn create_surface(self, client_id: u32, surface_id: u32) -> Self {
        StateView { surf: SurfacesView { surfaces: self.surf.surfaces.put((client_id, surface_id), SurfaceView::fresh(client_id)), ..self.surf }, ..self }
    }

    /// With a new region.
    pub open spec fn create_region(self, client_id: u32, region_id: u32) -> Self {
        StateView { surf: SurfacesView { regions: self.surf.regions.put((client_id, region_id), RegionView { client_id, rects: Seq::empty() }), ..self.surf }, ..self }
    }

    /// With a region gone.
    pub open spec fn destroy_region(self, client_id: u32, region_id: u32) -> Self {
        StateView { surf: SurfacesView { regions: self.surf.regions.without((client_id, region_id)), ..self.surf }, ..self }
    }

    /// With a new viewport on a surface.
    pub open spec fn create_viewport(self, client_id: u32, viewport_id: u32, surface_id: u32) -> Self {
        StateView { surf: SurfacesView { viewports: self.surf.viewports.put(
                (client_id, viewport_id),
                ViewportState {
                    client_id,
                    surface_id,
                    source: None,
                    destination: None,
                    pending_source: None,
                    pending_destination: None,
                },
            ), surface_viewport: self.surf.surface_viewport.put((client_id, surface_id), viewport_id), ..self.surf }, ..self }
    }

    /// With a viewport gone, and the surface it was on without one.
    pub open spec fn destroy_viewport(self, client_id: u32, viewport_id: u32) -> Self {
        if self.surf.viewports.has((client_id, viewport_id)) {
            StateView { surf: SurfacesView { viewports: self.surf.viewports.without((client_id, viewport_id)), surface_viewport: self.surf.surface_viewport.without(
                    (client_id, self.surf.viewports.at((client_id, viewport_id)).surface_id),
                ), ..self.surf }, ..self }
        } else {
            self
        }
    }
}

impl CompositorState {
    /// Whether a surface's commits are cached rather than applied.
    ///
    /// A subsurface is *effectively* synchronised if it is synchronised itself
    /// or if the subsurface above it is - the mode is inherited down the tree,
    /// so desyncing a child of a synchronised parent does not free it.
    ///
    /// Only subsurfaces. A toplevel or a popup has no commit mode, and its
    /// commits always apply.
    pub fn is_effectively_synced(&self, key: ClientObjectId) -> (r: bool)
        ensures
            r == self@.effectively_synced(key),
    {
        let (client_id, mut current) = key;
        let n: usize = self.surf.surfaces.len();
        let mut i: usize = 0;
        loop
            invariant
                client_id == key.0,
                i <= n,
                n == self@.surface_count(),
                self@.effectively_synced(key) == self@.synced_within(client_id, current, (n - i) as nat),
            decreases n - i,
        {
            let surface = match self.surf.surfaces.get((client_id, current)) {
                Some(surface) => surface,
                None => {
                    return false;
                },
            };
            if !surface.is_subsurface {
                return false;
            }
            if surface.subsurface_sync {
                return true;
            }
            match surface.parent {
                None => {
                    return false;
                },
                Some(parent) => {
                    if i == n {
                        return false;
                    }
                    current = parent;
                    i += 1;
                },
            }
        }
    }

    /// Every synchronised subsurface directly under a surface.
    pub fn synced_children(&self, key: ClientObjectId) -> (r: Vec<ClientObjectId>)
        ensures
            r@ == self@.synced_children(key),
    {
        let mut found: Vec<ClientObjectId> = Vec::new();
        match self.surf.surfaces.get(key) {
            None => {
                proof {
                    assert(found@ =~= Seq::<ClientObjectId>::empty());
                }
                found
            },
            Some(surface) => {
                let ghost all = surface.children@.map_values(|c: u32| (key.0, c));
                let ghost p = |c: ClientObjectId| self@.effectively_synced(c);
                proof {
                    assert(all.take(0).filter(p) =~= Seq::<ClientObjectId>::empty()) by {
                        reveal(Seq::filter);
                    }
                }
                let mut i: usize = 0;
                while i < surface.children.len()
                    invariant
                        i <= surface.children@.len(),
                        all == surface.children@.map_values(|c: u32| (key.0, c)),
                        p == (|c: ClientObjectId| self@.effectively_synced(c)),
                        found@ == all.take(i as int).filter(p),
                    decreases surface.children@.len() - i,
                {
                    let child = (key.0, surface.children[i]);
                    proof {
                        assert(all[i as int] == child);
                        assert(all.take(i + 1) =~= all.take(i as int).push(child));
                        lemma_filter_push(all.take(i as int), child, p);
                    }
                    if self.is_effectively_synced(child) {
                        found.push(child);
                    }
                    i += 1;
                }
                proof {
                    assert(all.take(i as int) =~= all);
                }
                found
            },
        }
    }

    /// Whether `surface_id` is `candidate_id` or one of its ancestors.
    ///
    /// Asked before any request links one surface under another, because a
    /// surface that ends up its own ancestor is not a wrong answer but a hang
    /// or a blown stack.
    ///
    /// Bounded by the number of surfaces rather than trusting the chain to
    /// end. This is the check that keeps the tree acyclic, so it must not be
    /// the one thing that a cycle could hang.
    pub fn is_ancestor(&self, client_id: u32, surface_id: u32, candidate_id: u32) -> (r: bool)
        ensures
            r == self@.ancestor(client_id, surface_id, candidate_id),
    {
        let mut current: u32 = candidate_id;
        let n: usize = self.surf.surfaces.len();
        let mut i: usize = 0;
        loop
            invariant
                i <= n,
                n == self@.surface_count(),
                self@.ancestor(client_id, surface_id, candidate_id) == self@.reaches_within(
                    client_id,
                    surface_id,
                    current,
                    (n - i) as nat,
                ),
            decreases n - i,
        {
            if current == surface_id {
                return true;
            }
            let parent = match self.surf.surfaces.get((client_id, current)) {
                Some(surface) => surface.parent,
                None => None,
            };
            match parent {
                None => {
                    return false;
                },
                Some(parent) => {
                    if i == n {
                        return true;
                    }
                    current = parent;
                    i += 1;
                },
            }
        }
    }

    /// The surface at the root of a subsurface or popup tree.
    pub fn root_of(&self, key: ClientObjectId) -> (r: ClientObjectId)
        ensures
            r == self@.root(key),
    {
        let (client_id, mut current) = key;
        let n: usize = self.surf.surfaces.len();
        let mut i: usize = 0;
        loop
            invariant
                client_id == key.0,
                i <= n,
                n == self@.surface_count(),
                self@.root(key).1 == self@.root_within(client_id, current, (n - i) as nat),
            decreases n - i,
        {
            let parent = match self.surf.surfaces.get((client_id, current)) {
                Some(surface) => surface.parent,
                None => None,
            };
            match parent {
                None => {
                    return (client_id, current);
                },
                Some(parent) => {
                    if i == n {
                        return (client_id, current);
                    }
                    current = parent;
                    i += 1;
                },
            }
        }
    }

    /// Where a surface sits in global coordinates, walking up its parents.
    pub fn global_position_of(&self, key: ClientObjectId) -> (r: (i32, i32))
        ensures
            r == self@.global_position(key),
    {
        let (client_id, mut current) = key;
        let mut at: (i32, i32) = (0, 0);
        let n: usize = self.surf.surfaces.len();
        let mut i: usize = 0;
        loop
            invariant
                client_id == key.0,
                i <= n,
                n == self@.surface_count(),
                self@.global_position(key) == self@.placed_within(client_id, current, at, (n - i) as nat),
            decreases n - i,
        {
            let surface = match self.surf.surfaces.get((client_id, current)) {
                Some(surface) => surface,
                None => {
                    return at;
                },
            };
            at = move_by(at, surface.subsurface_position);
            match surface.parent {
                None => {
                    return move_by(at, surface.position);
                },
                Some(parent) => {
                    if i == n {
                        return at;
                    }
                    current = parent;
                    i += 1;
                },
            }
        }
    }

    /// Work out which part of a surface's buffer is shown, and at what size.
    ///
    /// Shared by scene building and by damage mapping, which needs to run this
    /// backwards - the two must agree or damage lands in the wrong place.
    pub fn surface_buffer_mapping(&self, key: ClientObjectId) -> (r: Option<BufferMapping>)
        ensures
            r == self@.buffer_mapping(key),
    {
        let surface = match self.surf.surfaces.get(key) {
            Some(surface) => surface,
            None => {
                return None;
            },
        };
        let buffer_id: u32 = match surface.buffer_id {
            Some(id) => id,
            None => {
                return None;
            },
        };
        let buffer = match self.mem.buffers.get((key.0, buffer_id)) {
            Some(buffer) => buffer,
            None => {
                return None;
            },
        };
        if buffer.width <= 0 || buffer.height <= 0 {
            return None;
        }
        let viewport: Option<ViewportState> = match self.surf.surface_viewport.get(key) {
            Some(id) => match self.surf.viewports.get((key.0, *id)) {
                Some(v) => Some(*v),
                None => None,
            },
            None => None,
        };
        let src = match viewport {
            Some(ViewportState { source: Some(s), .. }) => FixedRect64 {
                x: s.x as i64,
                y: s.y as i64,
                width: s.width as i64,
                height: s.height as i64,
            },
            _ => FixedRect64 { x: 0, y: 0, width: buffer.width as i64 * 256, height: buffer.height as i64 * 256 },
        };
        let (dest_width, dest_height): (i32, i32) = match viewport {
            Some(ViewportState { destination: Some(d), .. }) => d,
            _ => {
                let scale: i64 = if surface.buffer_scale < 1 {
                    1
                } else {
                    surface.buffer_scale as i64
                };
                let w: i64 = if src.width < 256 {
                    0
                } else {
                    src.width / 256 / scale
                };
                let h: i64 = if src.height < 256 {
                    0
                } else {
                    src.height / 256 / scale
                };
                proof {
                    lemma_shrunk(src.width as int, scale as int);
                    lemma_shrunk(src.height as int, scale as int);
                }
                if surface.buffer_transform.swaps_axes() {
                    (h as i32, w as i32)
                } else {
                    (w as i32, h as i32)
                }
            },
        };
        if dest_width <= 0 || dest_height <= 0 {
            return None;
        }
        Some(BufferMapping { src, dest_width, dest_height })
    }

    /// Size of a window in surface-local coordinates.
    ///
    /// Zero until the client has attached a buffer, which is the usual state
    /// when a toplevel is first mapped.
    pub fn surface_size(&self, key: ClientObjectId) -> (r: (i32, i32))
        ensures
            r == self@.surface_size(key),
    {
        match self.surface_buffer_mapping(key) {
            Some(m) => (m.dest_width, m.dest_height),
            None => (0, 0),
        }
    }

    pub fn create_surface(&mut self, client_id: u32, surface_id: u32)
        ensures
            final(self)@ == old(self)@.create_surface(client_id, surface_id),
    {
        self.surf.surfaces.insert((client_id, surface_id), Surface::new(client_id));
    }

    pub fn create_region(&mut self, client_id: u32, region_id: u32)
        ensures
            final(self)@ == old(self)@.create_region(client_id, region_id),
    {
        let region = Region { client_id, rects: Vec::new() };
        proof {
            assert(region@ =~= RegionView { client_id, rects: Seq::empty() });
        }
        self.surf.regions.insert((client_id, region_id), region);
    }

    pub fn destroy_region(&mut self, client_id: u32, region_id: u32)
        ensures
            final(self)@ == old(self)@.destroy_region(client_id, region_id),
    {
        let _ = self.surf.regions.remove((client_id, region_id));
    }

    pub fn create_viewport(&mut self, client_id: u32, viewport_id: u32, surface_id: u32)
        ensures
            final(self)@ == old(self)@.create_viewport(client_id, viewport_id, surface_id),
    {
        self.surf.viewports.insert(
            (client_id, viewport_id),
            ViewportState {
                client_id,
                surface_id,
                source: None,
                destination: None,
                pending_source: None,
                pending_destination: None,
            },
        );
        self.surf.surface_viewport.insert((client_id, surface_id), viewport_id);
    }

    pub fn destroy_viewport(&mut self, client_id: u32, viewport_id: u32)
        ensures
            final(self)@ == old(self)@.destroy_viewport(client_id, viewport_id),
    {
        self.surf.viewports.known();
        if let Some(vp) = self.surf.viewports.remove((client_id, viewport_id)) {
            let _ = self.surf.surface_viewport.remove((client_id, vp.surface_id));
        } else {
            proof {
                old(self)@.surf.viewports.lemma_without_absent((client_id, viewport_id));
            }
        }
    }
}

proof fn lemma_shrunk(width: int, scale: int)
    requires
        scale >= 1,
    ensures
        width < 256 ==> width / 256 / scale <= 0,
        width >= 256 ==> 0 <= width / 256 / scale <= width / 256,
{
    let w = width / 256;
    if width < 256 {
        assert(w <= 0);
        assert(w / scale <= 0) by (nonlinear_arith)
            requires
                w <= 0,
                scale >= 1,
        ;
    } else {
        assert(w >= 1);
        assert(0 <= w / scale <= w) by (nonlinear_arith)
            requires
                w >= 1,
                scale >= 1,
        ;
    }
}

} // verus!
