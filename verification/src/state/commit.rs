//! Commits: how what a client has asked of a surface reaches the screen.
use crate::state::compositor_state::{CompositorState, MemoryView, StateView, SurfacesView};
use crate::state::types::{
    BufferMapping, BufferTransform, clamp_surface_offset, clamped_offset, ClientObjectId,
    PendingRegion, PendingRegionView, plus, RegionRect, Surface, SurfacePending,
    SurfacePendingView, SurfaceView, TextureRect, to_i32, ViewportState,
};
use vstd::prelude::*;

verus! {

/// Clip a rectangle to a buffer, dropping it if nothing is left.
pub open spec fn clipped(rect: TextureRect, width: i32, height: i32) -> Option<TextureRect> {
    let x0 = if rect.x < 0 { 0 } else { rect.x as int };
    let y0 = if rect.y < 0 { 0 } else { rect.y as int };
    let right = to_i32(rect.x + rect.width);
    let bottom = to_i32(rect.y + rect.height);
    let x1 = if right > width { width as int } else { right as int };
    let y1 = if bottom > height { height as int } else { bottom as int };
    if x1 > x0 && y1 > y0 {
        Some(TextureRect { x: x0 as i32, y: y0 as i32, width: (x1 - x0) as i32, height: (y1 - y0) as i32 })
    } else {
        None
    }
}

/// Rectangles clipped to a buffer, without those of which nothing is left.
pub open spec fn clip_all(rects: Seq<TextureRect>, width: i32, height: i32) -> Seq<TextureRect>
    decreases rects.len(),
{
    if rects.len() == 0 {
        Seq::empty()
    } else {
        let before = clip_all(rects.drop_last(), width, height);
        match clipped(rects.last(), width, height) {
            Some(r) => before.push(r),
            None => before,
        }
    }
}

/// Where a surface coordinate falls in the buffer, in 256ths of a buffer pixel
/// times the length it is shown at.
pub open spec fn mapped_at(start: int, length: int, shown: int, at: int) -> int {
    start * shown + at * length
}

/// One axis of a surface rectangle mapped into the buffer: its start and its
/// length, rounded outward and padded by a pixel.
pub open spec fn mapped_axis(start: int, length: int, shown: int, at: int, end: int) -> (int, int) {
    let unit = 256 * shown;
    let low = mapped_at(start, length, shown, at) / unit - 1;
    let high = -((-mapped_at(start, length, shown, end)) / unit) + 1;
    (low, high - low)
}

/// A surface rectangle mapped into the buffer.
pub open spec fn mapped_rect(m: BufferMapping, r: TextureRect) -> TextureRect {
    let h = mapped_axis(
        m.src.x as int,
        m.src.width as int,
        m.dest_width as int,
        r.x as int,
        to_i32(r.x + r.width) as int,
    );
    let v = mapped_axis(
        m.src.y as int,
        m.src.height as int,
        m.dest_height as int,
        r.y as int,
        to_i32(r.y + r.height) as int,
    );
    TextureRect { x: to_i32(h.0), y: to_i32(v.0), width: to_i32(h.1), height: to_i32(v.1) }
}

/// Whether one axis of a rectangle mapped into the buffer can be written down
/// without moving either of its ends inward.
pub open spec fn fits_axis(a: (int, int)) -> bool {
    i32::MIN <= a.0 && a.1 <= i32::MAX
}

/// Whether a surface rectangle can be mapped into the buffer and written down
/// there.
pub open spec fn placeable(m: BufferMapping, r: TextureRect) -> bool {
    &&& m.src.width >= 0
    &&& m.src.height >= 0
    &&& fits_axis(
        mapped_axis(
            m.src.x as int,
            m.src.width as int,
            m.dest_width as int,
            r.x as int,
            to_i32(r.x + r.width) as int,
        ),
    )
    &&& fits_axis(
        mapped_axis(
            m.src.y as int,
            m.src.height as int,
            m.dest_height as int,
            r.y as int,
            to_i32(r.y + r.height) as int,
        ),
    )
}

/// Whether every one of some surface rectangles can be.
pub open spec fn all_placeable(m: BufferMapping, rects: Seq<TextureRect>) -> bool {
    forall|i: int| 0 <= i < rects.len() ==> placeable(m, #[trigger] rects[i])
}

/// Surface rectangles mapped into the buffer.
pub open spec fn mapped_rects(m: BufferMapping, rects: Seq<TextureRect>) -> Seq<TextureRect> {
    rects.map_values(|r: TextureRect| mapped_rect(m, r))
}

/// Clip a rectangle to a buffer, dropping it if nothing is left.
pub fn clamp_rect(rect: TextureRect, width: i32, height: i32) -> (r: Option<TextureRect>)
    ensures
        r == clipped(rect, width, height),
{
    let x0: i32 = if rect.x < 0 { 0 } else { rect.x };
    let y0: i32 = if rect.y < 0 { 0 } else { rect.y };
    let right: i32 = plus(rect.x, rect.width);
    let bottom: i32 = plus(rect.y, rect.height);
    let x1: i32 = if right > width { width } else { right };
    let y1: i32 = if bottom > height { height } else { bottom };
    if x1 > x0 && y1 > y0 {
        Some(TextureRect { x: x0, y: y0, width: x1 - x0, height: y1 - y0 })
    } else {
        None
    }
}

fn push_clipped(out: &mut Vec<TextureRect>, rects: &Vec<TextureRect>, width: i32, height: i32)
    ensures
        final(out)@ == old(out)@ + clip_all(rects@, width, height),
{
    let mut i: usize = 0;
    proof {
        assert(out@ =~= out@ + clip_all(rects@.take(0), width, height));
    }
    while i < rects.len()
        invariant
            i <= rects@.len(),
            out@ == old(out)@ + clip_all(rects@.take(i as int), width, height),
        decreases rects@.len() - i,
    {
        proof {
            assert(rects@.take(i + 1).drop_last() =~= rects@.take(i as int));
        }
        if let Some(r) = clamp_rect(rects[i], width, height) {
            out.push(r);
        }
        i += 1;
        proof {
            assert(out@ =~= old(out)@ + clip_all(rects@.take(i as int), width, height));
        }
    }
    proof {
        assert(rects@.take(i as int) =~= rects@);
    }
}

fn floor_div(n: i128, d: i128) -> (r: i128)
    requires
        d > 0,
        -0x1_0000_0000_0000_0000_0000_0000i128 < n < 0x1_0000_0000_0000_0000_0000_0000i128,
    ensures
        r == n as int / d as int,
        -0x1_0000_0000_0000_0000_0000_0001i128 < r < 0x1_0000_0000_0000_0000_0000_0001i128,
{
    if n >= 0 {
        proof {
            assert(0 <= n as int / d as int <= n) by (nonlinear_arith)
                requires
                    n >= 0,
                    d > 0,
            ;
        }
        n / d
    } else {
        let m: i128 = -n;
        let q: i128 = (m - 1) / d;
        proof {
            let a = n as int;
            let b = d as int;
            assert(0 <= (-a - 1) / b <= -a - 1) by (nonlinear_arith)
                requires
                    a < 0,
                    b > 0,
            ;
            assert(a / b == -((-a - 1) / b) - 1) by (nonlinear_arith)
                requires
                    a < 0,
                    b > 0,
            ;
        }
        -q - 1
    }
}

fn wide_saturate(n: i128) -> (r: i32)
    ensures
        r == to_i32(n as int),
{
    if n < i32::MIN as i128 {
        i32::MIN
    } else if n > i32::MAX as i128 {
        i32::MAX
    } else {
        n as i32
    }
}

fn map_axis(start: i64, length: i64, shown: i32, at: i32, end: i32) -> (r: Option<(i32, i32)>)
    requires
        shown > 0,
        -0x100_0000_0000 < start < 0x100_0000_0000,
        -0x100_0000_0000 < length < 0x100_0000_0000,
    ensures
        ({
            let a = mapped_axis(start as int, length as int, shown as int, at as int, end as int);
            &&& r is Some <==> fits_axis(a)
            &&& r is Some ==> r == Some((to_i32(a.0), to_i32(a.1)))
        }),
{
    let (s, l, w): (i128, i128, i128) = (start as i128, length as i128, shown as i128);
    let (a, e): (i128, i128) = (at as i128, end as i128);
    proof {
        lemma_product(s as int, w as int);
        lemma_product(a as int, l as int);
        lemma_product(e as int, l as int);
    }
    let unit: i128 = 256 * w;
    let low: i128 = floor_div(s * w + a * l, unit) - 1;
    let high: i128 = -floor_div(-(s * w + e * l), unit) + 1;
    if low < i32::MIN as i128 || high - low > i32::MAX as i128 {
        return None;
    }
    Some((wide_saturate(low), wide_saturate(high - low)))
}

proof fn lemma_product(a: int, b: int)
    requires
        -0x100_0000_0000 < a < 0x100_0000_0000,
        -0x100_0000_0000 < b < 0x100_0000_0000,
    ensures
        -0x1_0000_0000_0000_0000_0000 < a * b < 0x1_0000_0000_0000_0000_0000,
{
    assert(-0x100_0000_0000 * 0x100_0000_0000 < a * b < 0x100_0000_0000 * 0x100_0000_0000) by (nonlinear_arith)
        requires
            -0x100_0000_0000 < a < 0x100_0000_0000,
            -0x100_0000_0000 < b < 0x100_0000_0000,
    ;
}

impl SurfaceView {
    /// The region after a pending one is applied; the protocol's default is no
    /// region.
    pub open spec fn region_after(before: Option<Seq<RegionRect>>, p: PendingRegionView) -> Option<Seq<RegionRect>> {
        match p {
            PendingRegionView::Unchanged => before,
            PendingRegionView::Infinite => None,
            PendingRegionView::Rects(r) => Some(r),
        }
    }

    /// A surface with a commit applied to it.
    pub open spec fn committed(self, p: SurfacePendingView) -> Self {
        SurfaceView {
            buffer_id: if p.buffer_attached { p.buffer_id } else { self.buffer_id },
            frame_callbacks: self.frame_callbacks + p.frame_callbacks,
            presentation_feedbacks: self.presentation_feedbacks + p.presentation_feedbacks,
            buffer_scale: match p.buffer_scale {
                Some(s) => s,
                None => self.buffer_scale,
            },
            buffer_transform: match p.buffer_transform {
                Some(t) => t,
                None => self.buffer_transform,
            },
            offset: clamped_offset(to_i32(self.offset.0 + p.offset.0), to_i32(self.offset.1 + p.offset.1)),
            input_region: Self::region_after(self.input_region, p.input_region),
            opaque_region: Self::region_after(self.opaque_region, p.opaque_region),
            ..self
        }
    }

    /// The buffer a commit takes off a surface, if it takes one off.
    pub open spec fn replaced(self, p: SurfacePendingView) -> Option<u32> {
        if p.buffer_attached && self.buffer_id is Some && p.buffer_id != self.buffer_id {
            self.buffer_id
        } else {
            None
        }
    }
}

impl Surface {
    /// Apply a commit, and say which buffer it has taken off the surface.
    pub fn apply(&mut self, pending: SurfacePending) -> (r: Option<u32>)
        ensures
            final(self)@ == old(self)@.committed(pending@),
            r == old(self)@.replaced(pending@),
    {
        let mut pending = pending;
        let mut replaced: Option<u32> = None;
        if pending.buffer_attached {
            if let Some(before) = self.buffer_id {
                if pending.buffer_id != Some(before) {
                    replaced = Some(before);
                }
            }
            self.buffer_id = pending.buffer_id;
        }
        self.frame_callbacks.append(&mut pending.frame_callbacks);
        self.presentation_feedbacks.append(&mut pending.presentation_feedbacks);
        if let Some(scale) = pending.buffer_scale {
            self.buffer_scale = scale;
        }
        if let Some(transform) = pending.buffer_transform {
            self.buffer_transform = transform;
        }
        self.offset = clamp_surface_offset(
            plus(self.offset.0, pending.offset.0),
            plus(self.offset.1, pending.offset.1),
        );
        match pending.input_region {
            PendingRegion::Unchanged => {},
            PendingRegion::Infinite => {
                self.input_region = None;
            },
            PendingRegion::Rects(rects) => {
                self.input_region = Some(rects);
            },
        }
        match pending.opaque_region {
            PendingRegion::Unchanged => {},
            PendingRegion::Infinite => {
                self.opaque_region = None;
            },
            PendingRegion::Rects(rects) => {
                self.opaque_region = Some(rects);
            },
        }
        replaced
    }
}

/// A viewport with what it was waiting for applied.
pub open spec fn viewport_applied(v: ViewportState) -> ViewportState {
    ViewportState {
        source: if v.pending_source is Some { v.pending_source } else { v.source },
        destination: if v.pending_destination is Some { v.pending_destination } else { v.destination },
        pending_source: None,
        pending_destination: None,
        ..v
    }
}

impl StateView {
    /// Whether surface rectangles can be placed in a surface's buffer: it shows
    /// one, neither turned nor flipped, and each of them can be written down
    /// there.
    pub open spec fn can_place(self, key: ClientObjectId, rects: Seq<TextureRect>) -> bool {
        &&& self.buffer_mapping(key) is Some
        &&& self.surf.surfaces.at(key).buffer_transform is Normal
        &&& all_placeable(self.buffer_mapping(key)->0, rects)
    }

    /// A commit's damage as rectangles of the buffer. None is all of it, and
    /// every uncertain case is that.
    pub open spec fn committed_damage(
        self,
        key: ClientObjectId,
        buffer_id: u32,
        damage_surface: Seq<TextureRect>,
        damage_buffer: Seq<TextureRect>,
    ) -> Seq<TextureRect> {
        let buffer_key = (key.0, buffer_id);
        if !self.mem.buffers.has(buffer_key) {
            Seq::empty()
        } else {
            let b = self.mem.buffers.at(buffer_key);
            if damage_surface.len() == 0 {
                clip_all(damage_buffer, b.width, b.height)
            } else if !self.can_place(key, damage_surface) {
                Seq::empty()
            } else {
                clip_all(damage_buffer, b.width, b.height) + clip_all(
                    mapped_rects(self.buffer_mapping(key)->0, damage_surface),
                    b.width,
                    b.height,
                )
            }
        }
    }

    /// With a surface's commit applied to the surface, the buffer it replaces
    /// to be released, and the screen to be drawn again.
    pub open spec fn commit_surface(self, key: ClientObjectId, p: SurfacePendingView) -> Self {
        if !self.surf.surfaces.has(key) {
            self
        } else {
            StateView {
                surf: SurfacesView {
                    surfaces: self.surf.surfaces.edit(key, |s: SurfaceView| s.committed(p)),
                    ..self.surf
                },
                mem: MemoryView {
                    buffers_pending_release: match self.surf.surfaces.at(key).replaced(p) {
                        Some(b) => self.mem.buffers_pending_release.push((key.0, b)),
                        None => self.mem.buffers_pending_release,
                    },
                    ..self.mem
                },
                dirty: true,
                ..self
            }
        }
    }

    /// With the cursor to be built again if a surface is one.
    pub open spec fn touch_cursor(self, key: ClientObjectId) -> Self {
        StateView { cursor_dirty: self.cursor_dirty || self.surf.cursor_role_surfaces.contains(key), ..self }
    }

    /// With what a surface's viewport was waiting for applied.
    pub open spec fn commit_viewport(self, key: ClientObjectId) -> Self {
        if self.surf.surface_viewport.has(key) {
            StateView {
                surf: SurfacesView {
                    viewports: self.surf.viewports.edit(
                        (key.0, self.surf.surface_viewport.at(key)),
                        |v: ViewportState| viewport_applied(v),
                    ),
                    ..self.surf
                },
                ..self
            }
        } else {
            self
        }
    }

    /// The buffer a surface shows.
    pub open spec fn buffer_of(self, key: ClientObjectId) -> Option<u32> {
        if self.surf.surfaces.has(key) {
            self.surf.surfaces.at(key).buffer_id
        } else {
            None
        }
    }

    /// With the buffer a surface shows marked changed, as far as a commit's
    /// damage says.
    pub open spec fn damage_shown(
        self,
        key: ClientObjectId,
        damage_surface: Seq<TextureRect>,
        damage_buffer: Seq<TextureRect>,
    ) -> Self {
        match self.buffer_of(key) {
            Some(b) => self.mark_buffer_damaged(
                (key.0, b),
                self.committed_damage(key, b, damage_surface, damage_buffer),
            ),
            None => self,
        }
    }

    /// With one surface's commit applied: to the surface, to the cursor and
    /// the viewport it has, to its buffer's damage, and to where a resize
    /// leaves it.
    pub open spec fn apply_one(self, key: ClientObjectId, p: SurfacePendingView) -> Self {
        self.commit_surface(key, p).touch_cursor(key).commit_viewport(key).damage_shown(
            key,
            p.damage_surface,
            p.damage_buffer,
        ).apply_resize_anchor(key)
    }

    /// What a surface has cached, and nothing for no cache.
    pub open spec fn cached_of(self, key: ClientObjectId) -> SurfacePendingView {
        if self.surf.surfaces.has(key) {
            match self.surf.surfaces.at(key).cached {
                Some(p) => p,
                None => SurfacePendingView::nothing(),
            }
        } else {
            SurfacePendingView::nothing()
        }
    }

    /// With a surface's cache emptied.
    pub open spec fn uncache(self, key: ClientObjectId) -> Self {
        StateView {
            surf: SurfacesView {
                surfaces: self.surf.surfaces.edit(key, |s: SurfaceView| SurfaceView { cached: None, ..s }),
                ..self.surf
            },
            ..self
        }
    }

    /// With the caches of several surfaces emptied.
    pub open spec fn uncache_each(self, keys: Seq<ClientObjectId>) -> Self
        decreases keys.len(),
    {
        if keys.len() == 0 {
            self
        } else {
            self.uncache_each(keys.drop_last()).uncache(keys.last())
        }
    }

    /// The caches of several surfaces, as they are found when emptied one after
    /// another.
    pub open spec fn caches(self, keys: Seq<ClientObjectId>) -> Seq<(ClientObjectId, SurfacePendingView)>
        decreases keys.len(),
    {
        if keys.len() == 0 {
            Seq::empty()
        } else {
            self.caches(keys.drop_last()).push(
                (keys.last(), self.uncache_each(keys.drop_last()).cached_of(keys.last())),
            )
        }
    }

    /// With one surface's commit applied and the caches of the synchronised
    /// subsurfaces beneath it taken.
    pub open spec fn apply_entry(self, entry: (ClientObjectId, SurfacePendingView)) -> Self {
        let applied = self.apply_one(entry.0, entry.1);
        applied.uncache_each(applied.synced_children(entry.0))
    }

    /// The caches that applying one surface's commit takes.
    pub open spec fn entry_caches(self, entry: (ClientObjectId, SurfacePendingView)) -> Seq<
        (ClientObjectId, SurfacePendingView),
    > {
        let applied = self.apply_one(entry.0, entry.1);
        applied.caches(applied.synced_children(entry.0))
    }

    /// With several commits applied, one after another.
    pub open spec fn apply_entries(self, entries: Seq<(ClientObjectId, SurfacePendingView)>) -> Self
        decreases entries.len(),
    {
        if entries.len() == 0 {
            self
        } else {
            self.apply_entries(entries.drop_last()).apply_entry(entries.last())
        }
    }

    /// The caches that applying several commits takes, in order.
    pub open spec fn entries_caches(self, entries: Seq<(ClientObjectId, SurfacePendingView)>) -> Seq<
        (ClientObjectId, SurfacePendingView),
    >
        decreases entries.len(),
    {
        if entries.len() == 0 {
            Seq::empty()
        } else {
            self.entries_caches(entries.drop_last()) + self.apply_entries(entries.drop_last()).entry_caches(
                entries.last(),
            )
        }
    }

    /// With several commits applied, and then the caches beneath them, one
    /// level of the tree after another.
    pub open spec fn apply_levels(self, entries: Seq<(ClientObjectId, SurfacePendingView)>, fuel: nat) -> Self
        decreases fuel,
    {
        let next = self.entries_caches(entries);
        let applied = self.apply_entries(entries);
        if fuel == 0 || next.len() == 0 {
            applied
        } else {
            applied.apply_levels(next, (fuel - 1) as nat)
        }
    }

    /// With one surface's commit applied, and then the cached state of every
    /// synchronised subsurface beneath it.
    pub open spec fn apply_surface_state(self, key: ClientObjectId, p: SurfacePendingView) -> Self {
        self.apply_levels(seq![(key, p)], self.surface_count())
    }
}

/// What some commits say.
pub open spec fn entries_view(s: Seq<(ClientObjectId, SurfacePending)>) -> Seq<(ClientObjectId, SurfacePendingView)> {
    s.map_values(|e: (ClientObjectId, SurfacePending)| (e.0, e.1@))
}

impl CompositorState {
    /// Convert a commit's damage into buffer-pixel rectangles.
    ///
    /// An empty result means "assume the whole buffer changed", and every
    /// uncertain case collapses to it: damage is a promise that everything
    /// *outside* it is unchanged, so a rectangle we cannot place accurately is
    /// worse than no rectangle at all. So is a rectangle of a surface whose
    /// buffer is turned or flipped, and one that reaches further than a
    /// rectangle can say.
    pub fn committed_damage(
        &self,
        key: ClientObjectId,
        buffer_id: u32,
        damage_surface: &Vec<TextureRect>,
        damage_buffer: &Vec<TextureRect>,
    ) -> (r: Vec<TextureRect>)
        ensures
            r@ == self@.committed_damage(key, buffer_id, damage_surface@, damage_buffer@),
    {
        let mut rects: Vec<TextureRect> = Vec::new();
        proof {
            assert(rects@ =~= Seq::<TextureRect>::empty());
        }
        let (width, height): (i32, i32) = match self.mem.buffers.get((key.0, buffer_id)) {
            Some(b) => (b.width, b.height),
            None => {
                return rects;
            },
        };
        push_clipped(&mut rects, damage_buffer, width, height);
        proof {
            assert(rects@ =~= clip_all(damage_buffer@, width, height));
        }
        if damage_surface.len() == 0 {
            return rects;
        }
        match self.place_damage(key, damage_surface) {
            None => {
                let none: Vec<TextureRect> = Vec::new();
                proof {
                    assert(none@ =~= Seq::<TextureRect>::empty());
                }
                none
            },
            Some(mapped) => {
                push_clipped(&mut rects, &mapped, width, height);
                rects
            },
        }
    }

    fn place_damage(&self, key: ClientObjectId, rects: &Vec<TextureRect>) -> (r: Option<Vec<TextureRect>>)
        ensures
            r is Some <==> self@.can_place(key, rects@),
            r is Some ==> (r->0)@ == mapped_rects(self@.buffer_mapping(key)->0, rects@),
    {
        let m = match self.surface_buffer_mapping(key) {
            Some(m) => m,
            None => {
                return None;
            },
        };
        let upright: bool = match self.surf.surfaces.get(key) {
            Some(s) => matches!(s.buffer_transform, BufferTransform::Normal),
            None => false,
        };
        if !upright {
            return None;
        }
        map_rects(m, rects, Ghost(self@), Ghost(key))
    }

    fn commit_surface(&mut self, key: ClientObjectId, pending: SurfacePending)
        ensures
            final(self)@ == old(self)@.commit_surface(key, pending@),
    {
        let mut replaced: Option<u32> = None;
        match self.surf.surfaces.get_mut(key) {
            None => {
                return;
            },
            Some(surface) => {
                replaced = surface.apply(pending);
            },
        }
        if let Some(b) = replaced {
            self.mem.buffers_pending_release.push((key.0, b));
        }
        self.dirty = true;
    }

    fn touch_cursor(&mut self, key: ClientObjectId)
        ensures
            final(self)@ == old(self)@.touch_cursor(key),
    {
        if self.surf.cursor_role_surfaces.contains(key) {
            self.cursor_dirty = true;
        }
    }

    fn commit_viewport(&mut self, key: ClientObjectId)
        ensures
            final(self)@ == old(self)@.commit_viewport(key),
    {
        let id: u32 = match self.surf.surface_viewport.get(key) {
            Some(id) => *id,
            None => {
                return;
            },
        };
        if let Some(v) = self.surf.viewports.get_mut((key.0, id)) {
            if v.pending_source.is_some() {
                v.source = v.pending_source;
            }
            if v.pending_destination.is_some() {
                v.destination = v.pending_destination;
            }
            v.pending_source = None;
            v.pending_destination = None;
        }
    }

    fn damage_shown(
        &mut self,
        key: ClientObjectId,
        damage_surface: &Vec<TextureRect>,
        damage_buffer: &Vec<TextureRect>,
    )
        ensures
            final(self)@ == old(self)@.damage_shown(key, damage_surface@, damage_buffer@),
    {
        let shown: Option<u32> = match self.surf.surfaces.get(key) {
            Some(s) => s.buffer_id,
            None => None,
        };
        if let Some(b) = shown {
            let damage = self.committed_damage(key, b, damage_surface, damage_buffer);
            self.mark_buffer_damaged(key.0, b, &damage);
        }
    }

    /// Apply one surface's pending state to the state the compositor draws from.
    pub fn apply_one(&mut self, key: ClientObjectId, pending: SurfacePending)
        ensures
            final(self)@ == old(self)@.apply_one(key, pending@),
    {
        let mut pending = pending;
        let ghost whole = pending@;
        let mut damage_surface: Vec<TextureRect> = Vec::new();
        let mut damage_buffer: Vec<TextureRect> = Vec::new();
        core::mem::swap(&mut pending.damage_surface, &mut damage_surface);
        core::mem::swap(&mut pending.damage_buffer, &mut damage_buffer);
        proof {
            lemma_damage_aside(self@, key, whole, pending@);
        }
        self.commit_surface(key, pending);
        self.touch_cursor(key);
        self.commit_viewport(key);
        self.damage_shown(key, &damage_surface, &damage_buffer);
        self.apply_resize_anchor(key);
    }

    pub fn take_cached(&mut self, key: ClientObjectId) -> (r: SurfacePending)
        ensures
            final(self)@ == old(self)@.uncache(key),
            r@ == old(self)@.cached_of(key),
    {
        let mut cached: Option<SurfacePending> = None;
        if let Some(s) = self.surf.surfaces.get_mut(key) {
            core::mem::swap(&mut s.cached, &mut cached);
        }
        match cached {
            Some(p) => p,
            None => SurfacePending::default(),
        }
    }

    fn take_caches(&mut self, keys: &Vec<ClientObjectId>, out: &mut Vec<(ClientObjectId, SurfacePending)>)
        ensures
            final(self)@ == old(self)@.uncache_each(keys@),
            entries_view(final(out)@) == entries_view(old(out)@) + old(self)@.caches(keys@),
    {
        let mut i: usize = 0;
        proof {
            assert(entries_view(out@) =~= entries_view(out@) + self@.caches(keys@.take(0)));
        }
        while i < keys.len()
            invariant
                i <= keys@.len(),
                self@ == old(self)@.uncache_each(keys@.take(i as int)),
                entries_view(out@) == entries_view(old(out)@) + old(self)@.caches(keys@.take(i as int)),
            decreases keys@.len() - i,
        {
            let key = keys[i];
            let ghost before = out@;
            proof {
                assert(keys@.take(i + 1).drop_last() =~= keys@.take(i as int));
            }
            let cached = self.take_cached(key);
            out.push((key, cached));
            i += 1;
            proof {
                assert(entries_view(out@) =~= entries_view(before).push((key, cached@)));
                assert(entries_view(out@) =~= entries_view(old(out)@) + old(self)@.caches(keys@.take(i as int)));
            }
        }
        proof {
            assert(keys@.take(i as int) =~= keys@);
        }
    }

    fn apply_entries(&mut self, entries: Vec<(ClientObjectId, SurfacePending)>) -> (r: Vec<
        (ClientObjectId, SurfacePending),
    >)
        ensures
            final(self)@ == old(self)@.apply_entries(entries_view(entries@)),
            entries_view(r@) == old(self)@.entries_caches(entries_view(entries@)),
    {
        let ghost all = entries_view(entries@);
        let ghost source = entries@;
        let mut rest = entries;
        let mut next: Vec<(ClientObjectId, SurfacePending)> = Vec::new();
        let n: usize = rest.len();
        let mut i: usize = 0;
        proof {
            assert(source.skip(0) =~= source);
            assert(entries_view(next@) =~= self@.entries_caches(all.take(0)));
        }
        while i < n
            invariant
                i <= n,
                n == source.len(),
                all == entries_view(source),
                rest@ == source.skip(i as int),
                self@ == old(self)@.apply_entries(all.take(i as int)),
                entries_view(next@) == old(self)@.entries_caches(all.take(i as int)),
            decreases n - i,
        {
            let (key, pending) = rest.remove(0);
            proof {
                assert(source.skip(i as int)[0] == source[i as int]);
                assert(source.skip(i as int).remove(0) =~= source.skip(i + 1));
                assert(all.take(i + 1).drop_last() =~= all.take(i as int));
                assert(all.take(i + 1).last() == (key, pending@));
            }
            self.apply_one(key, pending);
            let children = self.synced_children(key);
            self.take_caches(&children, &mut next);
            i += 1;
        }
        proof {
            assert(all.take(i as int) =~= all);
        }
        next
    }

    /// Apply one surface's committed state, and then the cached state of every
    /// synchronised subsurface beneath it.
    ///
    /// The second half is what synchronised mode means. It cascades: applying a
    /// subsurface's cache is itself the moment its own synchronised children
    /// are applied. A client that builds a tree of them gets the whole tree in
    /// one frame.
    ///
    /// A child with nothing cached is still visited: its own children may have
    /// something.
    ///
    /// Walked level by level rather than by recursion, which takes the depth of
    /// a client's surface tree off the stack, and no deeper than there are
    /// surfaces.
    pub fn apply_surface_state(&mut self, key: ClientObjectId, pending: SurfacePending)
        ensures
            final(self)@ == old(self)@.apply_surface_state(key, pending@),
    {
        let n: usize = self.surf.surfaces.len();
        let mut entries: Vec<(ClientObjectId, SurfacePending)> = Vec::new();
        entries.push((key, pending));
        let ghost goal = self@.apply_surface_state(key, pending@);
        proof {
            assert(entries_view(entries@) =~= seq![(key, pending@)]);
        }
        let mut i: usize = 0;
        loop
            invariant
                i <= n,
                goal == self@.apply_levels(entries_view(entries@), (n - i) as nat),
                goal == old(self)@.apply_surface_state(key, pending@),
            decreases n - i,
        {
            let next = self.apply_entries(entries);
            proof {
                assert(entries_view(next@).len() == next@.len());
            }
            if i == n || next.len() == 0 {
                return;
            }
            entries = next;
            i += 1;
        }
    }
}

fn map_rects(
    m: BufferMapping,
    rects: &Vec<TextureRect>,
    Ghost(state): Ghost<StateView>,
    Ghost(key): Ghost<ClientObjectId>,
) -> (r: Option<Vec<TextureRect>>)
    requires
        state.buffer_mapping(key) == Some(m),
    ensures
        r is Some <==> all_placeable(m, rects@),
        r is Some ==> (r->0)@ == mapped_rects(m, rects@),
{
    proof {
        lemma_mapping_bounds(state, key);
    }
    if rects.len() > 0 && (m.src.width < 0 || m.src.height < 0) {
        proof {
            assert(!placeable(m, rects@[0]));
        }
        return None;
    }
    let mut out: Vec<TextureRect> = Vec::new();
    let mut i: usize = 0;
    while i < rects.len()
        invariant
            i <= rects@.len(),
            m.dest_width > 0,
            m.dest_height > 0,
            -0x100_0000_0000 < m.src.x < 0x100_0000_0000,
            -0x100_0000_0000 < m.src.y < 0x100_0000_0000,
            -0x100_0000_0000 < m.src.width < 0x100_0000_0000,
            -0x100_0000_0000 < m.src.height < 0x100_0000_0000,
            rects@.len() > 0 ==> m.src.width >= 0 && m.src.height >= 0,
            forall|j: int| 0 <= j < i ==> placeable(m, #[trigger] rects@[j]),
            out@ == mapped_rects(m, rects@.take(i as int)),
        decreases rects@.len() - i,
    {
        let rect = rects[i];
        let across = map_axis(m.src.x, m.src.width, m.dest_width, rect.x, plus(rect.x, rect.width));
        let down = map_axis(m.src.y, m.src.height, m.dest_height, rect.y, plus(rect.y, rect.height));
        match (across, down) {
            (Some((x, width)), Some((y, height))) => {
                out.push(TextureRect { x, y, width, height });
            },
            _ => {
                proof {
                    assert(!placeable(m, rects@[i as int]));
                }
                return None;
            },
        }
        i += 1;
        proof {
            assert(out@ =~= mapped_rects(m, rects@.take(i as int)));
        }
    }
    proof {
        assert(rects@.take(i as int) =~= rects@);
    }
    Some(out)
}

proof fn lemma_mapping_bounds(state: StateView, key: ClientObjectId)
    requires
        state.buffer_mapping(key) is Some,
    ensures
        ({
            let m = state.buffer_mapping(key)->0;
            &&& m.dest_width > 0
            &&& m.dest_height > 0
            &&& -0x100_0000_0000 < m.src.x < 0x100_0000_0000
            &&& -0x100_0000_0000 < m.src.y < 0x100_0000_0000
            &&& -0x100_0000_0000 < m.src.width < 0x100_0000_0000
            &&& -0x100_0000_0000 < m.src.height < 0x100_0000_0000
        }),
{
    let surface = state.surf.surfaces.at(key);
    let b = state.mem.buffers.at((key.0, surface.buffer_id->0));
    let scale = if surface.buffer_scale < 1 { 1 } else { surface.buffer_scale as int };
    let m = state.buffer_mapping(key)->0;
    assert(b.width > 0 && b.height > 0);
    let w = m.src.width as int / 256;
    let h = m.src.height as int / 256;
    assert(w / scale <= w || w < 0) by (nonlinear_arith)
        requires
            scale >= 1,
    ;
    assert(h / scale <= h || h < 0) by (nonlinear_arith)
        requires
            scale >= 1,
    ;
    assert(w < 0 ==> w / scale < 0) by (nonlinear_arith)
        requires
            scale >= 1,
    ;
    assert(h < 0 ==> h / scale < 0) by (nonlinear_arith)
        requires
            scale >= 1,
    ;
}

proof fn lemma_damage_aside(s: StateView, key: ClientObjectId, whole: SurfacePendingView, bare: SurfacePendingView)
    requires
        bare == (SurfacePendingView {
            damage_surface: bare.damage_surface,
            damage_buffer: bare.damage_buffer,
            ..whole
        }),
    ensures
        s.commit_surface(key, bare) == s.commit_surface(key, whole),
{
    assert forall|x: SurfaceView| #[trigger] x.committed(bare) == x.committed(whole) && x.replaced(bare) == x.replaced(
        whole,
    ) by {}
    let f = |x: SurfaceView| x.committed(bare);
    let g = |x: SurfaceView| x.committed(whole);
    assert(s.surf.surfaces.edit(key, f) == s.surf.surfaces.edit(key, g));
    if s.surf.surfaces.has(key) {
        let x = s.surf.surfaces.at(key);
        assert(x.committed(bare) == x.committed(whole));
        assert(x.replaced(bare) == x.replaced(whole));
    }
}

} // verus!
