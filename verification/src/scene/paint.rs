//! Laying surfaces out as quads.
use crate::scene::images::{
    CacheView, ensure_image, ImageView, RetainedSurface, RetainedView, SceneCache, TextureImage,
};
use crate::state::compositor_state::{CompositorState, StateView};
use crate::state::surfaces::{move_by, moved};
use crate::state::types::{
    BufferMapping, BufferTransform, ClientObjectId, FixedRect64, plus, RegionOp, RegionRect,
    Surface, to_i32,
};
use vstd::prelude::*;

verus! {

/// A rectangle on an output, in logical pixels.
#[derive(Debug, Clone, Copy, PartialEq, Eq, Structural)]
pub struct Quad {
    pub x: i64,
    pub y: i64,
    pub width: i64,
    pub height: i64,
}

/// What fills a quad.
pub enum SceneContent {
    /// A texture, cropped and stretched into the destination.
    Texture { image: TextureImage, src: FixedRect64, transform: BufferTransform },
    /// A solid fill, as straight `0xAARRGGBB`.
    Color(u32),
}

/// What is known of what fills a quad.
#[verifier::ext_equal]
pub enum ContentView {
    Texture { image: ImageView, src: FixedRect64, transform: BufferTransform },
    Color(u32),
}

impl View for SceneContent {
    type V = ContentView;

    open spec fn view(&self) -> ContentView {
        match self {
            SceneContent::Texture { image, src, transform } => ContentView::Texture {
                image: image@,
                src: *src,
                transform: *transform,
            },
            SceneContent::Color(c) => ContentView::Color(*c),
        }
    }
}

/// One quad, in an output's logical coordinates.
pub struct SceneElement {
    pub content: SceneContent,
    pub dst: Quad,
    /// Whether the client has promised that the whole quad is opaque
    pub opaque: bool,
}

/// What is known of a quad.
#[verifier::ext_equal]
pub struct ElementView {
    pub content: ContentView,
    pub dst: Quad,
    pub opaque: bool,
}

impl View for SceneElement {
    type V = ElementView;

    open spec fn view(&self) -> ElementView {
        ElementView { content: self.content@, dst: self.dst, opaque: self.opaque }
    }
}

/// What is known of quads.
pub open spec fn elements_view(s: Seq<SceneElement>) -> Seq<ElementView> {
    s.map_values(|e: SceneElement| e@)
}

/// Quads being laid out, and the textures remembered meanwhile.
pub struct Painting {
    pub cache: SceneCache,
    pub elements: Vec<SceneElement>,
}

/// What is known of quads being laid out.
#[verifier::ext_equal]
pub struct PaintingView {
    pub cache: CacheView,
    pub elements: Seq<ElementView>,
}

impl View for Painting {
    type V = PaintingView;

    open spec fn view(&self) -> PaintingView {
        PaintingView { cache: self.cache@, elements: elements_view(self.elements@) }
    }
}

/// Whether a rectangle adds all of a surface to a region.
pub open spec fn adds_all(r: RegionRect, width: i32, height: i32) -> bool {
    &&& r.op == RegionOp::Add
    &&& r.x <= 0
    &&& r.y <= 0
    &&& to_i32(r.x + r.width) >= width
    &&& to_i32(r.y + r.height) >= height
}

/// Whether a rectangle takes any of a surface out of a region.
pub open spec fn takes_some(r: RegionRect, width: i32, height: i32) -> bool {
    &&& r.op == RegionOp::Subtract
    &&& r.x < width
    &&& r.y < height
    &&& to_i32(r.x + r.width) > 0
    &&& to_i32(r.y + r.height) > 0
}

/// Whether some region operations leave a surface covered outright by one
/// rectangle, of which nothing is taken out again.
pub open spec fn covers_all(rects: Seq<RegionRect>, width: i32, height: i32) -> bool
    decreases rects.len(),
{
    if rects.len() == 0 {
        false
    } else {
        adds_all(rects.last(), width, height) || (covers_all(rects.drop_last(), width, height) && !takes_some(
            rects.last(),
            width,
            height,
        ))
    }
}

/// Whether a client has promised its whole surface is opaque.
pub open spec fn opaque(region: Option<Seq<RegionRect>>, width: i32, height: i32) -> bool {
    match region {
        Some(rects) => covers_all(rects, width, height),
        None => false,
    }
}

/// The quad of a texture.
pub open spec fn textured(
    image: ImageView,
    mapping: BufferMapping,
    transform: BufferTransform,
    at: (i32, i32),
    opaque: bool,
) -> ElementView {
    ElementView {
        content: ContentView::Texture { image, src: mapping.src, transform },
        dst: Quad {
            x: at.0 as i64,
            y: at.1 as i64,
            width: mapping.dest_width as i64,
            height: mapping.dest_height as i64,
        },
        opaque,
    }
}

impl StateView {
    /// What a surface can be drawn with: its buffer as it is now, if that can
    /// be shown.
    pub open spec fn current_content(self, cache: CacheView, key: ClientObjectId) -> Option<RetainedView> {
        let s = self.surf.surfaces.at(key);
        match (self.buffer_mapping(key), self.image_of(cache, (s.client_id, s.buffer_id->0))) {
            (Some(mapping), Some(image)) => Some(RetainedView { image, mapping, transform: s.buffer_transform }),
            _ => None,
        }
    }

    /// The cache after a surface's buffer has been looked at.
    pub open spec fn looked_at(self, cache: CacheView, key: ClientObjectId) -> CacheView {
        let s = self.surf.surfaces.at(key);
        if self.buffer_mapping(key) is Some {
            self.image_cached(cache, (s.client_id, s.buffer_id->0))
        } else {
            cache
        }
    }
}

impl PaintingView {
    /// With one more quad.
    pub open spec fn plus(self, e: ElementView) -> Self {
        PaintingView { elements: self.elements.push(e), ..self }
    }

    /// With a surface drawn with a content.
    pub open spec fn draw(self, state: StateView, key: ClientObjectId, at: (i32, i32), c: RetainedView) -> Self {
        self.plus(
            textured(
                c.image,
                c.mapping,
                c.transform,
                at,
                opaque(state.surf.surfaces.at(key).opaque_region, c.mapping.dest_width, c.mapping.dest_height),
            ),
        )
    }

    /// With one surface drawn, if it has a buffer: with what is in it, which is
    /// remembered, or failing that with what it was last drawn with.
    pub open spec fn surface(self, state: StateView, key: ClientObjectId, at: (i32, i32)) -> Self {
        if !state.surf.surfaces.has(key) || state.surf.surfaces.at(key).buffer_id is None {
            self
        } else {
            let looked = PaintingView { cache: state.looked_at(self.cache, key), ..self };
            match state.current_content(self.cache, key) {
                Some(c) => PaintingView {
                    cache: CacheView { retained: looked.cache.retained.put(key, c), ..looked.cache },
                    ..looked
                }.draw(state, key, at, c),
                None => if looked.cache.retained.has(key) {
                    looked.draw(state, key, at, looked.cache.retained.at(key))
                } else {
                    looked
                },
            }
        }
    }

    /// With a surface drawn and its children over it, the first lowest.
    pub open spec fn tree(self, state: StateView, key: ClientObjectId, at: (i32, i32), fuel: nat) -> Self
        decreases fuel, 1nat, 0nat,
    {
        if !state.surf.surfaces.has(key) {
            self
        } else {
            let s = state.surf.surfaces.at(key);
            self.surface(state, key, at).children(state, s.client_id, s.children, at, fuel)
        }
    }

    /// With some children drawn, the first lowest.
    pub open spec fn children(
        self,
        state: StateView,
        client_id: u32,
        children: Seq<u32>,
        at: (i32, i32),
        fuel: nat,
    ) -> Self
        decreases fuel, 0nat, children.len(),
    {
        if children.len() == 0 || fuel == 0 {
            self
        } else {
            let before = self.children(state, client_id, children.drop_last(), at, fuel);
            let key = (client_id, children.last());
            if state.surf.surfaces.has(key) {
                before.tree(
                    state,
                    key,
                    moved(at, state.surf.surfaces.at(key).subsurface_position),
                    (fuel - 1) as nat,
                )
            } else {
                before
            }
        }
    }

    /// With a whole surface tree drawn.
    pub open spec fn whole_tree(self, state: StateView, key: ClientObjectId, at: (i32, i32)) -> Self {
        self.tree(state, key, at, state.surface_count())
    }
}

/// Whether a client has promised its whole surface is opaque.
///
/// Only a region covering the surface outright counts. A partial promise is
/// real information, but acting on it would mean splitting the quad along the
/// region's edges, and one quad per window is what makes this simple - so the
/// useful case, a window that says all of it is opaque, is the one taken.
pub fn surface_is_opaque(surface: &Surface, width: i32, height: i32) -> (r: bool)
    ensures
        r == opaque(surface@.opaque_region, width, height),
{
    let rects = match &surface.opaque_region {
        Some(rects) => rects,
        None => {
            return false;
        },
    };
    let mut covered: bool = false;
    let mut i: usize = 0;
    while i < rects.len()
        invariant
            i <= rects@.len(),
            covered == covers_all(rects@.take(i as int), width, height),
        decreases rects@.len() - i,
    {
        proof {
            assert(rects@.take(i + 1).drop_last() =~= rects@.take(i as int));
        }
        let r = rects[i];
        let (right, bottom) = (plus(r.x, r.width), plus(r.y, r.height));
        match r.op {
            RegionOp::Add => {
                covered = covered || (r.x <= 0 && r.y <= 0 && right >= width && bottom >= height);
            },
            RegionOp::Subtract => {
                covered = covered && !(r.x < width && r.y < height && right > 0 && bottom > 0);
            },
        }
        i += 1;
    }
    proof {
        assert(rects@.take(i as int) =~= rects@);
    }
    covered
}

impl Painting {
    /// Nothing laid out yet
    pub fn new(cache: SceneCache) -> (r: Self)
        ensures
            r@ == (PaintingView { cache: cache@, elements: Seq::empty() }),
    {
        let r = Painting { cache, elements: Vec::new() };
        proof {
            assert(elements_view(r.elements@) =~= Seq::<ElementView>::empty());
        }
        r
    }

    /// Lay out one more quad
    pub fn push(&mut self, e: SceneElement)
        ensures
            final(self)@ == old(self)@.plus(e@),
    {
        self.elements.push(e);
        proof {
            assert(elements_view(self.elements@) =~= elements_view(old(self).elements@).push(e@));
        }
    }

    fn draw(
        &mut self,
        state: &CompositorState,
        key: ClientObjectId,
        at: (i32, i32),
        image: TextureImage,
        mapping: BufferMapping,
        transform: BufferTransform,
    )
        requires
            state@.surf.surfaces.has(key),
        ensures
            final(self)@ == old(self)@.draw(state@, key, at, RetainedView { image: image@, mapping, transform }),
    {
        let opaque: bool = match state.surf.surfaces.get(key) {
            Some(s) => surface_is_opaque(s, mapping.dest_width, mapping.dest_height),
            None => false,
        };
        self.push(
            SceneElement {
                content: SceneContent::Texture { image, src: mapping.src, transform },
                dst: Quad {
                    x: at.0 as i64,
                    y: at.1 as i64,
                    width: mapping.dest_width as i64,
                    height: mapping.dest_height as i64,
                },
                opaque,
            },
        );
    }

    fn draw_retained(&mut self, state: &CompositorState, key: ClientObjectId, at: (i32, i32))
        requires
            state@.surf.surfaces.has(key),
        ensures
            final(self)@ == if old(self)@.cache.retained.has(key) {
                old(self)@.draw(state@, key, at, old(self)@.cache.retained.at(key))
            } else {
                old(self)@
            },
    {
        let (image, mapping, transform) = match self.cache.retained.get(key) {
            Some(r) => (r.image.again(), r.mapping, r.transform),
            None => {
                return;
            },
        };
        self.draw(state, key, at, image, mapping, transform);
    }

    fn draw_current(
        &mut self,
        state: &CompositorState,
        key: ClientObjectId,
        at: (i32, i32),
        image: TextureImage,
        mapping: BufferMapping,
        transform: BufferTransform,
    )
        requires
            state@.surf.surfaces.has(key),
        ensures
            final(self)@ == (PaintingView {
                cache: CacheView {
                    retained: old(self)@.cache.retained.put(key, RetainedView { image: image@, mapping, transform }),
                    ..old(self)@.cache
                },
                ..old(self)@
            }).draw(state@, key, at, RetainedView { image: image@, mapping, transform }),
    {
        let kept = RetainedSurface { image: image.again(), mapping, transform };
        self.cache.retained.insert(key, kept);
        self.draw(state, key, at, image, mapping, transform);
    }

    /// Add one surface's buffer to the scene, if it has one.
    ///
    /// The source crop and destination size come from the same mapping the
    /// damage path runs backwards. Clipping to the output is left to the GPU.
    pub fn push_surface(&mut self, state: &CompositorState, key: ClientObjectId, at: (i32, i32))
        ensures
            final(self)@ == old(self)@.surface(state@, key, at),
    {
        let (client_id, buffer_id, transform): (u32, u32, BufferTransform) = match state.surf.surfaces.get(key) {
            Some(s) => match s.buffer_id {
                Some(b) => (s.client_id, b, s.buffer_transform),
                None => {
                    return;
                },
            },
            None => {
                return;
            },
        };
        match state.surface_buffer_mapping(key) {
            Some(mapping) => {
                match ensure_image(state, &mut self.cache, (client_id, buffer_id)) {
                    Some(image) => {
                        self.draw_current(state, key, at, image, mapping, transform);
                    },
                    None => {
                        self.draw_retained(state, key, at);
                    },
                }
            },
            None => {
                self.draw_retained(state, key, at);
            },
        }
    }

    fn push_surface_tree(&mut self, state: &CompositorState, key: ClientObjectId, at: (i32, i32), fuel: usize)
        ensures
            final(self)@ == old(self)@.tree(state@, key, at, fuel as nat),
        decreases fuel,
    {
        let s = match state.surf.surfaces.get(key) {
            Some(s) => s,
            None => {
                return;
            },
        };
        self.push_surface(state, key, at);
        let ghost painted = self@;
        if fuel == 0 {
            return;
        }
        let mut i: usize = 0;
        while i < s.children.len()
            invariant
                i <= s.children@.len(),
                fuel > 0,
                self@ == painted.children(state@, s.client_id, s.children@.take(i as int), at, fuel as nat),
            decreases s.children@.len() - i,
        {
            proof {
                assert(s.children@.take(i + 1).drop_last() =~= s.children@.take(i as int));
            }
            let child = (s.client_id, s.children[i]);
            if let Some(c) = state.surf.surfaces.get(child) {
                self.push_surface_tree(state, child, move_by(at, c.subsurface_position), fuel - 1);
            }
            i += 1;
        }
        proof {
            assert(s.children@.take(i as int) =~= s.children@);
        }
    }

    /// Push an entire surface tree
    pub fn push_whole_tree(&mut self, state: &CompositorState, key: ClientObjectId, at: (i32, i32))
        ensures
            final(self)@ == old(self)@.whole_tree(state@, key, at),
    {
        self.push_surface_tree(state, key, at, state.surf.surfaces.len());
    }
}

} // verus!
