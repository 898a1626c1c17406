//! The pointer's own picture.
use crate::protocol::wire_utils::{push_word, word_bytes};
use crate::scene::compose::on_output;
use crate::scene::images::{
    CacheView, ImageView, PixelFormat, SceneCache, SourceView, TextureId, TextureImage,
    TextureSource,
};
use crate::scene::paint::{
    ContentView, elements_view, ElementView, Painting, PaintingView, Quad, SceneContent,
    SceneElement,
};
use crate::state::compositor_state::{CompositorState, StateView};
use crate::state::memory::serial_after;
use crate::state::types::{
    BufferTransform, ClientObjectId, DefaultCursor, DefaultCursorView, FixedRect64, minus,
    OutputId, OutputView, Surface,
};
use vstd::prelude::*;
use vstd::string::*;

verus! {

/// Black, for the built-in cursor
pub const CURSOR_BLACK: u32 = 0xff00_0000;

/// White, for the built-in cursor
pub const CURSOR_WHITE: u32 = 0xffff_ffff;

/// The width of the built-in cursor
pub const FALLBACK_CURSOR_WIDTH: i32 = 12;

/// The height of the built-in cursor
pub const FALLBACK_CURSOR_HEIGHT: i32 = 19;

/// A row of the built-in cursor: `B` black, `W` white, the rest clear.
pub open spec fn fallback_row(y: int) -> Seq<char> {
    if y == 0 {
        "B..........."@
    } else if y == 1 {
        "BB.........."@
    } else if y == 2 {
        "BWB........."@
    } else if y == 3 {
        "BWWB........"@
    } else if y == 4 {
        "BWWWB......."@
    } else if y == 5 {
        "BWWWWB......"@
    } else if y == 6 {
        "BWWWWWB....."@
    } else if y == 7 {
        "BWWWWWWB...."@
    } else if y == 8 {
        "BWWWWWWWB..."@
    } else if y == 9 {
        "BWWWWWWWWB.."@
    } else if y == 10 {
        "BWWWWWWWWWB."@
    } else if y == 11 {
        "BWWWWWWWWWWB"@
    } else if y == 12 {
        "BWWWWWWBBBBB"@
    } else if y == 13 {
        "BWWBWWWB...."@
    } else if y == 14 {
        "BWBB.BWWB..."@
    } else if y == 15 {
        "BB...BWWB..."@
    } else if y == 16 {
        "B.....BWWB.."@
    } else if y == 17 {
        "......BWWB.."@
    } else {
        ".......BB..."@
    }
}

/// The pixel a character of the built-in cursor stands for.
pub open spec fn fallback_pixel(c: char) -> u32 {
    if c == 'B' {
        CURSOR_BLACK
    } else if c == 'W' {
        CURSOR_WHITE
    } else {
        0
    }
}

/// The pixels of the built-in cursor, row by row.
pub open spec fn fallback_pixels() -> Seq<u32> {
    Seq::new(228, |i: int| fallback_pixel(fallback_row(i / 12)[i % 12]))
}

/// Pixels as bytes, each blue, green, red and alpha.
pub open spec fn pixel_bytes(pixels: Seq<u32>) -> Seq<u8>
    decreases pixels.len(),
{
    if pixels.len() == 0 {
        Seq::empty()
    } else {
        pixel_bytes(pixels.drop_last()) + word_bytes(pixels.last())
    }
}

/// A choice of how to draw the pointer.
#[derive(Debug, Clone, Copy, PartialEq, Eq)]
pub enum CursorChoice {
    /// The client under the pointer asked for no cursor.
    Hidden,
    /// Draw the client's own cursor surface at the given hotspot.
    Surface(ClientObjectId, i32, i32),
    /// Draw the theme's cursor for a shape the client named through
    /// `wp_cursor_shape_v1`.
    Shape(u32),
    /// The compositor picks: the theme's ordinary pointer, or the built-in one.
    Compositor,
}

/// The pointer cursor, kept out of the scene so that pointer motion neither
/// recomposes a scene nor perturbs its serial or damage.
pub struct Cursor {
    /// The output the pointer is over, if it is over one
    pub output: Option<OutputId>,
    /// The cursor's quads, in that output's coordinates
    pub elements: Vec<SceneElement>,
    /// Rises whenever the cursor's position or appearance changes
    pub serial: u64,
}

/// What is known of the cursor.
#[verifier::ext_equal]
pub struct CursorView {
    pub output: Option<OutputId>,
    pub elements: Seq<ElementView>,
    pub serial: u64,
}

impl View for Cursor {
    type V = CursorView;

    open spec fn view(&self) -> CursorView {
        CursorView { output: self.output, elements: elements_view(self.elements@), serial: self.serial }
    }
}

impl CursorView {
    /// No cursor at all.
    pub open spec fn nowhere() -> Self {
        CursorView { output: None, elements: Seq::empty(), serial: 0 }
    }
}

/// The first of some outputs that shows a point.
pub open spec fn first_showing(outputs: Seq<OutputView>, x: int, y: int) -> Option<OutputView>
    decreases outputs.len(),
{
    if outputs.len() == 0 {
        None
    } else {
        match first_showing(outputs.drop_last(), x, y) {
            Some(o) => Some(o),
            None => if outputs.last().shows(x, y) {
                Some(outputs.last())
            } else {
                None
            },
        }
    }
}

impl StateView {
    /// Whether a surface has something attached.
    pub open spec fn has_buffer(self, key: ClientObjectId) -> bool {
        self.surf.surfaces.has(key) && self.surf.surfaces.at(key).buffer_id is Some
    }

    /// How the pointer is to be drawn: as the client under it asked, if it has
    /// asked and what it asked for can be drawn.
    pub open spec fn client_cursor(self) -> CursorChoice {
        match self.input.pointer_surface {
            None => CursorChoice::Compositor,
            Some(p) => if self.cursors.cursor_shapes.has(p.0) {
                CursorChoice::Shape(self.cursors.cursor_shapes.at(p.0))
            } else {
                match self.cursors.cursor_surfaces.get(p.0) {
                    Some(Some((surface, x, y))) => if self.has_buffer((p.0, surface)) {
                        CursorChoice::Surface((p.0, surface), x, y)
                    } else {
                        CursorChoice::Compositor
                    },
                    Some(None) => CursorChoice::Hidden,
                    None => CursorChoice::Compositor,
                }
            },
        }
    }

    /// The shape to draw, if an image of it was loaded.
    pub open spec fn loaded_shape(self, choice: CursorChoice) -> Option<u32> {
        match choice {
            CursorChoice::Shape(n) => if self.cursors.cursor_shape_images.has(n) {
                Some(n)
            } else {
                None
            },
            _ => None,
        }
    }

    /// The theme's image for a shape, or for the ordinary pointer.
    pub open spec fn themed(self, shape: Option<u32>) -> Option<DefaultCursorView> {
        match shape {
            Some(n) => self.cursors.cursor_shape_images.get(n),
            None => self.cursors.default_cursor,
        }
    }

    /// The output the pointer is on.
    pub open spec fn pointed_output(self) -> Option<OutputView> {
        first_showing(self.out.outputs, self.input.cursor.0 as int, self.input.cursor.1 as int)
    }
}

/// The texture of a cursor image.
pub open spec fn cursor_texture(id: TextureId, serial: u64, width: i32, height: i32, pixels: Seq<u32>) -> ImageView {
    ImageView {
        id,
        serial,
        width,
        height,
        format: PixelFormat::Argb8888,
        source: SourceView::Pixels(pixel_bytes(pixels)),
    }
}

impl CacheView {
    /// With the themed slot empty if it holds another cursor.
    pub open spec fn for_shape(self, shape: Option<u32>) -> Self {
        if self.cursor_shape == shape {
            self
        } else {
            CacheView { default_cursor: None, cursor_shape: shape, ..self }
        }
    }

    /// With the texture of a cursor of the theme.
    pub open spec fn with_themed(self, shape: Option<u32>, c: DefaultCursorView) -> Self {
        let slot = self.for_shape(shape);
        if slot.default_cursor is Some {
            slot
        } else {
            let serial = serial_after(slot.next_cursor_serial);
            CacheView {
                default_cursor: Some(cursor_texture(TextureId::DefaultCursor, serial, c.width, c.height, c.pixels)),
                next_cursor_serial: serial,
                ..slot
            }
        }
    }

    /// With the texture of the built-in cursor.
    pub open spec fn with_fallback(self) -> Self {
        if self.fallback_cursor is Some {
            self
        } else {
            let serial = serial_after(self.next_cursor_serial);
            CacheView {
                fallback_cursor: Some(
                    cursor_texture(
                        TextureId::FallbackCursor,
                        serial,
                        FALLBACK_CURSOR_WIDTH,
                        FALLBACK_CURSOR_HEIGHT,
                        fallback_pixels(),
                    ),
                ),
                next_cursor_serial: serial,
                ..self
            }
        }
    }
}

/// The quad of a whole cursor texture.
pub open spec fn cursor_element(image: ImageView, at: (i32, i32)) -> ElementView {
    ElementView {
        content: ContentView::Texture {
            image,
            src: FixedRect64 {
                x: 0,
                y: 0,
                width: (image.width * 256) as i64,
                height: (image.height * 256) as i64,
            },
            transform: BufferTransform::Normal,
        },
        dst: Quad { x: at.0 as i64, y: at.1 as i64, width: image.width as i64, height: image.height as i64 },
        opaque: false,
    }
}

impl PaintingView {
    /// With the compositor's own cursor drawn: the theme's, or the built-in one.
    pub open spec fn own_cursor(self, state: StateView, shape: Option<u32>, at: (i32, i32)) -> Self {
        match state.themed(shape) {
            Some(c) => {
                let cache = self.cache.with_themed(shape, c);
                PaintingView { cache, ..self }.plus(
                    cursor_element(cache.default_cursor->0, on_output(at, (c.hotspot_x, c.hotspot_y))),
                )
            },
            None => {
                let cache = self.cache.with_fallback();
                PaintingView { cache, ..self }.plus(cursor_element(cache.fallback_cursor->0, at))
            },
        }
    }

    /// With the pointer drawn at a point of an output.
    pub open spec fn cursor(self, state: StateView, at: (i32, i32)) -> Self {
        match state.client_cursor() {
            CursorChoice::Hidden => self,
            CursorChoice::Surface(key, x, y) => self.surface(state, key, on_output(at, (x, y))),
            choice => self.own_cursor(state, state.loaded_shape(choice), at),
        }
    }
}

impl StateView {
    /// The pointer's quads, and the textures remembered.
    pub open spec fn cursor_painting(self, cache: CacheView) -> PaintingView {
        let blank = PaintingView { cache, elements: Seq::empty() };
        match self.pointed_output() {
            Some(o) => blank.cursor(self, on_output(self.input.cursor, (o.geometry.x, o.geometry.y))),
            None => blank,
        }
    }

    /// The pointer, in the coordinates of the output it is over.
    pub open spec fn cursor_now(self, cache: CacheView) -> CursorView {
        match self.pointed_output() {
            Some(o) => CursorView { output: Some(o.id), elements: self.cursor_painting(cache).elements, serial: 0 },
            None => CursorView::nowhere(),
        }
    }
}

fn row_text(y: usize) -> (r: &'static str)
    ensures
        r@ == fallback_row(y as int),
{
    match y {
        0 => "B...........",
        1 => "BB..........",
        2 => "BWB.........",
        3 => "BWWB........",
        4 => "BWWWB.......",
        5 => "BWWWWB......",
        6 => "BWWWWWB.....",
        7 => "BWWWWWWB....",
        8 => "BWWWWWWWB...",
        9 => "BWWWWWWWWB..",
        10 => "BWWWWWWWWWB.",
        11 => "BWWWWWWWWWWB",
        12 => "BWWWWWWBBBBB",
        13 => "BWWBWWWB....",
        14 => "BWBB.BWWB...",
        15 => "BB...BWWB...",
        16 => "B.....BWWB..",
        17 => "......BWWB..",
        _ => ".......BB...",
    }
}

proof fn lemma_row_length(y: int)
    ensures
        fallback_row(y).len() == 12,
{
    reveal_strlit("B...........");
    reveal_strlit("BB..........");
    reveal_strlit("BWB.........");
    reveal_strlit("BWWB........");
    reveal_strlit("BWWWB.......");
    reveal_strlit("BWWWWB......");
    reveal_strlit("BWWWWWB.....");
    reveal_strlit("BWWWWWWB....");
    reveal_strlit("BWWWWWWWB...");
    reveal_strlit("BWWWWWWWWB..");
    reveal_strlit("BWWWWWWWWWB.");
    reveal_strlit("BWWWWWWWWWWB");
    reveal_strlit("BWWWWWWBBBBB");
    reveal_strlit("BWWBWWWB....");
    reveal_strlit("BWBB.BWWB...");
    reveal_strlit("BB...BWWB...");
    reveal_strlit("B.....BWWB..");
    reveal_strlit("......BWWB..");
    reveal_strlit(".......BB...");
}

/// Rasterise the built-in cursor bitmap into premultiplied ARGB pixels.
pub fn fallback_cursor_pixels() -> (r: (i32, i32, Vec<u32>))
    ensures
        r.0 == FALLBACK_CURSOR_WIDTH,
        r.1 == FALLBACK_CURSOR_HEIGHT,
        r.2@ == fallback_pixels(),
{
    let mut pixels: Vec<u32> = Vec::new();
    let mut y: usize = 0;
    while y < 19
        invariant
            y <= 19,
            pixels@ == fallback_pixels().take(y * 12),
        decreases 19 - y,
    {
        let row = row_text(y);
        proof {
            lemma_row_length(y as int);
        }
        let mut x: usize = 0;
        while x < 12
            invariant
                y < 19,
                x <= 12,
                row@ == fallback_row(y as int),
                row@.len() == 12,
                pixels@ == fallback_pixels().take(y * 12 + x),
            decreases 12 - x,
        {
            let c = row.get_char(x);
            let p: u32 = if c == 'B' {
                CURSOR_BLACK
            } else if c == 'W' {
                CURSOR_WHITE
            } else {
                0
            };
            proof {
                let i = y * 12 + x;
                assert(i / 12 == y && i % 12 == x);
                assert(fallback_pixels()[i] == p);
            }
            pixels.push(p);
            x += 1;
            proof {
                assert(pixels@ =~= fallback_pixels().take(y * 12 + x));
            }
        }
        y += 1;
    }
    proof {
        assert(fallback_pixels().take(228) =~= fallback_pixels());
    }
    (FALLBACK_CURSOR_WIDTH, FALLBACK_CURSOR_HEIGHT, pixels)
}

/// Flatten `0xAARRGGBB` words into the little-endian `[B, G, R, A]` byte order
/// that shm buffers already use, so both take the same upload path.
pub fn argb_to_bytes(pixels: &Vec<u32>) -> (r: Vec<u8>)
    ensures
        r@ == pixel_bytes(pixels@),
{
    let mut out: Vec<u8> = Vec::new();
    let mut i: usize = 0;
    while i < pixels.len()
        invariant
            i <= pixels@.len(),
            out@ == pixel_bytes(pixels@.take(i as int)),
        decreases pixels@.len() - i,
    {
        proof {
            assert(pixels@.take(i + 1).drop_last() =~= pixels@.take(i as int));
        }
        push_word(&mut out, pixels[i]);
        i += 1;
    }
    proof {
        assert(pixels@.take(i as int) =~= pixels@);
    }
    out
}

/// Decide how to draw the pointer.
pub fn client_cursor(state: &CompositorState) -> (r: CursorChoice)
    ensures
        r == state@.client_cursor(),
{
    let client_id: u32 = match state.input.pointer_surface {
        Some(p) => p.0,
        None => {
            return CursorChoice::Compositor;
        },
    };
    if let Some(shape) = state.cursors.cursor_shapes.get(client_id) {
        return CursorChoice::Shape(*shape);
    }
    match state.cursors.cursor_surfaces.get(client_id) {
        Some(Some((surface, x, y))) => {
            let key = (client_id, *surface);
            match state.surf.surfaces.get(key) {
                Some(s) => if s.buffer_id.is_some() {
                    CursorChoice::Surface(key, *x, *y)
                } else {
                    CursorChoice::Compositor
                },
                None => CursorChoice::Compositor,
            }
        },
        Some(None) => CursorChoice::Hidden,
        None => CursorChoice::Compositor,
    }
}

fn texture_of(id: TextureId, serial: u64, width: i32, height: i32, pixels: &Vec<u32>) -> (r: TextureImage)
    ensures
        r@ == cursor_texture(id, serial, width, height, pixels@),
{
    TextureImage {
        id,
        serial,
        width,
        height,
        format: PixelFormat::Argb8888,
        source: TextureSource::Pixels(argb_to_bytes(pixels)),
    }
}

/// The serial after another.
pub fn next_serial_after(n: u64) -> (r: u64)
    ensures
        r == serial_after(n),
{
    if n == u64::MAX {
        0
    } else {
        n + 1
    }
}

/// The texture of a cursor of the theme, building it on first use.
fn ensure_themed(cache: &mut SceneCache, shape: Option<u32>, c: &DefaultCursor) -> (r: TextureImage)
    ensures
        final(cache)@ == old(cache)@.with_themed(shape, c@),
        Some(r@) == final(cache)@.default_cursor,
{
    let same: bool = match (cache.cursor_shape, shape) {
        (Some(a), Some(b)) => a == b,
        (None, None) => true,
        _ => false,
    };
    if !same {
        cache.default_cursor = None;
        cache.cursor_shape = shape;
    }
    if let Some(image) = &cache.default_cursor {
        return image.again();
    }
    let serial = next_serial_after(cache.next_cursor_serial);
    let image = texture_of(TextureId::DefaultCursor, serial, c.width, c.height, &c.pixels);
    cache.next_cursor_serial = serial;
    cache.default_cursor = Some(image.again());
    image
}

/// The texture of the built-in cursor, building it on first use.
fn ensure_fallback(cache: &mut SceneCache) -> (r: TextureImage)
    ensures
        final(cache)@ == old(cache)@.with_fallback(),
        Some(r@) == final(cache)@.fallback_cursor,
{
    if let Some(image) = &cache.fallback_cursor {
        return image.again();
    }
    let (width, height, pixels) = fallback_cursor_pixels();
    let serial = next_serial_after(cache.next_cursor_serial);
    let image = texture_of(TextureId::FallbackCursor, serial, width, height, &pixels);
    cache.next_cursor_serial = serial;
    cache.fallback_cursor = Some(image.again());
    image
}

fn element_of(image: TextureImage, at: (i32, i32)) -> (r: SceneElement)
    ensures
        r@ == cursor_element(image@, at),
{
    let (w, h): (i64, i64) = (image.width as i64, image.height as i64);
    SceneElement {
        content: SceneContent::Texture {
            image,
            src: FixedRect64 { x: 0, y: 0, width: w * 256, height: h * 256 },
            transform: BufferTransform::Normal,
        },
        dst: Quad { x: at.0 as i64, y: at.1 as i64, width: w, height: h },
        opaque: false,
    }
}

fn themed_cursor(state: &CompositorState, shape: Option<u32>) -> (r: Option<&DefaultCursor>)
    ensures
        match r {
            Some(c) => state@.themed(shape) == Some(c@),
            None => state@.themed(shape) is None,
        },
{
    match shape {
        Some(n) => state.cursors.cursor_shape_images.get(n),
        None => state.cursors.default_cursor.as_ref(),
    }
}

impl Painting {
    fn push_own_cursor(&mut self, state: &CompositorState, shape: Option<u32>, at: (i32, i32))
        ensures
            final(self)@ == old(self)@.own_cursor(state@, shape, at),
    {
        match themed_cursor(state, shape) {
            Some(c) => {
                let image = ensure_themed(&mut self.cache, shape, c);
                self.push(element_of(image, (minus(at.0, c.hotspot_x), minus(at.1, c.hotspot_y))));
            },
            None => {
                let image = ensure_fallback(&mut self.cache);
                self.push(element_of(image, at));
            },
        }
    }

    /// Add the pointer cursor, at a point of an output.
    ///
    /// A client that has set its own cursor surface gets that; a client that
    /// asked for a hidden cursor gets nothing. Otherwise the compositor draws
    /// the theme cursor, or its built-in one if no theme loaded.
    fn push_cursor(&mut self, state: &CompositorState, at: (i32, i32))
        ensures
            final(self)@ == old(self)@.cursor(state@, at),
    {
        match client_cursor(state) {
            CursorChoice::Hidden => {},
            CursorChoice::Surface(key, x, y) => {
                self.push_surface(state, key, (minus(at.0, x), minus(at.1, y)));
            },
            CursorChoice::Shape(n) => {
                let shape: Option<u32> = if state.cursors.cursor_shape_images.contains(n) {
                    Some(n)
                } else {
                    None
                };
                self.push_own_cursor(state, shape, at);
            },
            CursorChoice::Compositor => {
                self.push_own_cursor(state, None, at);
            },
        }
    }
}

fn pointed_output(state: &CompositorState) -> (r: Option<usize>)
    ensures
        match r {
            Some(i) => i < state.out.outputs@.len() && state@.pointed_output() == Some(state.out.outputs@[i as int]@),
            None => state@.pointed_output() is None,
        },
{
    let ghost all = state@.out.outputs;
    let (x, y): (i32, i32) = state.input.cursor;
    let mut found: Option<usize> = None;
    let mut i: usize = 0;
    while i < state.out.outputs.len()
        invariant
            i <= all.len(),
            all == state@.out.outputs,
            (x, y) == state.input.cursor,
            match found {
                Some(k) => k < i && first_showing(all.take(i as int), x as int, y as int) == Some(
                    state.out.outputs@[k as int]@,
                ),
                None => first_showing(all.take(i as int), x as int, y as int) is None,
            },
        decreases all.len() - i,
    {
        proof {
            assert(all.take(i + 1).drop_last() =~= all.take(i as int));
            assert(all[i as int] == state.out.outputs@[i as int]@);
        }
        if found.is_none() && state.out.outputs[i].contains(x, y) {
            found = Some(i);
        }
        i += 1;
    }
    proof {
        assert(all.take(i as int) =~= all);
    }
    found
}

/// Build the pointer cursor, positioned in the coordinates of the output it is
/// over.
pub fn build_cursor(state: &CompositorState, cache: &mut SceneCache) -> (r: Cursor)
    ensures
        r@ == state@.cursor_now(old(cache)@),
        final(cache)@ == state@.cursor_painting(old(cache)@).cache,
{
    let output = match pointed_output(state) {
        Some(i) => &state.out.outputs[i],
        None => {
            let r = Cursor { output: None, elements: Vec::new(), serial: 0 };
            proof {
                assert(r@.elements =~= Seq::<ElementView>::empty());
            }
            return r;
        },
    };
    let mut taken = SceneCache::new();
    core::mem::swap(&mut taken, cache);
    let mut p = Painting::new(taken);
    let at: (i32, i32) = (
        minus(state.input.cursor.0, output.geometry.x),
        minus(state.input.cursor.1, output.geometry.y),
    );
    p.push_cursor(state, at);
    let Painting { cache: used, elements } = p;
    *cache = used;
    Cursor { output: Some(output.id), elements, serial: 0 }
}

} // verus!
