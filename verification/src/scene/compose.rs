//! Building the scene of an output.
use crate::keys::blank;
use crate::layer::{geometry, keys_in_band};
use crate::scene::images::{CacheView, SceneCache};
use crate::scene::paint::{
    ContentView, elements_view, ElementView, Painting, PaintingView, Quad, SceneContent,
    SceneElement,
};
use crate::seqs::back_to_front;
use crate::shell::Shell;
use crate::state::compositor_state::{CompositorState, StateView};
use crate::state::surfaces::moved;
use crate::state::types::{
    ClientObjectId, minus, Output, OutputId, OutputMode, OutputView, saturate, Scale, TextureRect,
    to_i32,
};
use vstd::prelude::*;

verus! {

/// The bell flash: translucent white over the whole output. The alpha is what
/// makes it a flash rather than a blank screen - the windows stay readable
/// underneath it.
pub const BELL_FLASH_COLOR: u32 = 0x60ff_ffff;

/// The flag of the mode an output is in.
pub const OUTPUT_MODE_CURRENT: u32 = 1;

/// One thing to draw.
pub enum SceneItem {
    /// A quad
    Element(SceneElement),
    /// A window's whole surface tree as one quad, for the shell to give its
    /// presentation to. The elements are placed within the quad.
    Group { window: ClientObjectId, bounds: Quad, elements: Vec<SceneElement> },
}

/// What is known of one thing to draw.
#[verifier::ext_equal]
pub enum ItemView {
    Element(ElementView),
    Group { window: ClientObjectId, bounds: Quad, elements: Seq<ElementView> },
}

impl View for SceneItem {
    type V = ItemView;

    open spec fn view(&self) -> ItemView {
        match self {
            SceneItem::Element(e) => ItemView::Element(e@),
            SceneItem::Group { window, bounds, elements } => ItemView::Group {
                window: *window,
                bounds: *bounds,
                elements: elements_view(elements@),
            },
        }
    }
}

/// What is known of things to draw.
pub open spec fn items_view(s: Seq<SceneItem>) -> Seq<ItemView> {
    s.map_values(|i: SceneItem| i@)
}

/// Quads as things to draw.
pub open spec fn plain_items(es: Seq<ElementView>) -> Seq<ItemView> {
    es.map_values(|e: ElementView| ItemView::Element(e))
}

/// Everything to draw for one output, back to front.
pub struct Scene {
    /// The target output
    pub output_id: OutputId,
    /// What the output is cleared to before the elements go down
    pub background: u32,
    /// Distinguishes this scene from the last one composed for the same output
    pub serial: u64,
    /// The things to draw
    pub items: Vec<SceneItem>,
    /// How many physical pixels one of this scene's logical pixels covers
    pub scale: Scale,
    /// How big the output is, in logical pixels
    pub size: (i32, i32),
    /// The scene the damage is expressed against, if any
    pub damage_from: Option<u64>,
    /// What changed since then; nothing means all of it
    pub damage: Vec<TextureRect>,
}

/// What is known of a scene.
#[verifier::ext_equal]
pub struct SceneView {
    pub output_id: OutputId,
    pub background: u32,
    pub serial: u64,
    pub items: Seq<ItemView>,
    pub scale: Scale,
    pub size: (i32, i32),
    pub damage_from: Option<u64>,
    pub damage: Seq<TextureRect>,
}

impl View for Scene {
    type V = SceneView;

    open spec fn view(&self) -> SceneView {
        SceneView {
            output_id: self.output_id,
            background: self.background,
            serial: self.serial,
            items: items_view(self.items@),
            scale: self.scale,
            size: self.size,
            damage_from: self.damage_from,
            damage: self.damage@,
        }
    }
}

/// A scene being built, and the textures remembered meanwhile.
pub struct Work {
    pub cache: SceneCache,
    pub items: Vec<SceneItem>,
}

/// What is known of a scene being built.
#[verifier::ext_equal]
pub struct WorkView {
    pub cache: CacheView,
    pub items: Seq<ItemView>,
}

impl View for Work {
    type V = WorkView;

    open spec fn view(&self) -> WorkView {
        WorkView { cache: self.cache@, items: items_view(self.items@) }
    }
}

/// Where the leftmost of some quads begins.
pub open spec fn leftmost(es: Seq<ElementView>) -> int
    decreases es.len(),
{
    if es.len() <= 1 {
        es[0].dst.x as int
    } else {
        lesser(leftmost(es.drop_last()), es.last().dst.x as int)
    }
}

/// Where the topmost of some quads begins.
pub open spec fn topmost(es: Seq<ElementView>) -> int
    decreases es.len(),
{
    if es.len() <= 1 {
        es[0].dst.y as int
    } else {
        lesser(topmost(es.drop_last()), es.last().dst.y as int)
    }
}

/// Where the rightmost of some quads ends.
pub open spec fn rightmost(es: Seq<ElementView>) -> int
    decreases es.len(),
{
    if es.len() <= 1 {
        es[0].dst.x + es[0].dst.width
    } else {
        greater(rightmost(es.drop_last()), es.last().dst.x + es.last().dst.width)
    }
}

/// Where the lowest of some quads ends.
pub open spec fn lowest(es: Seq<ElementView>) -> int
    decreases es.len(),
{
    if es.len() <= 1 {
        es[0].dst.y + es[0].dst.height
    } else {
        greater(lowest(es.drop_last()), es.last().dst.y + es.last().dst.height)
    }
}

/// The lesser of two numbers.
pub open spec fn lesser(a: int, b: int) -> int {
    if a < b {
        a
    } else {
        b
    }
}

/// The greater of two numbers.
pub open spec fn greater(a: int, b: int) -> int {
    if a < b {
        b
    } else {
        a
    }
}

/// A quad moved up and to the left.
pub open spec fn shifted(e: ElementView, x: int, y: int) -> ElementView {
    ElementView { dst: Quad { x: (e.dst.x - x) as i64, y: (e.dst.y - y) as i64, ..e.dst }, ..e }
}

/// Quads moved up and to the left.
pub open spec fn all_shifted(es: Seq<ElementView>, x: int, y: int) -> Seq<ElementView> {
    es.map_values(|e: ElementView| shifted(e, x, y))
}

/// A window's quads as one: the box around them, and each within it.
pub open spec fn grouped(window: ClientObjectId, es: Seq<ElementView>) -> ItemView {
    let (x, y) = (leftmost(es), topmost(es));
    ItemView::Group {
        window,
        bounds: Quad {
            x: x as i64,
            y: y as i64,
            width: (rightmost(es) - x) as i64,
            height: (lowest(es) - y) as i64,
        },
        elements: all_shifted(es, x, y),
    }
}

/// Whether a quad's numbers are all small.
pub open spec fn tidy(q: Quad) -> bool {
    &&& i32::MIN <= q.x <= i32::MAX
    &&& i32::MIN <= q.y <= i32::MAX
    &&& i32::MIN <= q.width <= i32::MAX
    &&& i32::MIN <= q.height <= i32::MAX
}

/// Whether every quad's numbers are small.
pub open spec fn all_tidy(es: Seq<ElementView>) -> bool {
    forall|i: int| 0 <= i < es.len() ==> tidy((#[trigger] es[i]).dst)
}

/// Drawing a surface lays out small numbers only.
pub proof fn lemma_surface_tidy(p: PaintingView, state: StateView, key: ClientObjectId, at: (i32, i32))
    requires
        all_tidy(p.elements),
    ensures
        all_tidy(p.surface(state, key, at).elements),
{
}

/// Drawing a tree lays out small numbers only.
pub proof fn lemma_tree_tidy(p: PaintingView, state: StateView, key: ClientObjectId, at: (i32, i32), fuel: nat)
    requires
        all_tidy(p.elements),
    ensures
        all_tidy(p.tree(state, key, at, fuel).elements),
    decreases fuel, 1nat, 0nat,
{
    if state.surf.surfaces.has(key) {
        let s = state.surf.surfaces.at(key);
        lemma_surface_tidy(p, state, key, at);
        lemma_children_tidy(p.surface(state, key, at), state, s.client_id, s.children, at, fuel);
    }
}

/// Drawing children lays out small numbers only.
pub proof fn lemma_children_tidy(
    p: PaintingView,
    state: StateView,
    client_id: u32,
    children: Seq<u32>,
    at: (i32, i32),
    fuel: nat,
)
    requires
        all_tidy(p.elements),
    ensures
        all_tidy(p.children(state, client_id, children, at, fuel).elements),
    decreases fuel, 0nat, children.len(),
{
    if children.len() > 0 && fuel > 0 {
        lemma_children_tidy(p, state, client_id, children.drop_last(), at, fuel);
        let before = p.children(state, client_id, children.drop_last(), at, fuel);
        let key = (client_id, children.last());
        if state.surf.surfaces.has(key) {
            lemma_tree_tidy(
                before,
                state,
                key,
                moved(at, state.surf.surfaces.at(key).subsurface_position),
                (fuel - 1) as nat,
            );
        }
    }
}

impl OutputView {
    /// The size of the mode an output is in: the first flagged as current.
    pub open spec fn current_mode(self) -> Option<(i32, i32)> {
        current_among(self.modes)
    }
}

/// The size of the first mode flagged as current.
pub open spec fn current_among(modes: Seq<OutputMode>) -> Option<(i32, i32)>
    decreases modes.len(),
{
    if modes.len() == 0 {
        None
    } else {
        match current_among(modes.drop_last()) {
            Some(size) => Some(size),
            None => if modes.last().flags % 2 == 1 {
                Some((modes.last().width, modes.last().height))
            } else {
                None
            },
        }
    }
}

/// Where something is on an output.
pub open spec fn on_output(at: (i32, i32), origin: (i32, i32)) -> (i32, i32) {
    (to_i32(at.0 - origin.0), to_i32(at.1 - origin.1))
}

impl PaintingView {
    /// With one layer surface drawn, if it has agreed a size and has a place.
    pub open spec fn layer(self, state: StateView, key: ClientObjectId, origin: (i32, i32)) -> Self {
        match state.layer_surface_of(key) {
            None => self,
            Some(k) => if state.layers.layer_surfaces.has(k) && state.layers.layer_surfaces.at(k).configured {
                match state.layer_geometry(k) {
                    Some(g) => self.whole_tree(state, key, on_output((g.x, g.y), origin)),
                    None => self,
                }
            } else {
                self
            },
        }
    }

    /// With layer surfaces drawn.
    pub open spec fn layers(self, state: StateView, keys: Seq<ClientObjectId>, origin: (i32, i32)) -> Self
        decreases keys.len(),
    {
        if keys.len() == 0 {
            self
        } else {
            self.layers(state, keys.drop_last(), origin).layer(state, keys.last(), origin)
        }
    }

    /// With the icon of a drag drawn where the pointer is, offset as its client
    /// attached it, if the pointer is on the output.
    pub open spec fn drag_icon(self, state: StateView, output: OutputView) -> Self {
        let c = state.input.cursor;
        match state.data.drag {
            Some(d) => match d.icon {
                Some(icon) => if output.shows(c.0 as int, c.1 as int) {
                    let offset = if state.surf.surfaces.has(icon) {
                        state.surf.surfaces.at(icon).offset
                    } else {
                        (0, 0)
                    };
                    self.whole_tree(
                        state,
                        icon,
                        (
                            to_i32(c.0 - output.geometry.x + offset.0),
                            to_i32(c.1 - output.geometry.y + offset.1),
                        ),
                    )
                } else {
                    self
                },
                None => self,
            },
            None => self,
        }
    }

    /// With the bell's flash over the whole output, if it has been rung.
    pub open spec fn bell(self, state: StateView, output: OutputView) -> Self {
        if state.out.bell_until.has(output.id) {
            self.plus(
                ElementView {
                    content: ContentView::Color(BELL_FLASH_COLOR),
                    dst: Quad { x: 0, y: 0, width: output.width as i64, height: output.height as i64 },
                    opaque: false,
                },
            )
        } else {
            self
        }
    }
}

impl WorkView {
    /// Nothing laid out, with the textures remembered so far.
    pub open spec fn blank(self) -> PaintingView {
        PaintingView { cache: self.cache, elements: Seq::empty() }
    }

    /// With what was laid out.
    pub open spec fn with(self, p: PaintingView) -> Self {
        WorkView { cache: p.cache, items: self.items + plain_items(p.elements) }
    }

    /// With what was laid out as one quad, if it was anything.
    pub open spec fn with_group(self, window: ClientObjectId, p: PaintingView) -> Self {
        WorkView {
            cache: p.cache,
            items: if p.elements.len() == 0 {
                self.items
            } else {
                self.items.push(grouped(window, p.elements))
            },
        }
    }

    /// With one window drawn: as its client committed it, or as one quad.
    pub open spec fn window<S: Shell>(
        self,
        state: StateView,
        shell: S,
        key: ClientObjectId,
        origin: (i32, i32),
    ) -> Self {
        if state.surf.surfaces.has(key) {
            let p = self.blank().whole_tree(state, key, on_output(state.surf.surfaces.at(key).position, origin));
            if shell.plain(key) {
                self.with(p)
            } else {
                self.with_group(key, p)
            }
        } else {
            self
        }
    }

    /// With windows drawn, the first lowest.
    pub open spec fn windows<S: Shell>(
        self,
        state: StateView,
        shell: S,
        keys: Seq<ClientObjectId>,
        origin: (i32, i32),
    ) -> Self
        decreases keys.len(),
    {
        if keys.len() == 0 {
            self
        } else {
            self.windows(state, shell, keys.drop_last(), origin).window(state, shell, keys.last(), origin)
        }
    }

    /// With an output's contents drawn: the layers under the windows, the
    /// windows, the layers over them, what is being dragged, and the bell.
    pub open spec fn output<S: Shell>(self, state: StateView, shell: S, o: OutputView) -> Self {
        let origin = (o.geometry.x, o.geometry.y);
        let below = self.with(self.blank().layers(state, state.keys_in_band(o.id, false), origin));
        let windows = below.windows(state, shell, shell.stack_on(o.id), origin);
        windows.with(
            windows.blank().layers(state, state.keys_in_band(o.id, true), origin).drag_icon(state, o).bell(state, o),
        )
    }
}

impl StateView {
    /// The output to compose for, if it is there and in a mode.
    pub open spec fn showing(self, id: OutputId) -> Option<OutputView> {
        match self.output(id) {
            Some(o) => if o.current_mode() is Some {
                Some(o)
            } else {
                None
            },
            None => None,
        }
    }

    /// A scene being built, with all of an output's contents.
    pub open spec fn composed<S: Shell>(self, shell: S, cache: CacheView, id: OutputId) -> WorkView {
        let work = WorkView { cache, items: Seq::empty() };
        match self.showing(id) {
            Some(o) => work.output(self, shell, o),
            None => work,
        }
    }

    /// The scene of an output.
    pub open spec fn scene<S: Shell>(self, shell: S, cache: CacheView, id: OutputId, serial: u64) -> SceneView {
        SceneView {
            output_id: id,
            background: self.settings.background_color,
            serial,
            items: self.composed(shell, cache, id).items,
            scale: match self.showing(id) {
                Some(o) => o.scale,
                None => Scale(120),
            },
            size: match self.showing(id) {
                Some(o) => (o.width, o.height),
                None => (0, 0),
            },
            damage_from: None,
            damage: Seq::empty(),
        }
    }
}

/// Get the size (resolution) of the current mode of the provided output
pub fn current_mode_size(output: &Output) -> (r: Option<(i32, i32)>)
    ensures
        r == output@.current_mode(),
{
    let mut found: Option<(i32, i32)> = None;
    let mut i: usize = 0;
    while i < output.modes.len()
        invariant
            i <= output.modes@.len(),
            found == current_among(output.modes@.take(i as int)),
        decreases output.modes@.len() - i,
    {
        proof {
            assert(output.modes@.take(i + 1).drop_last() =~= output.modes@.take(i as int));
        }
        let m = output.modes[i];
        if found.is_none() && m.flags % 2 == OUTPUT_MODE_CURRENT {
            found = Some((m.width, m.height));
        }
        i += 1;
    }
    proof {
        assert(output.modes@.take(i as int) =~= output.modes@);
    }
    found
}

fn move_onto(at: (i32, i32), origin: (i32, i32)) -> (r: (i32, i32))
    ensures
        r == on_output(at, origin),
{
    (minus(at.0, origin.0), minus(at.1, origin.1))
}

impl Painting {
    fn push_layer(&mut self, state: &CompositorState, key: ClientObjectId, origin: (i32, i32))
        ensures
            final(self)@ == old(self)@.layer(state@, key, origin),
    {
        if let Some(k) = state.layer_surface_of(key) {
            let configured: bool = match state.layers.layer_surfaces.get(k) {
                Some(l) => l.configured,
                None => false,
            };
            if configured {
                if let Some(g) = geometry(state, k) {
                    self.push_whole_tree(state, key, move_onto((g.x, g.y), origin));
                }
            }
        }
    }

    /// Draw one band of layer surfaces.
    ///
    /// Splitting the stack around the windows is the whole purpose of the
    /// protocol: a wallpaper is not a window drawn first, it is a thing that
    /// can never be above one.
    ///
    /// A layer surface that has not acknowledged a configure is skipped. Until
    /// it has, its size is something the compositor proposed and the client has
    /// not agreed to.
    fn push_layers(&mut self, state: &CompositorState, output_id: OutputId, above_windows: bool, origin: (i32, i32))
        ensures
            final(self)@ == old(self)@.layers(state@, state@.keys_in_band(output_id, above_windows), origin),
    {
        let keys = keys_in_band(state, output_id, above_windows);
        let mut i: usize = 0;
        while i < keys.len()
            invariant
                i <= keys@.len(),
                self@ == old(self)@.layers(state@, keys@.take(i as int), origin),
            decreases keys@.len() - i,
        {
            proof {
                assert(keys@.take(i + 1).drop_last() =~= keys@.take(i as int));
            }
            self.push_layer(state, keys[i], origin);
            i += 1;
        }
        proof {
            assert(keys@.take(i as int) =~= keys@);
        }
    }

    /// Add the icon of a drag in progress to the scene.
    ///
    /// The icon follows the pointer, offset by whatever the client attached it
    /// with. That offset is the only means a client has to position its icon.
    fn push_drag_icon(&mut self, state: &CompositorState, output: &Output)
        ensures
            final(self)@ == old(self)@.drag_icon(state@, output@),
    {
        let icon: ClientObjectId = match &state.data.drag {
            Some(d) => match d.icon {
                Some(icon) => icon,
                None => {
                    return;
                },
            },
            None => {
                return;
            },
        };
        let c: (i32, i32) = state.input.cursor;
        if !output.contains(c.0, c.1) {
            return;
        }
        let offset: (i32, i32) = match state.surf.surfaces.get(icon) {
            Some(s) => s.offset,
            None => (0, 0),
        };
        let x: i32 = saturate(c.0 as i64 - output.geometry.x as i64 + offset.0 as i64);
        let y: i32 = saturate(c.1 as i64 - output.geometry.y as i64 + offset.1 as i64);
        self.push_whole_tree(state, icon, (x, y));
    }

    /// Flash an output that a client has rung the bell on.
    ///
    /// A translucent quad over the whole display, drawn above every window so
    /// it cannot be missed, and below the cursor so the pointer stays visible
    /// while it is up.
    fn push_bell(&mut self, state: &CompositorState, output: &Output)
        ensures
            final(self)@ == old(self)@.bell(state@, output@),
    {
        if state.out.bell_until.contains(output.id) {
            let (width, height) = output.logical_size();
            self.push(
                SceneElement {
                    content: SceneContent::Color(BELL_FLASH_COLOR),
                    dst: Quad { x: 0, y: 0, width: width as i64, height: height as i64 },
                    opaque: false,
                },
            );
        }
    }
}

fn bounds_of(es: &Vec<SceneElement>) -> (r: (i64, i64, i64, i64))
    requires
        es@.len() > 0,
        all_tidy(elements_view(es@)),
    ensures
        r.0 == leftmost(elements_view(es@)),
        r.1 == topmost(elements_view(es@)),
        r.2 == rightmost(elements_view(es@)),
        r.3 == lowest(elements_view(es@)),
        i32::MIN <= r.0 <= i32::MAX,
        i32::MIN <= r.1 <= i32::MAX,
        2 * i32::MIN <= r.2 <= 2 * i32::MAX,
        2 * i32::MIN <= r.3 <= 2 * i32::MAX,
{
    let ghost all = elements_view(es@);
    let first = es[0].dst;
    proof {
        assert(all[0].dst == first);
        assert(all.take(1)[0] == all[0]);
    }
    let (mut x, mut y): (i64, i64) = (first.x, first.y);
    let (mut right, mut bottom): (i64, i64) = (first.x + first.width, first.y + first.height);
    let mut i: usize = 1;
    while i < es.len()
        invariant
            1 <= i <= all.len(),
            all == elements_view(es@),
            all_tidy(all),
            x == leftmost(all.take(i as int)),
            y == topmost(all.take(i as int)),
            right == rightmost(all.take(i as int)),
            bottom == lowest(all.take(i as int)),
            i32::MIN <= x <= i32::MAX,
            i32::MIN <= y <= i32::MAX,
            2 * i32::MIN <= right <= 2 * i32::MAX,
            2 * i32::MIN <= bottom <= 2 * i32::MAX,
        decreases all.len() - i,
    {
        let q = es[i].dst;
        proof {
            assert(all[i as int].dst == q);
            assert(tidy(all[i as int].dst));
            assert(all.take(i + 1).drop_last() =~= all.take(i as int));
            assert(all.take(i + 1).last() == all[i as int]);
        }
        if q.x <= x {
            x = q.x;
        }
        if q.y <= y {
            y = q.y;
        }
        if q.x + q.width > right {
            right = q.x + q.width;
        }
        if q.y + q.height > bottom {
            bottom = q.y + q.height;
        }
        i += 1;
    }
    proof {
        assert(all.take(i as int) =~= all);
    }
    (x, y, right, bottom)
}

fn push_element(v: &mut Vec<SceneElement>, e: SceneElement)
    ensures
        elements_view(final(v)@) == elements_view(old(v)@).push(e@),
{
    v.push(e);
    proof {
        assert(elements_view(v@) =~= elements_view(old(v)@).push(e@));
    }
}

fn shift(e: SceneElement, x: i64, y: i64) -> (r: SceneElement)
    requires
        tidy(e.dst),
        i32::MIN <= x <= i32::MAX,
        i32::MIN <= y <= i32::MAX,
    ensures
        r@ == shifted(e@, x as int, y as int),
{
    let SceneElement { content, dst, opaque } = e;
    SceneElement {
        content,
        dst: Quad { x: dst.x - x, y: dst.y - y, width: dst.width, height: dst.height },
        opaque,
    }
}

fn shift_all(es: Vec<SceneElement>, x: i64, y: i64) -> (r: Vec<SceneElement>)
    requires
        all_tidy(elements_view(es@)),
        i32::MIN <= x <= i32::MAX,
        i32::MIN <= y <= i32::MAX,
    ensures
        elements_view(r@) == all_shifted(elements_view(es@), x as int, y as int),
{
    let ghost all = elements_view(es@);
    let mut rest = back_to_front(es);
    let mut r: Vec<SceneElement> = Vec::new();
    let n: usize = rest.len();
    let mut i: usize = 0;
    proof {
        assert(elements_view(r@) =~= all_shifted(all, x as int, y as int).take(0));
        assert forall|j: int| 0 <= j < rest@.len() implies (#[trigger] rest@[j])@ == all[n - 1 - j] by {
            assert(all[n - 1 - j] == es@[n - 1 - j]@);
        }
    }
    while i < n
        invariant
            i <= n,
            n == all.len(),
            all_tidy(all),
            i32::MIN <= x <= i32::MAX,
            i32::MIN <= y <= i32::MAX,
            rest@.len() == n - i,
            forall|j: int| 0 <= j < rest@.len() ==> (#[trigger] rest@[j])@ == all[n - 1 - j],
            elements_view(r@) == all_shifted(all, x as int, y as int).take(i as int),
        decreases n - i,
    {
        proof {
            assert(rest@[n - i - 1]@ == all[i as int]);
            assert(tidy(all[i as int].dst));
        }
        if let Some(e) = rest.pop() {
            push_element(&mut r, shift(e, x, y));
        }
        i += 1;
        proof {
            let shifted_all = all_shifted(all, x as int, y as int);
            assert(shifted_all.take(i as int) =~= shifted_all.take(i - 1).push(shifted_all[i - 1]));
        }
    }
    proof {
        assert(all_shifted(all, x as int, y as int).take(i as int) =~= all_shifted(all, x as int, y as int));
    }
    r
}

/// One window's surface tree as a single quad, for its presentation to apply
/// to. The quad is the tree's bounding box.
fn group_of(window: ClientObjectId, es: Vec<SceneElement>) -> (r: SceneItem)
    requires
        es@.len() > 0,
        all_tidy(elements_view(es@)),
    ensures
        r@ == grouped(window, elements_view(es@)),
{
    let (x, y, right, bottom) = bounds_of(&es);
    let bounds = Quad { x, y, width: right - x, height: bottom - y };
    SceneItem::Group { window, bounds, elements: shift_all(es, x, y) }
}

impl Work {
    fn push(&mut self, item: SceneItem)
        ensures
            final(self)@ == (WorkView { items: old(self)@.items.push(item@), ..old(self)@ }),
    {
        self.items.push(item);
        proof {
            assert(items_view(self.items@) =~= items_view(old(self).items@).push(item@));
        }
    }

    fn blank(&mut self) -> (r: Painting)
        ensures
            r@ == old(self)@.blank(),
            final(self)@.items == old(self)@.items,
    {
        let mut cache = SceneCache::new();
        core::mem::swap(&mut cache, &mut self.cache);
        Painting::new(cache)
    }

    fn with(&mut self, p: Painting)
        ensures
            final(self)@ == old(self)@.with(p@),
    {
        let Painting { cache, elements } = p;
        self.cache = cache;
        let ghost all = elements_view(elements@);
        let ghost before = self.items@;
        let mut rest = back_to_front(elements);
        let n: usize = rest.len();
        let mut i: usize = 0;
        let ghost cached = self@.cache;
        proof {
            assert(items_view(before) =~= items_view(before) + plain_items(all).take(0));
            assert forall|j: int| 0 <= j < rest@.len() implies (#[trigger] rest@[j])@ == all[n - 1 - j] by {
                assert(all[n - 1 - j] == elements@[n - 1 - j]@);
            }
        }
        while i < n
            invariant
                i <= n,
                n == all.len(),
                rest@.len() == n - i,
                forall|j: int| 0 <= j < rest@.len() ==> (#[trigger] rest@[j])@ == all[n - 1 - j],
                self@.cache == cached,
                items_view(self.items@) == items_view(before) + plain_items(all).take(i as int),
            decreases n - i,
        {
            proof {
                assert(rest@[n - i - 1]@ == all[i as int]);
            }
            if let Some(e) = rest.pop() {
                self.push(SceneItem::Element(e));
            }
            i += 1;
            proof {
                assert(items_view(self.items@) =~= items_view(before) + plain_items(all).take(i as int));
            }
        }
        proof {
            assert(plain_items(all).take(i as int) =~= plain_items(all));
        }
    }

    fn with_group(&mut self, window: ClientObjectId, p: Painting)
        requires
            all_tidy(p@.elements),
        ensures
            final(self)@ == old(self)@.with_group(window, p@),
    {
        let Painting { cache, elements } = p;
        self.cache = cache;
        if elements.len() > 0 {
            self.push(group_of(window, elements));
        }
    }

    fn push_window<S: Shell>(&mut self, state: &CompositorState, shell: &S, key: ClientObjectId, origin: (i32, i32))
        ensures
            final(self)@ == old(self)@.window(state@, *shell, key, origin),
    {
        let position: (i32, i32) = match state.surf.surfaces.get(key) {
            Some(s) => s.position,
            None => {
                return;
            },
        };
        let mut p = self.blank();
        let at = move_onto(position, origin);
        p.push_whole_tree(state, key, at);
        if shell.is_plain(key) {
            self.with(p);
        } else {
            proof {
                lemma_tree_tidy(old(self)@.blank(), state@, key, at, state@.surface_count());
            }
            self.with_group(key, p);
        }
    }

    fn push_windows<S: Shell>(&mut self, state: &CompositorState, shell: &S, output_id: OutputId, origin: (i32, i32))
        ensures
            final(self)@ == old(self)@.windows(state@, *shell, shell.stack_on(output_id), origin),
    {
        let keys = shell.visible_stack(output_id);
        let mut i: usize = 0;
        while i < keys.len()
            invariant
                i <= keys@.len(),
                self@ == old(self)@.windows(state@, *shell, keys@.take(i as int), origin),
            decreases keys@.len() - i,
        {
            proof {
                assert(keys@.take(i + 1).drop_last() =~= keys@.take(i as int));
            }
            self.push_window(state, shell, keys[i], origin);
            i += 1;
        }
        proof {
            assert(keys@.take(i as int) =~= keys@);
        }
    }

    fn push_output<S: Shell>(&mut self, state: &CompositorState, shell: &S, output: &Output)
        ensures
            final(self)@ == old(self)@.output(state@, *shell, output@),
    {
        let origin: (i32, i32) = (output.geometry.x, output.geometry.y);
        let mut below = self.blank();
        below.push_layers(state, output.id, false, origin);
        self.with(below);
        self.push_windows(state, shell, output.id, origin);
        let mut above = self.blank();
        above.push_layers(state, output.id, true, origin);
        above.push_drag_icon(state, output);
        above.push_bell(state, output);
        self.with(above);
    }
}

/// Build the scene for one output.
pub fn build<S: Shell>(
    output_id: OutputId,
    serial: u64,
    state: &CompositorState,
    shell: &S,
    cache: &mut SceneCache,
) -> (r: Scene)
    ensures
        r@ == state@.scene(*shell, old(cache)@, output_id, serial),
        final(cache)@ == state@.composed(*shell, old(cache)@, output_id).cache,
{
    let mut taken = SceneCache::new();
    core::mem::swap(&mut taken, cache);
    let mut work = Work { cache: taken, items: Vec::new() };
    proof {
        assert(work@.items =~= Seq::<ItemView>::empty());
    }
    let mut scale = Scale(120);
    let mut size: (i32, i32) = (0, 0);
    if let Some(output) = state.output(output_id) {
        if current_mode_size(output).is_some() {
            scale = output.scale;
            size = (output.width, output.height);
            work.push_output(state, shell, output);
        }
    }
    let Work { cache: used, items } = work;
    *cache = used;
    let r = Scene {
        output_id,
        background: state.settings.background_color,
        serial,
        items,
        scale,
        size,
        damage_from: None,
        damage: Vec::new(),
    };
    proof {
        assert(r@.damage =~= Seq::<TextureRect>::empty());
    }
    r
}

} // verus!
