//! Where a layer surface goes, and what room it leaves behind.
//!
//! A layer surface is placed by the compositor rather than by itself: it names
//! the edges it wants to stick to, a size, and some margins, and the
//! compositor works out the rectangle. Two separate things need that
//! arithmetic - placing the surface, and working out how much of the output is
//! left for windows - and they must agree, or a panel reserves space somewhere
//! it is not.
use crate::seqs::lemma_filter_push;
use crate::state::compositor_state::{CompositorState, StateView};
use crate::state::types::{
    Anchor, ClientObjectId, LayerSurfaceState, LayerSurfaceStatePending, LayerSurfaceStateView,
    Output, OutputId, OutputView, plus, same_key, saturate, to_i32,
};
use vstd::prelude::*;
use vstd::relations::{sorted_by, total_ordering};
use vstd::seq_lib::{lemma_sorted_unique, to_multiset_insert, to_multiset_build};

verus! {

/// A rectangle in the output's logical coordinates, relative to its origin.
#[derive(Debug, Clone, Copy, PartialEq, Eq, Structural)]
pub struct Rect {
    pub x: i32,
    pub y: i32,
    pub width: i32,
    pub height: i32,
}

/// Half of a number, rounded towards zero.
pub open spec fn half(n: int) -> int {
    if n >= 0 {
        n / 2
    } else {
        -((-n) / 2)
    }
}

pub fn halved(n: i64) -> (r: i64)
    requires
        n > i64::MIN,
    ensures
        r == half(n as int),
{
    if n >= 0 {
        n / 2
    } else {
        -((-n) / 2)
    }
}

/// The larger of a number and zero.
pub open spec fn at_least_zero(n: int) -> int {
    if n < 0 {
        0
    } else {
        n
    }
}

/// One axis of a placement: where a surface starts and how long it is, given
/// where the room for it starts and ends, whether it is anchored to either
/// end, the margins at the two ends, and the size asked for.
pub open spec fn placed_axis(
    start: int,
    length: int,
    to_start: bool,
    to_end: bool,
    margin_start: int,
    margin_end: int,
    asked: int,
) -> (int, int) {
    let low = start + if to_start { margin_start } else { 0 };
    let high = start + length - if to_end { margin_end } else { 0 };
    let span = at_least_zero(high - low);
    let size = if asked > 0 {
        asked
    } else if to_start && to_end {
        span
    } else {
        0
    };
    let at = if to_start && !to_end {
        low
    } else if to_end && !to_start {
        high - size
    } else {
        low + half(span - size)
    };
    (at, size)
}

/// Where a layer surface goes inside an area: both axes placed alike, with
/// what does not fit the number range brought within it.
pub open spec fn placed(area: Rect, layer: LayerSurfaceStatePending) -> Rect {
    let a = layer.anchor;
    let (top, right, bottom, left) = layer.margin;
    let h = placed_axis(area.x as int, area.width as int, a.left(), a.right(), left as int, right as int, layer.size.0 as int);
    let v = placed_axis(area.y as int, area.height as int, a.top(), a.bottom(), top as int, bottom as int, layer.size.1 as int);
    Rect { x: to_i32(h.0), y: to_i32(v.0), width: to_i32(h.1), height: to_i32(v.1) }
}

fn place_axis(
    start: i32,
    length: i32,
    to_start: bool,
    to_end: bool,
    margin_start: i32,
    margin_end: i32,
    asked: i32,
) -> (r: (i32, i32))
    ensures
        r.0 == to_i32(placed_axis(
            start as int,
            length as int,
            to_start,
            to_end,
            margin_start as int,
            margin_end as int,
            asked as int,
        ).0),
        r.1 == to_i32(placed_axis(
            start as int,
            length as int,
            to_start,
            to_end,
            margin_start as int,
            margin_end as int,
            asked as int,
        ).1),
{
    let low: i64 = start as i64 + if to_start { margin_start as i64 } else { 0 };
    let high: i64 = start as i64 + length as i64 - if to_end { margin_end as i64 } else { 0 };
    let span: i64 = if high - low < 0 { 0 } else { high - low };
    let size: i64 = if asked > 0 {
        asked as i64
    } else if to_start && to_end {
        span
    } else {
        0
    };
    let at: i64 = if to_start && !to_end {
        low
    } else if to_end && !to_start {
        high - size
    } else {
        low + halved(span - size)
    };
    (saturate(at), saturate(size))
}

/// Place one layer surface inside the area available to it.
///
/// The rules are the protocol's. A surface anchored to both edges of an axis
/// stretches across it and may ask for size zero on that axis, meaning "as big
/// as the anchor makes me". Anchored to one edge, it sits against that edge at
/// the size it asked for. Anchored to neither, it is centred. Margins push it
/// away from the edges it is anchored to.
pub fn place(area: Rect, layer: &LayerSurfaceStatePending) -> (r: Rect)
    ensures
        r == placed(area, *layer),
{
    let a = layer.anchor;
    let (top, right, bottom, left) = layer.margin;
    let (x, width) = place_axis(area.x, area.width, a.left(), a.right(), left, right, layer.size.0);
    let (y, height) = place_axis(area.y, area.height, a.top(), a.bottom(), top, bottom, layer.size.1);
    Rect { x, y, width, height }
}

impl Rect {
    /// Nothing at all.
    pub open spec fn none() -> Self {
        Rect { x: 0, y: 0, width: 0, height: 0 }
    }

    /// The whole of an output, which is where placement starts from.
    pub open spec fn whole(output: OutputView) -> Self {
        Rect { x: 0, y: 0, width: output.width, height: output.height }
    }

    /// The rectangle with an amount taken off one edge: the one edge of an
    /// axis that a surface spanning the other axis is anchored to.
    pub open spec fn shrunk(self, anchor: Anchor, amount: i32) -> Self {
        let n = at_least_zero(amount as int);
        if anchor.spans_horizontally() && anchor.top() && !anchor.bottom() {
            Rect { y: to_i32(self.y + n), height: to_i32(at_least_zero(self.height - n)), ..self }
        } else if anchor.spans_horizontally() && anchor.bottom() && !anchor.top() {
            Rect { height: to_i32(at_least_zero(self.height - n)), ..self }
        } else if anchor.spans_vertically() && anchor.left() && !anchor.right() {
            Rect { x: to_i32(self.x + n), width: to_i32(at_least_zero(self.width - n)), ..self }
        } else if anchor.spans_vertically() && anchor.right() && !anchor.left() {
            Rect { width: to_i32(at_least_zero(self.width - n)), ..self }
        } else {
            self
        }
    }

    /// The whole of an output.
    fn of_output(output: &Output) -> (r: Self)
        ensures
            r == Self::whole(output@),
    {
        let (width, height) = output.logical_size();
        Rect { x: 0, y: 0, width, height }
    }

    /// Take `amount` off one edge, as an exclusive zone does.
    pub fn shrink(self, anchor: Anchor, amount: i32) -> (r: Self)
        ensures
            r == self.shrunk(anchor, amount),
    {
        let n: i64 = if amount < 0 { 0 } else { amount as i64 };
        let height: i32 = saturate(if (self.height as i64) < n { 0 } else { self.height as i64 - n });
        let width: i32 = saturate(if (self.width as i64) < n { 0 } else { self.width as i64 - n });
        if anchor.spans_horizontally() && anchor.top() && !anchor.bottom() {
            return Rect { x: self.x, y: saturate(self.y as i64 + n), width: self.width, height };
        }
        if anchor.spans_horizontally() && anchor.bottom() && !anchor.top() {
            return Rect { x: self.x, y: self.y, width: self.width, height };
        }
        if anchor.spans_vertically() && anchor.left() && !anchor.right() {
            return Rect { x: saturate(self.x as i64 + n), y: self.y, width, height: self.height };
        }
        if anchor.spans_vertically() && anchor.right() && !anchor.left() {
            return Rect { x: self.x, y: self.y, width, height: self.height };
        }
        self
    }
}

/// Every layer surface on an output placed, and what is left after them.
///
/// One pass, because placement and reservation are the same walk seen from two
/// ends and must not be computed apart. A surface's reservation is for
/// everything placed after it and for the windows. Never for itself.
pub struct Arrangement {
    pub placements: Vec<(ClientObjectId, Rect)>,
    /// What is left for ordinary windows once every reservation is taken.
    pub usable: Rect,
}

/// What an arrangement says.
#[verifier::ext_equal]
pub struct ArrangementView {
    pub placements: Seq<(ClientObjectId, Rect)>,
    pub usable: Rect,
}

impl View for Arrangement {
    type V = ArrangementView;

    open spec fn view(&self) -> ArrangementView {
        ArrangementView { placements: self.placements@, usable: self.usable }
    }
}

impl ArrangementView {
    /// The first placement of a surface among the first few.
    pub open spec fn placement_among(self, key: ClientObjectId, n: nat) -> Option<Rect>
        decreases n,
    {
        if n == 0 || n > self.placements.len() {
            None
        } else {
            match self.placement_among(key, (n - 1) as nat) {
                Some(r) => Some(r),
                None => if self.placements[n - 1].0 == key {
                    Some(self.placements[n - 1].1)
                } else {
                    None
                },
            }
        }
    }

    /// Where one layer surface was placed.
    pub open spec fn placement(self, key: ClientObjectId) -> Option<Rect> {
        self.placement_among(key, self.placements.len())
    }
}

impl Arrangement {
    /// Where one layer surface was placed, in output-local coordinates.
    pub fn placement(&self, key: ClientObjectId) -> (r: Option<Rect>)
        ensures
            r == self@.placement(key),
    {
        let mut found: Option<Rect> = None;
        let mut i: usize = 0;
        while i < self.placements.len()
            invariant
                i <= self.placements@.len(),
                found == self@.placement_among(key, i as nat),
            decreases self.placements@.len() - i,
        {
            if found.is_none() && same_key(self.placements[i].0, key) {
                found = Some(self.placements[i].1);
            }
            i += 1;
        }
        found
    }
}

/// Whether a layer surface draws in a band.
pub open spec fn in_band(s: StateView, above_windows: bool) -> spec_fn(ClientObjectId) -> bool {
    |k: ClientObjectId| s.layers.layer_surfaces.at(k).current.layer.above() == above_windows
}

/// The surface a layer surface gives its role to.
pub open spec fn surface_of(s: StateView) -> spec_fn(ClientObjectId) -> ClientObjectId {
    |k: ClientObjectId| (s.layers.layer_surfaces.at(k).client_id, s.layers.layer_surfaces.at(k).wl_surface_id)
}

impl StateView {
    /// The first of the first few outputs that has an id.
    pub open spec fn output_among(self, id: OutputId, n: nat) -> Option<OutputView>
        decreases n,
    {
        if n == 0 || n > self.out.outputs.len() {
            None
        } else {
            match self.output_among(id, (n - 1) as nat) {
                Some(o) => Some(o),
                None => if self.out.outputs[n - 1].id == id {
                    Some(self.out.outputs[n - 1])
                } else {
                    None
                },
            }
        }
    }

    /// The output that has an id.
    pub open spec fn output(self, id: OutputId) -> Option<OutputView> {
        self.output_among(id, self.out.outputs.len())
    }

    /// The stable order of layer surfaces: by layer, and by object id within a
    /// layer.
    pub open spec fn layer_order(self) -> spec_fn(ClientObjectId, ClientObjectId) -> bool {
        |a: ClientObjectId, b: ClientObjectId|
            {
                let ra = self.layers.layer_surfaces.at(a).current.layer.rank();
                let rb = self.layers.layer_surfaces.at(b).current.layer.rank();
                ra < rb || (ra == rb && (a.0 < b.0 || (a.0 == b.0 && a.1 <= b.1)))
            }
    }

    /// The layer surfaces of an output, in no particular order.
    pub open spec fn layers_of(self, output_id: OutputId) -> Seq<ClientObjectId> {
        self.layers.layer_surfaces.keys_where(|k: ClientObjectId, l: LayerSurfaceStateView| l.output == Some(output_id))
    }

    /// The layer surfaces of an output, in the stable order.
    pub open spec fn ordered_for_output(self, output_id: OutputId) -> Seq<ClientObjectId> {
        self.layers_of(output_id).sort_by(self.layer_order())
    }

    /// Layer surfaces placed one after another in a full rectangle. One with a
    /// negative zone is placed in the whole of it, any other in what the ones
    /// before it have left, and one with a positive zone leaves less.
    pub open spec fn arranged(self, full: Rect, keys: Seq<ClientObjectId>) -> ArrangementView
        decreases keys.len(),
    {
        if keys.len() == 0 {
            ArrangementView { placements: Seq::empty(), usable: full }
        } else {
            let before = self.arranged(full, keys.drop_last());
            let layer = self.layers.layer_surfaces.at(keys.last()).current;
            let within = if layer.exclusive_zone < 0 {
                full
            } else {
                before.usable
            };
            ArrangementView {
                placements: before.placements.push((keys.last(), placed(within, layer))),
                usable: if layer.exclusive_zone > 0 {
                    before.usable.shrunk(layer.anchor, layer.exclusive_zone)
                } else {
                    before.usable
                },
            }
        }
    }

    /// Every layer surface on an output placed, and what is left after them.
    pub open spec fn arrange(self, output_id: OutputId) -> ArrangementView {
        match self.output(output_id) {
            None => ArrangementView { placements: Seq::empty(), usable: Rect::none() },
            Some(o) => self.arranged(Rect::whole(o), self.ordered_for_output(output_id)),
        }
    }

    /// Where a layer surface sits in global logical coordinates.
    pub open spec fn layer_geometry(self, key: ClientObjectId) -> Option<Rect> {
        if !self.layers.layer_surfaces.has(key) || self.layers.layer_surfaces.at(key).output is None {
            None
        } else {
            let id = self.layers.layer_surfaces.at(key).output->0;
            match self.output(id) {
                None => None,
                Some(o) => match self.arrange(id).placement(key) {
                    None => None,
                    Some(r) => Some(
                        Rect { x: to_i32(r.x + o.geometry.x), y: to_i32(r.y + o.geometry.y), ..r },
                    ),
                },
            }
        }
    }

    /// The surfaces of the layer surfaces on an output that draw in a band,
    /// bottom to top.
    pub open spec fn keys_in_band(self, output_id: OutputId, above_windows: bool) -> Seq<ClientObjectId> {
        self.ordered_for_output(output_id).filter(in_band(self, above_windows)).map_values(surface_of(self))
    }

    /// The stable order is a total one.
    pub proof fn lemma_layer_order(self)
        ensures
            total_ordering(self.layer_order()),
    {
    }
}

impl CompositorState {
    /// The output that has an id.
    pub fn output(&self, id: OutputId) -> (r: Option<&Output>)
        ensures
            match r {
                Some(o) => self@.output(id) == Some(o@),
                None => self@.output(id) is None,
            },
    {
        let mut found: Option<usize> = None;
        let mut i: usize = 0;
        while i < self.out.outputs.len()
            invariant
                i <= self.out.outputs@.len(),
                match found {
                    Some(j) => j < i && self@.output_among(id, i as nat) == Some(self.out.outputs@[j as int]@),
                    None => self@.output_among(id, i as nat) is None,
                },
            decreases self.out.outputs@.len() - i,
        {
            proof {
                assert(self@.out.outputs[i as int] == self.out.outputs@[i as int]@);
            }
            if found.is_none() && self.out.outputs[i].id == id {
                found = Some(i);
            }
            i += 1;
        }
        match found {
            Some(j) => Some(&self.out.outputs[j]),
            None => None,
        }
    }
}

fn comes_before(state: &CompositorState, a: ClientObjectId, b: ClientObjectId) -> (r: bool)
    requires
        state@.layers.layer_surfaces.has(a),
        state@.layers.layer_surfaces.has(b),
    ensures
        r == state@.layer_order()(a, b),
{
    match (state.layers.layer_surfaces.get(a), state.layers.layer_surfaces.get(b)) {
        (Some(la), Some(lb)) => {
            let ra: u32 = la.current.layer.number();
            let rb: u32 = lb.current.layer.number();
            ra < rb || (ra == rb && (a.0 < b.0 || (a.0 == b.0 && a.1 <= b.1)))
        },
        _ => false,
    }
}

/// Every layer surface on an output, in a stable order.
///
/// Sorted by layer so the bands stack correctly, and by object id within a
/// band so two surfaces on the same layer keep their order between frames.
pub fn ordered_for_output(state: &CompositorState, output_id: OutputId) -> (r: Vec<ClientObjectId>)
    ensures
        r@ == state@.ordered_for_output(output_id),
        forall|i: int| 0 <= i < r@.len() ==> state@.layers.layer_surfaces.has(#[trigger] r@[i]),
{
    let ghost leq = state@.layer_order();
    let keys = state.layers.layer_surfaces.keys_where(
        |k: &ClientObjectId, l: &LayerSurfaceState| -> (r: bool)
            ensures r == (l@.output == Some(output_id))
            { l.output == Some(output_id) },
        Ghost(|k: ClientObjectId, l: LayerSurfaceStateView| l.output == Some(output_id)),
    );
    proof {
        state@.lemma_layer_order();
    }
    let mut sorted: Vec<ClientObjectId> = Vec::new();
    let mut i: usize = 0;
    proof {
        assert(keys@.take(0) =~= sorted@);
        assert forall|j: int| 0 <= j < keys@.len() implies state@.layers.layer_surfaces.has(#[trigger] keys@[j]) by {
            assert(keys@.contains(keys@[j]));
        }
    }
    while i < keys.len()
        invariant
            i <= keys@.len(),
            leq == state@.layer_order(),
            total_ordering(leq),
            sorted_by(sorted@, leq),
            sorted@.to_multiset() == keys@.take(i as int).to_multiset(),
            forall|j: int| 0 <= j < keys@.len() ==> state@.layers.layer_surfaces.has(#[trigger] keys@[j]),
            forall|j: int| 0 <= j < sorted@.len() ==> state@.layers.layer_surfaces.has(#[trigger] sorted@[j]),
        decreases keys@.len() - i,
    {
        let key = keys[i];
        let mut at: usize = 0;
        while at < sorted.len() && comes_before(state, sorted[at], key)
            invariant
                at <= sorted@.len(),
                leq == state@.layer_order(),
                state@.layers.layer_surfaces.has(key),
                forall|j: int| 0 <= j < sorted@.len() ==> state@.layers.layer_surfaces.has(#[trigger] sorted@[j]),
                forall|j: int| 0 <= j < at ==> leq(#[trigger] sorted@[j], key),
            decreases sorted@.len() - at,
        {
            at += 1;
        }
        let ghost before = sorted@;
        proof {
            to_multiset_insert(before, at as int, key);
            to_multiset_build(keys@.take(i as int), key);
            assert(keys@.take(i + 1) =~= keys@.take(i as int).push(key));
            if at < before.len() {
                assert(leq(key, before[at as int]));
            }
            let after = before.insert(at as int, key);
            assert forall|a: int, b: int| 0 <= a < b < after.len() implies leq(#[trigger] after[a], #[trigger] after[b]) by {
                let a2 = if a < at { a } else { a - 1 };
                let b2 = if b < at { b } else { b - 1 };
                if a == at {
                    assert(after[b] == before[b2]);
                    if b2 > at {
                        assert(leq(before[at as int], before[b2]));
                    }
                } else if b == at {
                    assert(after[a] == before[a2]);
                } else {
                    assert(after[a] == before[a2]);
                    assert(after[b] == before[b2]);
                }
            }
        }
        sorted.insert(at, key);
        i += 1;
    }
    proof {
        assert(keys@.take(i as int) =~= keys@);
        keys@.lemma_sort_by_ensures(leq);
        lemma_sorted_unique(sorted@, keys@.sort_by(leq), leq);
    }
    sorted
}

/// Every layer surface on an output placed, and what is left after them.
pub fn arrange(state: &CompositorState, output_id: OutputId) -> (r: Arrangement)
    ensures
        r@ == state@.arrange(output_id),
{
    let output = match state.output(output_id) {
        Some(output) => output,
        None => {
            let r = Arrangement { placements: Vec::new(), usable: Rect { x: 0, y: 0, width: 0, height: 0 } };
            proof {
                assert(r@ =~= state@.arrange(output_id));
            }
            return r;
        },
    };
    let full = Rect::of_output(output);
    let mut area = full;
    let mut placements: Vec<(ClientObjectId, Rect)> = Vec::new();
    let keys = ordered_for_output(state, output_id);
    let mut i: usize = 0;
    proof {
        assert(state@.arranged(full, keys@.take(0)) =~= ArrangementView { placements: placements@, usable: area });
    }
    while i < keys.len()
        invariant
            i <= keys@.len(),
            forall|j: int| 0 <= j < keys@.len() ==> state@.layers.layer_surfaces.has(#[trigger] keys@[j]),
            state@.arranged(full, keys@.take(i as int)) == (ArrangementView { placements: placements@, usable: area }),
        decreases keys@.len() - i,
    {
        let key = keys[i];
        if let Some(layer) = state.layers.layer_surfaces.get(key) {
            let current = layer.current;
            let within = if current.exclusive_zone < 0 {
                full
            } else {
                area
            };
            placements.push((key, place(within, &current)));
            if current.exclusive_zone > 0 {
                area = area.shrink(current.anchor, current.exclusive_zone);
            }
        }
        i += 1;
        proof {
            assert(keys@.take(i as int).drop_last() =~= keys@.take(i - 1));
            assert(keys@.take(i as int).last() == key);
        }
    }
    proof {
        assert(keys@.take(i as int) =~= keys@);
    }
    Arrangement { placements, usable: area }
}

/// How much of an output is left for ordinary windows.
///
/// Every layer surface with a positive exclusive zone takes a strip off the
/// edge it is anchored to, and what is left is where a maximised window goes.
pub fn usable_area(state: &CompositorState, output_id: OutputId) -> (r: Rect)
    ensures
        r == state@.arrange(output_id).usable,
{
    let a = arrange(state, output_id);
    a.usable
}

/// Where a layer surface's `wl_surface` sits, in global logical coordinates.
pub fn geometry(state: &CompositorState, key: ClientObjectId) -> (r: Option<Rect>)
    ensures
        r == state@.layer_geometry(key),
{
    let output_id: OutputId = match state.layers.layer_surfaces.get(key) {
        Some(layer) => match layer.output {
            Some(id) => id,
            None => {
                return None;
            },
        },
        None => {
            return None;
        },
    };
    match state.output(output_id) {
        None => None,
        Some(output) => match arrange(state, output_id).placement(key) {
            None => None,
            Some(r) => Some(
                Rect {
                    x: plus(r.x, output.geometry.x),
                    y: plus(r.y, output.geometry.y),
                    width: r.width,
                    height: r.height,
                },
            ),
        },
    }
}

/// The layer surfaces on an output that draw in a given band, bottom to top.
pub fn keys_in_band(state: &CompositorState, output_id: OutputId, above_windows: bool) -> (r: Vec<ClientObjectId>)
    ensures
        r@ == state@.keys_in_band(output_id, above_windows),
{
    let keys = ordered_for_output(state, output_id);
    let ghost p = |k: ClientObjectId| state@.layers.layer_surfaces.at(k).current.layer.above() == above_windows;
    let ghost f = |k: ClientObjectId| (state@.layers.layer_surfaces.at(k).client_id, state@.layers.layer_surfaces.at(k).wl_surface_id);
    let mut band: Vec<ClientObjectId> = Vec::new();
    let mut i: usize = 0;
    proof {
        assert(keys@.take(0).filter(p) =~= Seq::<ClientObjectId>::empty()) by {
            reveal(Seq::filter);
        }
        assert(band@ =~= keys@.take(0).filter(p).map_values(f));
    }
    while i < keys.len()
        invariant
            i <= keys@.len(),
            p == (|k: ClientObjectId| state@.layers.layer_surfaces.at(k).current.layer.above() == above_windows),
            f == (|k: ClientObjectId| (state@.layers.layer_surfaces.at(k).client_id, state@.layers.layer_surfaces.at(k).wl_surface_id)),
            forall|j: int| 0 <= j < keys@.len() ==> state@.layers.layer_surfaces.has(#[trigger] keys@[j]),
            band@ == keys@.take(i as int).filter(p).map_values(f),
        decreases keys@.len() - i,
    {
        let key = keys[i];
        proof {
            assert(keys@.take(i + 1) =~= keys@.take(i as int).push(key));
            lemma_filter_push(keys@.take(i as int), key, p);
        }
        if let Some(layer) = state.layers.layer_surfaces.get(key) {
            if layer.current.layer.is_above_windows() == above_windows {
                band.push((layer.client_id, layer.wl_surface_id));
            }
        }
        i += 1;
        proof {
            assert(band@ =~= keys@.take(i as int).filter(p).map_values(f));
        }
    }
    proof {
        assert(keys@.take(i as int) =~= keys@);
    }
    band
}

} // verus!
