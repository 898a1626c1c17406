//! Telling clients which outputs their surfaces are on, and at what scale.
use crate::input::hit::is_visible;
use crate::protocol::messages::{build_message, event, one_arg};
use crate::protocol::wire_utils::ArgView;
use crate::protocol::wl_surface::{SURFACE_ENTER, SURFACE_LEAVE};
use crate::protocol::wp_fractional_scale::{note_scale, send_preferred_scale};
use crate::seqs::back_to_front;
use crate::shell::Shell;
use crate::state::compositor_state::{CompositorState, StateView, SurfacesView};
use crate::state::types::{
    ClientObjectId, FractionalScaleBinding, Output, OutputId, outputs_view, OutputView, plus,
    SurfaceView, to_i32,
};
use crate::table::{KeySet, set_put, set_without};
use vstd::prelude::*;

verus! {

/// A surface and an output.
pub struct Seen {
    pub surface: ClientObjectId,
    pub output: OutputId,
}

/// Whether a rectangle and an output share any area.
pub open spec fn overlaps(o: OutputView, at: (i32, i32), size: (i32, i32)) -> bool {
    &&& at.0 < o.geometry.x + o.width
    &&& to_i32(at.0 + size.0) > o.geometry.x
    &&& at.1 < o.geometry.y + o.height
    &&& to_i32(at.1 + size.1) > o.geometry.y
}

/// The outputs among some that a rectangle shares area with.
pub open spec fn overlapped(outputs: Seq<OutputView>, at: (i32, i32), size: (i32, i32)) -> Seq<OutputId>
    decreases outputs.len(),
{
    if outputs.len() == 0 {
        Seq::empty()
    } else {
        let before = overlapped(outputs.drop_last(), at, size);
        if overlaps(outputs.last(), at, size) {
            set_put(before, outputs.last().id)
        } else {
            before
        }
    }
}

/// The outputs among some, for a rectangle on them or off them, that a surface
/// has been told of or not.
pub open spec fn changes(
    surface: ClientObjectId,
    outputs: Seq<OutputView>,
    at: (i32, i32),
    size: (i32, i32),
    told: Seq<OutputId>,
    on: bool,
) -> Seq<Seen>
    decreases outputs.len(),
{
    if outputs.len() == 0 {
        Seq::empty()
    } else {
        let before = changes(surface, outputs.drop_last(), at, size, told, on);
        let o = outputs.last();
        if overlaps(o, at, size) == on && told.contains(o.id) != on {
            before.push(Seen { surface, output: o.id })
        } else {
            before
        }
    }
}

/// A surface with every output of some.
pub open spec fn each_seen(surface: ClientObjectId, outputs: Seq<OutputId>) -> Seq<Seen> {
    outputs.map_values(|output: OutputId| Seen { surface, output })
}

/// Whether an output object is a client's own for an output.
pub open spec fn bound_by(client_id: u32, output: OutputId) -> spec_fn(ClientObjectId, u32) -> bool {
    |k: ClientObjectId, id: u32| k.0 == client_id && id == output
}

/// A surface with its outputs brought up to date.
pub open spec fn seen_again<S: Shell>(state: StateView, shell: S) -> spec_fn(ClientObjectId, SurfaceView) -> SurfaceView {
    |k: ClientObjectId, s: SurfaceView|
        match state.now_on(shell, k) {
            Some(on) => SurfaceView { visible_on: on, ..s },
            None => s,
        }
}

/// A surface told that it is on an output.
pub open spec fn entered(output: OutputId) -> spec_fn(SurfaceView) -> SurfaceView {
    |s: SurfaceView| SurfaceView { entered_outputs: set_put(s.entered_outputs, output), ..s }
}

/// A surface told that it has left an output.
pub open spec fn departed(output: OutputId) -> spec_fn(SurfaceView) -> SurfaceView {
    |s: SurfaceView| SurfaceView { entered_outputs: set_without(s.entered_outputs, output), ..s }
}

/// Whether a scale object was last told another scale than its surface should
/// be drawn at.
pub open spec fn outdated(state: StateView) -> spec_fn(ClientObjectId, FractionalScaleBinding) -> bool {
    |k: ClientObjectId, b: FractionalScaleBinding| b.sent != Some(state.preferred_scale((k.0, b.surface_id)))
}

/// What is in a set of outputs, if there is one.
pub open spec fn on_view(on: Option<KeySet<u32>>) -> Option<Seq<OutputId>> {
    match on {
        Some(k) => Some(k@),
        None => None,
    }
}

impl StateView {
    /// Whether a surface has nothing to show or cannot be seen.
    pub open spec fn out_of_sight<S: Shell>(self, shell: S, key: ClientObjectId) -> bool {
        self.surf.surfaces.at(key).buffer_id is None || !self.visible(shell, key)
    }

    /// Whether a surface has no area.
    pub open spec fn no_area(self, key: ClientObjectId) -> bool {
        self.surface_size(key).0 <= 0 || self.surface_size(key).1 <= 0
    }

    /// The outputs a surface is on now: none if it is out of sight, those it
    /// shares area with if it has area, and otherwise no answer.
    pub open spec fn now_on<S: Shell>(self, shell: S, key: ClientObjectId) -> Option<Seq<OutputId>> {
        if self.out_of_sight(shell, key) {
            Some(Seq::empty())
        } else if self.no_area(key) {
            None
        } else {
            Some(overlapped(self.out.outputs, self.global_position(key), self.surface_size(key)))
        }
    }

    /// The outputs a surface is on and has not been told of.
    pub open spec fn enters_of<S: Shell>(self, shell: S, key: ClientObjectId) -> Seq<Seen> {
        if self.out_of_sight(shell, key) || self.no_area(key) {
            Seq::empty()
        } else {
            changes(
                key,
                self.out.outputs,
                self.global_position(key),
                self.surface_size(key),
                self.surf.surfaces.at(key).entered_outputs,
                true,
            )
        }
    }

    /// The outputs a surface has been told of and is not on: all of them if it
    /// is out of sight.
    pub open spec fn leaves_of<S: Shell>(self, shell: S, key: ClientObjectId) -> Seq<Seen> {
        let told = self.surf.surfaces.at(key).entered_outputs;
        if self.out_of_sight(shell, key) {
            each_seen(key, told)
        } else if self.no_area(key) {
            Seq::empty()
        } else {
            changes(key, self.out.outputs, self.global_position(key), self.surface_size(key), told, false)
        }
    }

    /// What surfaces are to be told they are on.
    pub open spec fn enters<S: Shell>(self, shell: S, keys: Seq<ClientObjectId>) -> Seq<Seen>
        decreases keys.len(),
    {
        if keys.len() == 0 {
            Seq::empty()
        } else {
            self.enters(shell, keys.drop_last()) + self.enters_of(shell, keys.last())
        }
    }

    /// What surfaces are to be told they have left.
    pub open spec fn leaves<S: Shell>(self, shell: S, keys: Seq<ClientObjectId>) -> Seq<Seen>
        decreases keys.len(),
    {
        if keys.len() == 0 {
            Seq::empty()
        } else {
            self.leaves(shell, keys.drop_last()) + self.leaves_of(shell, keys.last())
        }
    }

    /// A client's own objects for an output.
    pub open spec fn bound_output_objects(self, client_id: u32, output: OutputId) -> Seq<ClientObjectId> {
        self.out.output_bindings.keys_where(bound_by(client_id, output))
    }

    /// With a surface event naming each of some objects queued.
    pub open spec fn tell_objects(self, surface: ClientObjectId, op_code: u16, objects: Seq<ClientObjectId>) -> Self
        decreases objects.len(),
    {
        if objects.len() == 0 {
            self
        } else {
            self.tell_objects(surface, op_code, objects.drop_last()).tell(
                surface.0,
                event(surface.1, op_code, seq![ArgView::Uint(objects.last().1)]),
            )
        }
    }

    /// With a surface changed, if it is there.
    pub open spec fn edit_surface(self, key: ClientObjectId, f: spec_fn(SurfaceView) -> SurfaceView) -> Self {
        StateView { surf: SurfacesView { surfaces: self.surf.surfaces.edit(key, f), ..self.surf }, ..self }
    }

    /// With a surface told that it is on an output, if its client has an
    /// object to name it by.
    pub open spec fn enter(self, e: Seen) -> Self {
        let objects = self.bound_output_objects(e.surface.0, e.output);
        if objects.len() == 0 {
            self
        } else {
            self.tell_objects(e.surface, SURFACE_ENTER, objects).edit_surface(e.surface, entered(e.output))
        }
    }

    /// With a surface told that it has left an output.
    pub open spec fn depart(self, e: Seen) -> Self {
        self.tell_objects(
            e.surface,
            SURFACE_LEAVE,
            self.bound_output_objects(e.surface.0, e.output),
        ).edit_surface(e.surface, departed(e.output))
    }

    /// With surfaces told what they are on.
    pub open spec fn enter_each(self, es: Seq<Seen>) -> Self
        decreases es.len(),
    {
        if es.len() == 0 {
            self
        } else {
            self.enter_each(es.drop_last()).enter(es.last())
        }
    }

    /// With surfaces told what they have left.
    pub open spec fn depart_each(self, es: Seq<Seen>) -> Self
        decreases es.len(),
    {
        if es.len() == 0 {
            self
        } else {
            self.depart_each(es.drop_last()).depart(es.last())
        }
    }

    /// With every surface's outputs worked out again.
    pub open spec fn look_again<S: Shell>(self, shell: S) -> Self {
        StateView {
            surf: SurfacesView { surfaces: self.surf.surfaces.each(seen_again(self, shell)), ..self.surf },
            ..self
        }
    }

    /// The scale objects whose surface should be drawn at another scale than
    /// they were last told.
    pub open spec fn rescaled(self) -> Seq<ClientObjectId> {
        self.surf.fractional_scales.keys_where(outdated(self))
    }

    /// The scale a scale object should be told.
    pub open spec fn scale_for(self, object: ClientObjectId) -> u32 {
        self.preferred_scale((object.0, self.surf.fractional_scales.at(object).surface_id))
    }

    /// With scale objects told what another state has worked out for them.
    pub open spec fn rescale_each(self, worked_out: StateView, objects: Seq<ClientObjectId>) -> Self
        decreases objects.len(),
    {
        if objects.len() == 0 {
            self
        } else {
            let o = objects.last();
            self.rescale_each(worked_out, objects.drop_last()).send_preferred_scale(
                o,
                worked_out.scale_for(o),
            ).note_scale(o, worked_out.scale_for(o))
        }
    }

    /// With every surface that asked told what scale to draw itself at, if that
    /// has changed.
    pub open spec fn update_fractional_scales(self) -> Self {
        self.rescale_each(self, self.rescaled())
    }

    /// With clients told which outputs each of their surfaces is on, and what
    /// scale that makes best.
    pub open spec fn update_surface_outputs<S: Shell>(self, shell: S) -> Self {
        let keys = self.surf.surfaces.order;
        self.look_again(shell).enter_each(self.enters(shell, keys)).depart_each(
            self.leaves(shell, keys),
        ).update_fractional_scales()
    }
}

fn overlaps_output(o: &Output, at: (i32, i32), size: (i32, i32)) -> (r: bool)
    ensures
        r == overlaps(o@, at, size),
{
    (at.0 as i64) < o.geometry.x as i64 + o.width as i64 && plus(at.0, size.0) > o.geometry.x && (at.1 as i64)
        < o.geometry.y as i64 + o.height as i64 && plus(at.1, size.1) > o.geometry.y
}

fn out_of_sight<S: Shell>(state: &CompositorState, shell: &S, key: ClientObjectId) -> (r: bool)
    requires
        state@.surf.surfaces.has(key),
    ensures
        r == state@.out_of_sight(*shell, key),
{
    match state.surf.surfaces.get(key) {
        Some(s) => s.buffer_id.is_none() || !is_visible(state, shell, key),
        None => true,
    }
}

fn push_each(v: &mut Vec<Seen>, surface: ClientObjectId, outputs: &KeySet<u32>)
    ensures
        final(v)@ == old(v)@ + each_seen(surface, outputs@),
{
    let mut i: usize = 0;
    proof {
        assert(v@ =~= old(v)@ + each_seen(surface, outputs@).take(0));
    }
    while i < outputs.len()
        invariant
            i <= outputs@.len(),
            v@ == old(v)@ + each_seen(surface, outputs@).take(i as int),
        decreases outputs@.len() - i,
    {
        v.push(Seen { surface, output: outputs.key_at(i) });
        i += 1;
        proof {
            assert(v@ =~= old(v)@ + each_seen(surface, outputs@).take(i as int));
        }
    }
    proof {
        assert(each_seen(surface, outputs@).take(i as int) =~= each_seen(surface, outputs@));
    }
}

fn push_changes(
    v: &mut Vec<Seen>,
    surface: ClientObjectId,
    outputs: &Vec<Output>,
    at: (i32, i32),
    size: (i32, i32),
    told: &KeySet<u32>,
    on: bool,
)
    ensures
        final(v)@ == old(v)@ + changes(surface, outputs_view(outputs@), at, size, told@, on),
{
    let ghost all = outputs_view(outputs@);
    let mut i: usize = 0;
    proof {
        assert(v@ =~= old(v)@ + changes(surface, all.take(0), at, size, told@, on));
    }
    while i < outputs.len()
        invariant
            i <= all.len(),
            all == outputs_view(outputs@),
            v@ == old(v)@ + changes(surface, all.take(i as int), at, size, told@, on),
        decreases all.len() - i,
    {
        proof {
            assert(all.take(i + 1).drop_last() =~= all.take(i as int));
            assert(all[i as int] == outputs@[i as int]@);
        }
        let o = &outputs[i];
        if overlaps_output(o, at, size) == on && told.contains(o.id) != on {
            v.push(Seen { surface, output: o.id });
        }
        i += 1;
        proof {
            assert(v@ =~= old(v)@ + changes(surface, all.take(i as int), at, size, told@, on));
        }
    }
    proof {
        assert(all.take(i as int) =~= all);
    }
}

fn overlapped_outputs(outputs: &Vec<Output>, at: (i32, i32), size: (i32, i32)) -> (r: KeySet<u32>)
    ensures
        r@ == overlapped(outputs_view(outputs@), at, size),
{
    let ghost all = outputs_view(outputs@);
    let mut r: KeySet<u32> = KeySet::new();
    let mut i: usize = 0;
    while i < outputs.len()
        invariant
            i <= all.len(),
            all == outputs_view(outputs@),
            r@ == overlapped(all.take(i as int), at, size),
        decreases all.len() - i,
    {
        proof {
            assert(all.take(i + 1).drop_last() =~= all.take(i as int));
            assert(all[i as int] == outputs@[i as int]@);
        }
        let o = &outputs[i];
        if overlaps_output(o, at, size) {
            r.insert(o.id);
        }
        i += 1;
    }
    proof {
        assert(all.take(i as int) =~= all);
    }
    r
}

fn survey_one<S: Shell>(
    state: &CompositorState,
    shell: &S,
    key: ClientObjectId,
    enters: &mut Vec<Seen>,
    leaves: &mut Vec<Seen>,
) -> (r: Option<KeySet<u32>>)
    requires
        state@.surf.surfaces.has(key),
    ensures
        on_view(r) == state@.now_on(*shell, key),
        final(enters)@ == old(enters)@ + state@.enters_of(*shell, key),
        final(leaves)@ == old(leaves)@ + state@.leaves_of(*shell, key),
{
    let s = match state.surf.surfaces.get(key) {
        Some(s) => s,
        None => {
            return None;
        },
    };
    if out_of_sight(state, shell, key) {
        push_each(leaves, key, &s.entered_outputs);
        proof {
            assert(enters@ =~= old(enters)@ + state@.enters_of(*shell, key));
        }
        return Some(KeySet::new());
    }
    let size = state.surface_size(key);
    if size.0 <= 0 || size.1 <= 0 {
        proof {
            assert(enters@ =~= old(enters)@ + state@.enters_of(*shell, key));
            assert(leaves@ =~= old(leaves)@ + state@.leaves_of(*shell, key));
        }
        return None;
    }
    let at = state.global_position_of(key);
    push_changes(enters, key, &state.out.outputs, at, size, &s.entered_outputs, true);
    push_changes(leaves, key, &state.out.outputs, at, size, &s.entered_outputs, false);
    Some(overlapped_outputs(&state.out.outputs, at, size))
}

fn survey<S: Shell>(
    state: &CompositorState,
    shell: &S,
    enters: &mut Vec<Seen>,
    leaves: &mut Vec<Seen>,
) -> (r: Vec<Option<KeySet<u32>>>)
    requires
        old(enters)@.len() == 0,
        old(leaves)@.len() == 0,
    ensures
        r@.len() == state@.surf.surfaces.order.len(),
        forall|i: int|
            0 <= i < r@.len() ==> on_view(#[trigger] r@[i]) == state@.now_on(*shell, state@.surf.surfaces.order[i]),
        final(enters)@ == state@.enters(*shell, state@.surf.surfaces.order),
        final(leaves)@ == state@.leaves(*shell, state@.surf.surfaces.order),
{
    let ghost keys = state@.surf.surfaces.order;
    let mut r: Vec<Option<KeySet<u32>>> = Vec::new();
    let mut i: usize = 0;
    proof {
        assert(enters@ =~= state@.enters(*shell, keys.take(0)));
        assert(leaves@ =~= state@.leaves(*shell, keys.take(0)));
    }
    while i < state.surf.surfaces.len()
        invariant
            i <= keys.len(),
            keys == state@.surf.surfaces.order,
            r@.len() == i,
            forall|j: int| 0 <= j < i ==> on_view(#[trigger] r@[j]) == state@.now_on(*shell, keys[j]),
            enters@ == state@.enters(*shell, keys.take(i as int)),
            leaves@ == state@.leaves(*shell, keys.take(i as int)),
        decreases keys.len() - i,
    {
        proof {
            assert(keys.take(i + 1).drop_last() =~= keys.take(i as int));
        }
        state.surf.surfaces.known();
        let key = state.surf.surfaces.key_at(i);
        proof {
            assert(keys.contains(keys[i as int]));
        }
        let on = survey_one(state, shell, key, enters, leaves);
        r.push(on);
        i += 1;
    }
    proof {
        assert(keys.take(i as int) =~= keys);
    }
    r
}

fn look_again<S: Shell>(state: &mut CompositorState, shell: &S, seen: Vec<Option<KeySet<u32>>>)
    requires
        seen@.len() == old(state)@.surf.surfaces.order.len(),
        forall|i: int|
            0 <= i < seen@.len() ==> on_view(#[trigger] seen@[i]) == old(state)@.now_on(
                *shell,
                old(state)@.surf.surfaces.order[i],
            ),
    ensures
        final(state)@ == old(state)@.look_again(*shell),
{
    let ghost f = seen_again(state@, *shell);
    let ghost before = state@.surf.surfaces;
    let n: usize = state.surf.surfaces.len();
    let mut i: usize = 0;
    state.surf.surfaces.known();
    let mut seen = back_to_front(seen);
    proof {
        before.lemma_each(f);
    }
    while i < n
        invariant
            i <= n,
            n == before.order.len(),
            before.ok(),
            before == old(state)@.surf.surfaces,
            f == seen_again(old(state)@, *shell),
            seen@.len() == n - i,
            forall|j: int|
                0 <= j < n - i ==> on_view(#[trigger] seen@[j]) == old(state)@.now_on(*shell, before.order[n - 1 - j]),
            state@ == (StateView {
                surf: SurfacesView { surfaces: before.each_first(i as int, f), ..old(state)@.surf },
                ..old(state)@
            }),
        decreases n - i,
    {
        proof {
            before.lemma_each_step(i as int, f);
            assert(on_view(seen@[n - i - 1]) == old(state)@.now_on(*shell, before.order[i as int]));
            before.each_first(i as int, f).lemma_put_same(before.order[i as int]);
        }
        if let Some(Some(on)) = seen.pop() {
            let s = state.surf.surfaces.value_at_mut(i);
            s.visible_on = on;
        }
        i += 1;
    }
}

fn bound_output_objects(state: &CompositorState, client_id: u32, output: OutputId) -> (r: Vec<ClientObjectId>)
    ensures
        r@ == state@.bound_output_objects(client_id, output),
{
    state.out.output_bindings.keys_where(
        |k: &ClientObjectId, id: &u32| -> (r: bool)
            ensures
                r == bound_by(client_id, output)(*k, id@)
        { k.0 == client_id && *id == output },
        Ghost(bound_by(client_id, output)),
    )
}

fn tell_objects(state: &mut CompositorState, surface: ClientObjectId, op_code: u16, objects: &Vec<ClientObjectId>)
    ensures
        final(state)@ == old(state)@.tell_objects(surface, op_code, objects@),
{
    let mut i: usize = 0;
    while i < objects.len()
        invariant
            i <= objects@.len(),
            state@ == old(state)@.tell_objects(surface, op_code, objects@.take(i as int)),
        decreases objects@.len() - i,
    {
        proof {
            assert(objects@.take(i + 1).drop_last() =~= objects@.take(i as int));
        }
        state.tell(surface.0, build_message(surface.1, op_code, one_arg(objects[i].1)));
        i += 1;
    }
    proof {
        assert(objects@.take(i as int) =~= objects@);
    }
}

fn enter(state: &mut CompositorState, e: &Seen)
    ensures
        final(state)@ == old(state)@.enter(*e),
{
    let objects = bound_output_objects(state, e.surface.0, e.output);
    if objects.len() == 0 {
        return;
    }
    tell_objects(state, e.surface, SURFACE_ENTER, &objects);
    if let Some(s) = state.surf.surfaces.get_mut(e.surface) {
        s.entered_outputs.insert(e.output);
    }
}

fn depart(state: &mut CompositorState, e: &Seen)
    ensures
        final(state)@ == old(state)@.depart(*e),
{
    let objects = bound_output_objects(state, e.surface.0, e.output);
    tell_objects(state, e.surface, SURFACE_LEAVE, &objects);
    if let Some(s) = state.surf.surfaces.get_mut(e.surface) {
        s.entered_outputs.remove(e.output);
    }
}

fn enter_each(state: &mut CompositorState, es: &Vec<Seen>)
    ensures
        final(state)@ == old(state)@.enter_each(es@),
{
    let mut i: usize = 0;
    while i < es.len()
        invariant
            i <= es@.len(),
            state@ == old(state)@.enter_each(es@.take(i as int)),
        decreases es@.len() - i,
    {
        proof {
            assert(es@.take(i + 1).drop_last() =~= es@.take(i as int));
        }
        enter(state, &es[i]);
        i += 1;
    }
    proof {
        assert(es@.take(i as int) =~= es@);
    }
}

fn depart_each(state: &mut CompositorState, es: &Vec<Seen>)
    ensures
        final(state)@ == old(state)@.depart_each(es@),
{
    let mut i: usize = 0;
    while i < es.len()
        invariant
            i <= es@.len(),
            state@ == old(state)@.depart_each(es@.take(i as int)),
        decreases es@.len() - i,
    {
        proof {
            assert(es@.take(i + 1).drop_last() =~= es@.take(i as int));
        }
        depart(state, &es[i]);
        i += 1;
    }
    proof {
        assert(es@.take(i as int) =~= es@);
    }
}

fn scales_for(state: &CompositorState, objects: &Vec<ClientObjectId>) -> (r: Vec<u32>)
    requires
        forall|i: int| 0 <= i < objects@.len() ==> state@.surf.fractional_scales.has(#[trigger] objects@[i]),
    ensures
        r@.len() == objects@.len(),
        forall|i: int| 0 <= i < r@.len() ==> #[trigger] r@[i] == state@.scale_for(objects@[i]),
{
    let mut r: Vec<u32> = Vec::new();
    let mut i: usize = 0;
    while i < objects.len()
        invariant
            i <= objects@.len(),
            r@.len() == i,
            forall|j: int| 0 <= j < objects@.len() ==> state@.surf.fractional_scales.has(#[trigger] objects@[j]),
            forall|j: int| 0 <= j < r@.len() ==> #[trigger] r@[j] == state@.scale_for(objects@[j]),
        decreases objects@.len() - i,
    {
        let surface: u32 = match state.surf.fractional_scales.get(objects[i]) {
            Some(b) => b.surface_id,
            None => 0,
        };
        r.push(state.preferred_scale((objects[i].0, surface)));
        i += 1;
    }
    r
}

/// Tell each surface that asked what scale it should draw itself at.
///
/// Run every frame and diffed against the last answer, which covers every way
/// the answer can change: a surface moving between outputs, an output
/// reconfigured to a different scale, a window mapping for the first time.
pub fn update_fractional_scales(state: &mut CompositorState)
    ensures
        final(state)@ == old(state)@.update_fractional_scales(),
{
    let ghost now = state@;
    let objects = {
        let seen: &CompositorState = state;
        seen.surf.fractional_scales.keys_where(
            |k: &ClientObjectId, b: &FractionalScaleBinding| -> (r: bool)
                ensures
                    r == outdated(now)(*k, b@)
            {
                let scale = seen.preferred_scale((k.0, b.surface_id));
                match b.sent {
                    Some(sent) => sent != scale,
                    None => true,
                }
            },
            Ghost(outdated(now)),
        )
    };
    proof {
        assert forall|i: int| 0 <= i < objects@.len() implies now.surf.fractional_scales.has(#[trigger] objects@[i]) by {
            assert(objects@.contains(objects@[i]));
        }
    }
    let scales = scales_for(state, &objects);
    let mut i: usize = 0;
    while i < objects.len()
        invariant
            i <= objects@.len(),
            scales@.len() == objects@.len(),
            forall|j: int| 0 <= j < scales@.len() ==> #[trigger] scales@[j] == now.scale_for(objects@[j]),
            state@ == now.rescale_each(now, objects@.take(i as int)),
        decreases objects@.len() - i,
    {
        proof {
            assert(objects@.take(i + 1).drop_last() =~= objects@.take(i as int));
        }
        send_preferred_scale(state, objects[i], scales[i]);
        note_scale(state, objects[i], scales[i]);
        i += 1;
    }
    proof {
        assert(objects@.take(i as int) =~= objects@);
    }
}

/// Tell clients which outputs each of their surfaces is displayed on.
///
/// A client cannot choose a buffer scale without this: `wl_output.scale` is per
/// output, so the surface has to know which outputs it overlaps. The full set is
/// recomputed and diffed against what each surface has already been told, so
/// this is idempotent and safe to run every frame.
pub fn update_surface_outputs<S: Shell>(state: &mut CompositorState, shell: &S)
    ensures
        final(state)@ == old(state)@.update_surface_outputs(*shell),
{
    let mut enters: Vec<Seen> = Vec::new();
    let mut leaves: Vec<Seen> = Vec::new();
    let seen = survey(state, shell, &mut enters, &mut leaves);
    look_again(state, shell, seen);
    enter_each(state, &enters);
    depart_each(state, &leaves);
    update_fractional_scales(state);
}

} // verus!
