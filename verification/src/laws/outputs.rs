//! Telling clients what outputs their surfaces are on: doing it again changes
//! nothing.
use crate::input::outputs::{changes, each_seen, outdated, overlaps, Seen, seen_again};
use crate::protocol::wl_surface::{SURFACE_ENTER, SURFACE_LEAVE};
use crate::seqs::lemma_filter_facts;
use crate::shell::Shell;
use crate::state::compositor_state::StateView;
use crate::state::surfaces::moved;
use crate::state::types::{ClientObjectId, OutputId, OutputView, SurfaceView};
use crate::table::{lemma_set_without, set_put, set_without};
use vstd::prelude::*;

verus! {

/// Whether two surfaces differ at most in the outputs they are on and were told
/// of.
pub open spec fn same_place(x: SurfaceView, y: SurfaceView) -> bool {
    y == (SurfaceView { entered_outputs: y.entered_outputs, visible_on: y.visible_on, ..x })
}

/// Whether two states have the same surfaces in the same places on the same
/// outputs.
pub open spec fn same_layout(a: StateView, b: StateView) -> bool {
    &&& b.out == a.out
    &&& b.mem == a.mem
    &&& b.input == a.input
    &&& b.surf.viewports == a.surf.viewports
    &&& b.surf.surface_viewport == a.surf.surface_viewport
    &&& b.surf.surfaces.order == a.surf.surfaces.order
    &&& forall|k: ClientObjectId| #[trigger] b.surf.surfaces.has(k) <==> a.surf.surfaces.has(k)
    &&& forall|k: ClientObjectId|
        a.surf.surfaces.has(k) ==> same_place(a.surf.surfaces.at(k), #[trigger] b.surf.surfaces.at(k))
}

proof fn lemma_layout_twice(a: StateView, b: StateView, c: StateView)
    requires
        same_layout(a, b),
        same_layout(b, c),
    ensures
        same_layout(a, c),
{
    assert forall|k: ClientObjectId| #[trigger] c.surf.surfaces.has(k) <==> a.surf.surfaces.has(k) by {
        assert(b.surf.surfaces.has(k) <==> a.surf.surfaces.has(k));
    }
    assert forall|k: ClientObjectId| a.surf.surfaces.has(k) implies same_place(
        a.surf.surfaces.at(k),
        #[trigger] c.surf.surfaces.at(k),
    ) by {
        assert(b.surf.surfaces.has(k));
        assert(same_place(a.surf.surfaces.at(k), b.surf.surfaces.at(k)));
    }
}

proof fn lemma_same_root(a: StateView, b: StateView, client_id: u32, id: u32, fuel: nat)
    requires
        same_layout(a, b),
    ensures
        a.root_within(client_id, id, fuel) == b.root_within(client_id, id, fuel),
    decreases fuel,
{
    let key = (client_id, id);
    assert(b.surf.surfaces.has(key) <==> a.surf.surfaces.has(key));
    if a.surf.surfaces.has(key) {
        assert(same_place(a.surf.surfaces.at(key), b.surf.surfaces.at(key)));
        if let Some(p) = a.surf.surfaces.at(key).parent {
            if fuel > 0 {
                lemma_same_root(a, b, client_id, p, (fuel - 1) as nat);
            }
        }
    }
}

proof fn lemma_same_position(a: StateView, b: StateView, client_id: u32, id: u32, at: (i32, i32), fuel: nat)
    requires
        same_layout(a, b),
    ensures
        a.placed_within(client_id, id, at, fuel) == b.placed_within(client_id, id, at, fuel),
    decreases fuel,
{
    let key = (client_id, id);
    assert(b.surf.surfaces.has(key) <==> a.surf.surfaces.has(key));
    if a.surf.surfaces.has(key) {
        assert(same_place(a.surf.surfaces.at(key), b.surf.surfaces.at(key)));
        let here = moved(at, a.surf.surfaces.at(key).subsurface_position);
        if let Some(p) = a.surf.surfaces.at(key).parent {
            if fuel > 0 {
                lemma_same_position(a, b, client_id, p, here, (fuel - 1) as nat);
            }
        }
    }
}

proof fn lemma_same_size(a: StateView, b: StateView, key: ClientObjectId)
    requires
        same_layout(a, b),
    ensures
        a.surface_size(key) == b.surface_size(key),
{
    assert(b.surf.surfaces.has(key) <==> a.surf.surfaces.has(key));
    if a.surf.surfaces.has(key) {
        assert(same_place(a.surf.surfaces.at(key), b.surf.surfaces.at(key)));
    }
}

proof fn lemma_same_sight<S: Shell>(a: StateView, b: StateView, shell: S, key: ClientObjectId)
    requires
        same_layout(a, b),
        a.surf.surfaces.has(key),
    ensures
        a.out_of_sight(shell, key) == b.out_of_sight(shell, key),
        a.no_area(key) == b.no_area(key),
        a.now_on(shell, key) == b.now_on(shell, key),
        a.global_position(key) == b.global_position(key),
        a.surface_size(key) == b.surface_size(key),
{
    assert(same_place(a.surf.surfaces.at(key), b.surf.surfaces.at(key)));
    lemma_same_root(a, b, key.0, key.1, a.surface_count());
    lemma_same_position(a, b, key.0, key.1, (0, 0), a.surface_count());
    lemma_same_size(a, b, key);
}

/// Whether a client has an object to name an output by.
pub open spec fn can_name(s: StateView, key: ClientObjectId, o: OutputId) -> bool {
    s.bound_output_objects(key.0, o).len() > 0
}

/// The outputs a surface was told it is on.
pub open spec fn told(s: StateView, key: ClientObjectId) -> Seq<OutputId> {
    s.surf.surfaces.at(key).entered_outputs
}

proof fn lemma_told_objects(s: StateView, surface: ClientObjectId, op_code: u16, objects: Seq<ClientObjectId>)
    ensures
        s.tell_objects(surface, op_code, objects).surf == s.surf,
        s.tell_objects(surface, op_code, objects).out == s.out,
        s.tell_objects(surface, op_code, objects).mem == s.mem,
        s.tell_objects(surface, op_code, objects).input == s.input,
    decreases objects.len(),
{
    if objects.len() > 0 {
        lemma_told_objects(s, surface, op_code, objects.drop_last());
    }
}

proof fn lemma_set_put_contains(s: Seq<OutputId>, x: OutputId, y: OutputId)
    ensures
        set_put(s, x).contains(y) <==> s.contains(y) || y == x,
{
    let t = set_put(s, x);
    if !s.contains(x) {
        if s.contains(y) {
            let i = choose|i: int| 0 <= i < s.len() && s[i] == y;
            assert(t[i] == y);
        }
        assert(t[s.len() as int] == x);
        if t.contains(y) && y != x {
            let i = choose|i: int| 0 <= i < t.len() && t[i] == y;
            assert(s[i] == y);
        }
    }
}

proof fn lemma_set_without_contains(s: Seq<OutputId>, x: OutputId, y: OutputId)
    ensures
        set_without(s, x).contains(y) <==> s.contains(y) && y != x,
{
    lemma_filter_facts(s, |k: OutputId| k != x);
    lemma_set_without(s, x, |k: OutputId| k != x);
}

proof fn lemma_last_or_before(es: Seq<Seen>, e: Seen)
    requires
        es.len() > 0,
    ensures
        es.contains(e) <==> es.drop_last().contains(e) || es.last() == e,
{
    if es.contains(e) {
        let i = choose|i: int| 0 <= i < es.len() && es[i] == e;
        if i < es.len() - 1 {
            assert(es.drop_last()[i] == e);
        }
    }
    if es.drop_last().contains(e) {
        let i = choose|i: int| 0 <= i < es.len() - 1 && es.drop_last()[i] == e;
        assert(es[i] == e);
    }
    assert(es[es.len() - 1] == es.last());
}

proof fn lemma_enter(s: StateView, e: Seen)
    ensures
        same_layout(s, s.enter(e)),
        forall|k: ClientObjectId|
            s.surf.surfaces.has(k) ==> (#[trigger] s.enter(e).surf.surfaces.at(k)).visible_on == s.surf.surfaces.at(
                k,
            ).visible_on,
        s.enter(e).surf.fractional_scales == s.surf.fractional_scales,
{
    lemma_told_objects(s, e.surface, SURFACE_ENTER, s.bound_output_objects(e.surface.0, e.output));
}

proof fn lemma_depart(s: StateView, e: Seen)
    ensures
        same_layout(s, s.depart(e)),
        forall|k: ClientObjectId|
            s.surf.surfaces.has(k) ==> (#[trigger] s.depart(e).surf.surfaces.at(k)).visible_on == s.surf.surfaces.at(
                k,
            ).visible_on,
        s.depart(e).surf.fractional_scales == s.surf.fractional_scales,
{
    lemma_told_objects(s, e.surface, SURFACE_LEAVE, s.bound_output_objects(e.surface.0, e.output));
}

proof fn lemma_enter_each(s: StateView, es: Seq<Seen>, key: ClientObjectId, o: OutputId)
    requires
        s.surf.surfaces.has(key),
    ensures
        same_layout(s, s.enter_each(es)),
        s.enter_each(es).surf.surfaces.at(key).visible_on == s.surf.surfaces.at(key).visible_on,
        s.enter_each(es).surf.fractional_scales == s.surf.fractional_scales,
        told(s.enter_each(es), key).contains(o) <==> told(s, key).contains(o) || (can_name(s, key, o) && es.contains(
            Seen { surface: key, output: o },
        )),
    decreases es.len(),
{
    if es.len() > 0 {
        let before = s.enter_each(es.drop_last());
        lemma_enter_each(s, es.drop_last(), key, o);
        let e = es.last();
        lemma_enter(before, e);
        lemma_layout_twice(s, before, before.enter(e));
        lemma_last_or_before(es, Seen { surface: key, output: o });
        assert(before.surf.surfaces.has(key));
        lemma_told_objects(before, e.surface, SURFACE_ENTER, before.bound_output_objects(e.surface.0, e.output));
        lemma_set_put_contains(told(before, key), e.output, o);
    }
}

proof fn lemma_depart_each(s: StateView, es: Seq<Seen>, key: ClientObjectId, o: OutputId)
    requires
        s.surf.surfaces.has(key),
    ensures
        same_layout(s, s.depart_each(es)),
        s.depart_each(es).surf.surfaces.at(key).visible_on == s.surf.surfaces.at(key).visible_on,
        s.depart_each(es).surf.fractional_scales == s.surf.fractional_scales,
        told(s.depart_each(es), key).contains(o) <==> told(s, key).contains(o) && !es.contains(
            Seen { surface: key, output: o },
        ),
    decreases es.len(),
{
    if es.len() > 0 {
        let before = s.depart_each(es.drop_last());
        lemma_depart_each(s, es.drop_last(), key, o);
        let e = es.last();
        lemma_depart(before, e);
        lemma_layout_twice(s, before, before.depart(e));
        lemma_last_or_before(es, Seen { surface: key, output: o });
        assert(before.surf.surfaces.has(key));
        lemma_told_objects(before, e.surface, SURFACE_LEAVE, before.bound_output_objects(e.surface.0, e.output));
        lemma_set_without_contains(told(before, key), e.output, o);
    }
}

/// Whether an output of an id is among some, and shares area with a rectangle
/// or does not.
pub open spec fn one_is(outputs: Seq<OutputView>, o: OutputId, at: (i32, i32), size: (i32, i32), on: bool) -> bool {
    exists|i: int| 0 <= i < outputs.len() && (#[trigger] outputs[i]).id == o && overlaps(outputs[i], at, size) == on
}

/// Whether no two outputs have one id.
pub open spec fn ids_differ(outputs: Seq<OutputView>) -> bool {
    forall|i: int, j: int|
        0 <= i < outputs.len() && 0 <= j < outputs.len() && (#[trigger] outputs[i]).id == (#[trigger] outputs[j]).id
            ==> i == j
}

proof fn lemma_changes_contains(
    surface: ClientObjectId,
    outputs: Seq<OutputView>,
    at: (i32, i32),
    size: (i32, i32),
    known: Seq<OutputId>,
    on: bool,
    e: Seen,
)
    ensures
        changes(surface, outputs, at, size, known, on).contains(e) <==> e.surface == surface && one_is(
            outputs,
            e.output,
            at,
            size,
            on,
        ) && known.contains(e.output) != on,
    decreases outputs.len(),
{
    let all = changes(surface, outputs, at, size, known, on);
    if outputs.len() > 0 {
        let before = changes(surface, outputs.drop_last(), at, size, known, on);
        lemma_changes_contains(surface, outputs.drop_last(), at, size, known, on, e);
        let o = outputs.last();
        let chosen = overlaps(o, at, size) == on && known.contains(o.id) != on;
        if one_is(outputs.drop_last(), e.output, at, size, on) {
            let i = choose|i: int|
                0 <= i < outputs.len() - 1 && (#[trigger] outputs.drop_last()[i]).id == e.output && overlaps(
                    outputs.drop_last()[i],
                    at,
                    size,
                ) == on;
            assert(outputs[i].id == e.output);
        }
        if one_is(outputs, e.output, at, size, on) {
            let i = choose|i: int|
                0 <= i < outputs.len() && (#[trigger] outputs[i]).id == e.output && overlaps(outputs[i], at, size)
                    == on;
            if i < outputs.len() - 1 {
                assert(outputs.drop_last()[i].id == e.output);
            }
        }
        if chosen {
            lemma_last_or_before(all, e);
            assert(all.drop_last() =~= before);
            if all.last() == e {
                assert(outputs[outputs.len() - 1].id == e.output);
            }
        }
    }
}

proof fn lemma_each_seen_contains(surface: ClientObjectId, outputs: Seq<OutputId>, e: Seen)
    ensures
        each_seen(surface, outputs).contains(e) <==> e.surface == surface && outputs.contains(e.output),
{
    let all = each_seen(surface, outputs);
    if all.contains(e) {
        let i = choose|i: int| 0 <= i < all.len() && all[i] == e;
        assert(outputs[i] == e.output);
    }
    if e.surface == surface && outputs.contains(e.output) {
        let i = choose|i: int| 0 <= i < outputs.len() && outputs[i] == e.output;
        assert(all[i] == e);
    }
}

proof fn lemma_of_contains<S: Shell>(s: StateView, shell: S, key: ClientObjectId, e: Seen)
    ensures
        s.enters_of(shell, key).contains(e) <==> e.surface == key && !s.out_of_sight(shell, key) && !s.no_area(key)
            && one_is(s.out.outputs, e.output, s.global_position(key), s.surface_size(key), true) && !told(
            s,
            key,
        ).contains(e.output),
        s.leaves_of(shell, key).contains(e) <==> e.surface == key && told(s, key).contains(e.output) && (
        s.out_of_sight(shell, key) || (!s.no_area(key) && one_is(
            s.out.outputs,
            e.output,
            s.global_position(key),
            s.surface_size(key),
            false,
        ))),
{
    let (at, size) = (s.global_position(key), s.surface_size(key));
    lemma_changes_contains(key, s.out.outputs, at, size, told(s, key), true, e);
    lemma_changes_contains(key, s.out.outputs, at, size, told(s, key), false, e);
    lemma_each_seen_contains(key, told(s, key), e);
}

proof fn lemma_concat_contains(a: Seq<Seen>, b: Seq<Seen>, e: Seen)
    ensures
        (a + b).contains(e) <==> a.contains(e) || b.contains(e),
{
    if a.contains(e) {
        let i = choose|i: int| 0 <= i < a.len() && a[i] == e;
        assert((a + b)[i] == e);
    }
    if b.contains(e) {
        let i = choose|i: int| 0 <= i < b.len() && b[i] == e;
        assert((a + b)[a.len() + i] == e);
    }
    if (a + b).contains(e) {
        let i = choose|i: int| 0 <= i < (a + b).len() && (a + b)[i] == e;
        if i < a.len() {
            assert(a[i] == e);
        } else {
            assert(b[i - a.len()] == e);
        }
    }
}

proof fn lemma_lists_contain<S: Shell>(s: StateView, shell: S, keys: Seq<ClientObjectId>, e: Seen)
    ensures
        s.enters(shell, keys).contains(e) <==> keys.contains(e.surface) && s.enters_of(shell, e.surface).contains(e),
        s.leaves(shell, keys).contains(e) <==> keys.contains(e.surface) && s.leaves_of(shell, e.surface).contains(e),
    decreases keys.len(),
{
    if keys.len() > 0 {
        let last = keys.last();
        lemma_lists_contain(s, shell, keys.drop_last(), e);
        lemma_concat_contains(s.enters(shell, keys.drop_last()), s.enters_of(shell, last), e);
        lemma_concat_contains(s.leaves(shell, keys.drop_last()), s.leaves_of(shell, last), e);
        lemma_of_contains(s, shell, last, e);
        if keys.contains(e.surface) {
            let i = choose|i: int| 0 <= i < keys.len() && keys[i] == e.surface;
            if i < keys.len() - 1 {
                assert(keys.drop_last()[i] == e.surface);
            }
        }
        if keys.drop_last().contains(e.surface) {
            let i = choose|i: int| 0 <= i < keys.len() - 1 && keys.drop_last()[i] == e.surface;
            assert(keys[i] == e.surface);
        }
        assert(keys[keys.len() - 1] == last);
    }
}

proof fn lemma_look_again<S: Shell>(s: StateView, shell: S)
    ensures
        same_layout(s, s.look_again(shell)),
        s.look_again(shell).surf.fractional_scales == s.surf.fractional_scales,
        forall|k: ClientObjectId|
            s.surf.surfaces.has(k) ==> (#[trigger] s.look_again(shell).surf.surfaces.at(k)).entered_outputs
                == s.surf.surfaces.at(k).entered_outputs && s.look_again(shell).surf.surfaces.at(k).visible_on
                == match s.now_on(shell, k) {
                Some(on) => on,
                None => s.surf.surfaces.at(k).visible_on,
            },
{
}

proof fn lemma_rescale_each(s: StateView, w: StateView, objects: Seq<ClientObjectId>, k: ClientObjectId)
    ensures
        ({
            let t = s.rescale_each(w, objects);
            &&& t.surf.surfaces == s.surf.surfaces
            &&& t.surf.viewports == s.surf.viewports
            &&& t.surf.surface_viewport == s.surf.surface_viewport
            &&& t.out == s.out
            &&& t.mem == s.mem
            &&& t.input == s.input
            &&& t.surf.fractional_scales.order == s.surf.fractional_scales.order
            &&& t.surf.fractional_scales.has(k) <==> s.surf.fractional_scales.has(k)
            &&& s.surf.fractional_scales.has(k) ==> {
                let b = t.surf.fractional_scales.at(k);
                &&& b.surface_id == s.surf.fractional_scales.at(k).surface_id
                &&& b.sent == if objects.contains(k) {
                    Some(w.scale_for(k))
                } else {
                    s.surf.fractional_scales.at(k).sent
                }
            }
        }),
    decreases objects.len(),
{
    if objects.len() > 0 {
        let o = objects.last();
        lemma_rescale_each(s, w, objects.drop_last(), k);
        if objects.contains(k) {
            let i = choose|i: int| 0 <= i < objects.len() && objects[i] == k;
            if i < objects.len() - 1 {
                assert(objects.drop_last()[i] == k);
            }
        }
        if objects.drop_last().contains(k) {
            let i = choose|i: int| 0 <= i < objects.len() - 1 && objects.drop_last()[i] == k;
            assert(objects[i] == k);
        }
        assert(objects[objects.len() - 1] == o);
    }
}

proof fn lemma_same_scale(a: StateView, b: StateView, key: ClientObjectId)
    requires
        a.surf.surfaces == b.surf.surfaces,
        a.out == b.out,
        a.input == b.input,
    ensures
        a.preferred_scale(key) == b.preferred_scale(key),
{
    let on = if a.surf.surfaces.has(key) {
        a.surf.surfaces.at(key).visible_on
    } else {
        Seq::empty()
    };
    lemma_same_outputs(a, b, on);
}

proof fn lemma_same_output(a: StateView, b: StateView, id: OutputId, n: nat)
    requires
        a.out == b.out,
    ensures
        a.output_among(id, n) == b.output_among(id, n),
    decreases n,
{
    if n > 0 {
        lemma_same_output(a, b, id, (n - 1) as nat);
    }
}

proof fn lemma_same_output_at(a: StateView, b: StateView, x: int, y: int, n: nat)
    requires
        a.out == b.out,
    ensures
        a.output_at_among(x, y, n) == b.output_at_among(x, y, n),
    decreases n,
{
    if n > 0 {
        lemma_same_output_at(a, b, x, y, (n - 1) as nat);
    }
}

proof fn lemma_same_highest(a: StateView, b: StateView, on: Seq<OutputId>)
    requires
        a.out == b.out,
    ensures
        a.highest_scale(on) == b.highest_scale(on),
    decreases on.len(),
{
    if on.len() > 0 {
        lemma_same_highest(a, b, on.drop_last());
        lemma_same_output(a, b, on.last(), a.out.outputs.len());
    }
}

proof fn lemma_same_outputs(a: StateView, b: StateView, on: Seq<OutputId>)
    requires
        a.out == b.out,
        a.input == b.input,
    ensures
        a.highest_scale(on) == b.highest_scale(on),
        a.on_any(on) == b.on_any(on),
        a.output_for_new_window() == b.output_for_new_window(),
        forall|id: OutputId| #[trigger] a.output(id) == b.output(id),
{
    lemma_same_highest(a, b, on);
    assert forall|id: OutputId| #[trigger] a.output(id) == b.output(id) by {
        lemma_same_output(a, b, id, a.out.outputs.len());
    }
    if a.on_any(on) {
        let i = choose|i: int| 0 <= i < on.len() && a.output(#[trigger] on[i]) is Some;
        assert(b.output(on[i]) is Some);
    }
    if b.on_any(on) {
        let i = choose|i: int| 0 <= i < on.len() && b.output(#[trigger] on[i]) is Some;
        assert(a.output(on[i]) is Some);
    }
    lemma_same_output_at(a, b, a.input.cursor.0 as int, a.input.cursor.1 as int, a.out.outputs.len());
}

/// Telling every scale object what is best is done once: nothing is left to
/// tell.
pub proof fn lemma_scales_told_once(s: StateView)
    requires
        s.surf.fractional_scales.ok(),
    ensures
        s.update_fractional_scales().update_fractional_scales() == s.update_fractional_scales(),
{
    let t = s.update_fractional_scales();
    let objects = s.rescaled();
    let p = outdated(s);
    let q = outdated(t);
    let scales = t.surf.fractional_scales;
    assert forall|k: ClientObjectId| scales.has(k) implies !q(k, #[trigger] scales.at(k)) by {
        lemma_rescale_each(s, s, objects, k);
        let b = s.surf.fractional_scales.at(k);
        lemma_same_scale(s, t, (k.0, b.surface_id));
        lemma_filter_facts(s.surf.fractional_scales.order, |x: ClientObjectId| p(x, s.surf.fractional_scales.map[x]));
        assert(s.surf.fractional_scales.order.contains(k));
        if p(k, b) {
            assert(objects.contains(k));
        }
    }
    lemma_rescale_each(s, s, objects, (0, 0));
    let none = |x: ClientObjectId| q(x, scales.map[x]);
    lemma_filter_facts(scales.order, none);
    if t.rescaled().len() > 0 {
        let k = t.rescaled()[0];
        assert(t.rescaled().contains(k));
        assert(scales.order.contains(k));
        lemma_rescale_each(s, s, objects, k);
        assert(s.surf.fractional_scales.order.contains(k));
        assert(scales.has(k));
        assert(!q(k, scales.at(k)));
    }
}

proof fn lemma_enter_nothing(s: StateView, es: Seq<Seen>)
    requires
        forall|i: int| 0 <= i < es.len() ==> !can_name(s, (#[trigger] es[i]).surface, es[i].output),
    ensures
        s.enter_each(es) == s,
    decreases es.len(),
{
    if es.len() > 0 {
        assert forall|i: int| 0 <= i < es.len() - 1 implies !can_name(
            s,
            (#[trigger] es.drop_last()[i]).surface,
            es.drop_last()[i].output,
        ) by {
            assert(es[i] == es.drop_last()[i]);
        }
        lemma_enter_nothing(s, es.drop_last());
        assert(!can_name(s, es[es.len() - 1].surface, es[es.len() - 1].output));
    }
}

proof fn lemma_told_after<S: Shell>(s: StateView, shell: S, key: ClientObjectId, o: OutputId)
    requires
        s.surf.surfaces.ok(),
        s.surf.surfaces.has(key),
    ensures
        ({
            let keys = s.surf.surfaces.order;
            let e = Seen { surface: key, output: o };
            let entered = s.look_again(shell).enter_each(s.enters(shell, keys));
            let left = entered.depart_each(s.leaves(shell, keys));
            &&& same_layout(s, left)
            &&& left.surf.fractional_scales == s.surf.fractional_scales
            &&& left.surf.surfaces.at(key).visible_on == match s.now_on(shell, key) {
                Some(on) => on,
                None => s.surf.surfaces.at(key).visible_on,
            }
            &&& told(left, key).contains(o) <==> (told(s, key).contains(o) || (can_name(s, key, o) && s.enters_of(
                shell,
                key,
            ).contains(e))) && !s.leaves_of(shell, key).contains(e)
        }),
{
    let keys = s.surf.surfaces.order;
    let e = Seen { surface: key, output: o };
    let looked = s.look_again(shell);
    lemma_look_again(s, shell);
    assert(looked.surf.surfaces.has(key));
    assert(looked.surf.surfaces.at(key).entered_outputs == told(s, key));
    lemma_enter_each(looked, s.enters(shell, keys), key, o);
    let entered = looked.enter_each(s.enters(shell, keys));
    lemma_layout_twice(s, looked, entered);
    assert(entered.surf.surfaces.has(key));
    lemma_depart_each(entered, s.leaves(shell, keys), key, o);
    let left = entered.depart_each(s.leaves(shell, keys));
    lemma_layout_twice(s, entered, left);
    assert(keys.contains(key));
    lemma_lists_contain(s, shell, keys, e);
}

/// Telling clients which outputs their surfaces are on is safe to do every
/// frame: done again with nothing changed, it changes nothing and tells nobody
/// anything.
pub proof fn lemma_outputs_told_once<S: Shell>(s: StateView, shell: S)
    requires
        s.surf.surfaces.ok(),
        s.surf.fractional_scales.ok(),
        ids_differ(s.out.outputs),
    ensures
        s.update_surface_outputs(shell).update_surface_outputs(shell) == s.update_surface_outputs(shell),
{
    let keys = s.surf.surfaces.order;
    let left = s.look_again(shell).enter_each(s.enters(shell, keys)).depart_each(s.leaves(shell, keys));
    let t = s.update_surface_outputs(shell);
    assert(t == left.update_fractional_scales());
    lemma_left_layout(s, shell);
    lemma_rescale_each(left, left, left.rescaled(), (0, 0));
    assert(same_layout(left, t));
    lemma_layout_twice(s, left, t);
    // Every surface is on the outputs it was found on, and was told of exactly
    // those of them that its client can name.
    assert forall|k: ClientObjectId, o: OutputId| #![trigger told(t, k).contains(o)] s.surf.surfaces.has(k) implies {
        let e = Seen { surface: k, output: o };
        &&& told(t, k).contains(o) <==> (told(s, k).contains(o) || (can_name(s, k, o) && s.enters_of(
            shell,
            k,
        ).contains(e))) && !s.leaves_of(shell, k).contains(e)
    } by {
        lemma_told_after(s, shell, k, o);
    }
    assert(t.look_again(shell) == t) by {
        assert forall|k: ClientObjectId| t.surf.surfaces.has(k) implies #[trigger] seen_again(t, shell)(
            k,
            t.surf.surfaces.at(k),
        ) == t.surf.surfaces.at(k) by {
            assert(s.surf.surfaces.has(k));
            lemma_told_after(s, shell, k, 0);
            lemma_same_sight(s, t, shell, k);
        }
        assert(t.surf.surfaces.each(seen_again(t, shell)) =~= t.surf.surfaces);
    }
    let es = t.enters(shell, keys);
    assert forall|i: int| 0 <= i < es.len() implies !can_name(t, (#[trigger] es[i]).surface, es[i].output) by {
        let e = es[i];
        assert(es.contains(e));
        lemma_lists_contain(t, shell, keys, e);
        let k = e.surface;
        assert(s.surf.surfaces.has(k));
        lemma_of_contains(t, shell, k, e);
        lemma_of_contains(s, shell, k, e);
        lemma_same_sight(s, t, shell, k);
        assert(told(t, k).contains(e.output) == false);
        lemma_one_id(s.out.outputs, e.output, s.global_position(k), s.surface_size(k));
    }
    lemma_enter_nothing(t, es);
    let ls = t.leaves(shell, keys);
    assert(ls.len() == 0) by {
        if ls.len() > 0 {
            let e = ls[0];
            assert(ls.contains(e));
            lemma_lists_contain(t, shell, keys, e);
            let k = e.surface;
            assert(s.surf.surfaces.has(k));
            lemma_of_contains(t, shell, k, e);
            lemma_of_contains(s, shell, k, e);
            lemma_same_sight(s, t, shell, k);
            assert(told(t, k).contains(e.output));
            lemma_one_id(s.out.outputs, e.output, s.global_position(k), s.surface_size(k));
        }
    }
    lemma_scales_told_once(left);
}

proof fn lemma_one_id(outputs: Seq<OutputView>, o: OutputId, at: (i32, i32), size: (i32, i32))
    requires
        ids_differ(outputs),
    ensures
        !(one_is(outputs, o, at, size, true) && one_is(outputs, o, at, size, false)),
{
}

proof fn lemma_left_layout<S: Shell>(s: StateView, shell: S)
    ensures
        ({
            let keys = s.surf.surfaces.order;
            let left = s.look_again(shell).enter_each(s.enters(shell, keys)).depart_each(s.leaves(shell, keys));
            same_layout(s, left) && left.surf.fractional_scales == s.surf.fractional_scales
        }),
{
    let keys = s.surf.surfaces.order;
    lemma_look_again(s, shell);
    let looked = s.look_again(shell);
    lemma_enter_all(looked, s.enters(shell, keys));
    let entered = looked.enter_each(s.enters(shell, keys));
    lemma_layout_twice(s, looked, entered);
    lemma_depart_all(entered, s.leaves(shell, keys));
    lemma_layout_twice(s, entered, entered.depart_each(s.leaves(shell, keys)));
}

proof fn lemma_enter_all(s: StateView, es: Seq<Seen>)
    ensures
        same_layout(s, s.enter_each(es)),
        s.enter_each(es).surf.fractional_scales == s.surf.fractional_scales,
    decreases es.len(),
{
    if es.len() > 0 {
        let before = s.enter_each(es.drop_last());
        lemma_enter_all(s, es.drop_last());
        lemma_enter(before, es.last());
        lemma_layout_twice(s, before, before.enter(es.last()));
    }
}

proof fn lemma_depart_all(s: StateView, es: Seq<Seen>)
    ensures
        same_layout(s, s.depart_each(es)),
        s.depart_each(es).surf.fractional_scales == s.surf.fractional_scales,
    decreases es.len(),
{
    if es.len() > 0 {
        let before = s.depart_each(es.drop_last());
        lemma_depart_all(s, es.drop_last());
        lemma_depart(before, es.last());
        lemma_layout_twice(s, before, before.depart(es.last()));
    }
}

} // verus!
