//! Places: where panels go, how large surfaces are, and which outputs they are on.
use crate::input::outputs::{overlapped, overlaps};
use crate::laws::composing::{fit, put_on};
use crate::laws::filling::{lemma_usable_is_what_is_not_reserved, reserved};
use crate::laws::layers::lemma_layers_are_in_order;
use crate::layer::{placed, Rect};
use crate::shell::Shell;
use crate::state::compositor_state::StateView;
use crate::state::types::{
    BufferTransform, ClientObjectId, LayerSurfaceStatePending, OutputId, OutputView,
};
use vstd::prelude::*;

verus! {

/// Whether a number is far from the ends of the range of coordinates.
pub open spec fn modest(n: int) -> bool {
    -0x1000_0000 < n < 0x1000_0000
}

/// Whether a stretch is where its anchors put it: against the end it is held to,
/// a margin away, or midway between the ends. It is as long as it asks to be, and
/// if it does not ask and is held to both ends it reaches from the one to the
/// other, less the margins.
pub open spec fn well_put(
    at: int,
    length: int,
    start: int,
    room: int,
    to_start: bool,
    to_end: bool,
    margin_start: int,
    margin_end: int,
    asked: int,
) -> bool {
    let end = start + room;
    &&& asked > 0 ==> length == asked
    &&& asked <= 0 && to_start && to_end && margin_start + margin_end <= room ==> length == room - margin_start
        - margin_end
    &&& asked <= 0 && to_start && to_end && margin_start + margin_end > room ==> length == 0
    &&& asked <= 0 && !(to_start && to_end) ==> length == 0
    &&& to_start && !to_end ==> at == start + margin_start
    &&& to_end && !to_start ==> at + length == end - margin_end
    &&& !to_start && !to_end ==> -1 <= (at - start) - (end - at - length) <= 1
    &&& to_start && to_end && margin_start + margin_end <= room ==> -1 <= (at - start - margin_start) - (end
        - margin_end - at - length) <= 1
}

/// A panel goes where its anchors, its margins and the size it asks for put it.
pub proof fn lemma_panel_is_put_by_its_anchors(area: Rect, layer: LayerSurfaceStatePending)
    requires
        modest(area.x as int) && modest(area.y as int),
        0 <= area.width && modest(area.width as int),
        0 <= area.height && modest(area.height as int),
        modest(layer.margin.0 as int) && modest(layer.margin.1 as int),
        modest(layer.margin.2 as int) && modest(layer.margin.3 as int),
        modest(layer.size.0 as int) && modest(layer.size.1 as int),
    ensures
        ({
            let r = placed(area, layer);
            let a = layer.anchor.0;
            let (top, right, bottom, left) = layer.margin;
            &&& well_put(
                r.x as int,
                r.width as int,
                area.x as int,
                area.width as int,
                a & 4 != 0,
                a & 8 != 0,
                left as int,
                right as int,
                layer.size.0 as int,
            )
            &&& well_put(
                r.y as int,
                r.height as int,
                area.y as int,
                area.height as int,
                a & 1 != 0,
                a & 2 != 0,
                top as int,
                bottom as int,
                layer.size.1 as int,
            )
        }),
{
}

/// The rectangle that panels have left of an area.
pub open spec fn left_by(s: StateView, full: Rect, keys: Seq<ClientObjectId>) -> Rect {
    let (top, right, bottom, left) = reserved(s, keys);
    Rect {
        x: left as i32,
        y: top as i32,
        width: (if left + right <= full.width { full.width - left - right } else { 0 }) as i32,
        height: (if top + bottom <= full.height { full.height - top - bottom } else { 0 }) as i32,
    }
}

/// Each panel of an output is put in what the ones before it have left, or in all
/// of the output if it wants no part in reservations.
pub proof fn lemma_panel_goes_in_what_is_left(s: StateView, full: Rect, keys: Seq<ClientObjectId>, i: int)
    requires
        full.x == 0,
        full.y == 0,
        full.width >= 0,
        full.height >= 0,
        0 <= i < keys.len(),
        reserved(s, keys.take(i)).0 <= i32::MAX,
        reserved(s, keys.take(i)).3 <= i32::MAX,
    ensures
        s.arranged(full, keys).placements.len() == keys.len(),
        s.arranged(full, keys).placements[i].0 == keys[i],
        ({
            let layer = s.layers.layer_surfaces.at(keys[i]).current;
            let within = if layer.exclusive_zone < 0 {
                full
            } else {
                left_by(s, full, keys.take(i))
            };
            s.arranged(full, keys).placements[i].1 == placed(within, layer)
        }),
    decreases keys.len(),
{
    let before = s.arranged(full, keys.drop_last());
    if i < keys.len() - 1 {
        assert(keys.drop_last().take(i) =~= keys.take(i));
        lemma_panel_goes_in_what_is_left(s, full, keys.drop_last(), i);
    } else {
        lemma_placements_count(s, full, keys.drop_last());
        assert(keys.take(i) =~= keys.drop_last());
        lemma_usable_is_what_is_not_reserved(s, full, keys.drop_last());
    }
}

proof fn lemma_placements_count(s: StateView, full: Rect, keys: Seq<ClientObjectId>)
    ensures
        s.arranged(full, keys).placements.len() == keys.len(),
        forall|i: int| 0 <= i < keys.len() ==> (#[trigger] s.arranged(full, keys).placements[i]).0 == keys[i],
    decreases keys.len(),
{
    if keys.len() > 0 {
        lemma_placements_count(s, full, keys.drop_last());
    }
}

proof fn lemma_placement_found(s: StateView, full: Rect, keys: Seq<ClientObjectId>, i: int, n: nat)
    requires
        keys.no_duplicates(),
        0 <= i < keys.len(),
        n <= keys.len(),
    ensures
        s.arranged(full, keys).placement_among(keys[i], n) == if i < n {
            Some(s.arranged(full, keys).placements[i].1)
        } else {
            None
        },
    decreases n,
{
    lemma_placements_count(s, full, keys);
    if n > 0 {
        lemma_placement_found(s, full, keys, i, (n - 1) as nat);
        assert(s.arranged(full, keys).placements[n - 1].0 == keys[n - 1]);
    }
}

proof fn lemma_output_found(s: StateView, i: int, n: nat)
    requires
        0 <= i < s.out.outputs.len(),
        n <= s.out.outputs.len(),
        forall|j: int| 0 <= j < i ==> (#[trigger] s.out.outputs[j]).id != s.out.outputs[i].id,
    ensures
        s.output_among(s.out.outputs[i].id, n) == if i < n {
            Some(s.out.outputs[i])
        } else {
            None
        },
    decreases n,
{
    if n > 0 {
        lemma_output_found(s, i, (n - 1) as nat);
    }
}

/// Every panel of an output there is has a place: where it is put on the output,
/// from where the output begins.
pub proof fn lemma_panel_is_on_its_output(s: StateView, n: int, i: int)
    requires
        s.layers.layer_surfaces.ok(),
        0 <= n < s.out.outputs.len(),
        forall|j: int| 0 <= j < n ==> (#[trigger] s.out.outputs[j]).id != s.out.outputs[n].id,
        0 <= i < s.ordered_for_output(s.out.outputs[n].id).len(),
    ensures
        ({
            let o = s.out.outputs[n];
            let keys = s.ordered_for_output(o.id);
            let full = Rect { x: 0, y: 0, width: o.width, height: o.height };
            let local = s.arranged(full, keys).placements[i].1;
            match s.layer_geometry(keys[i]) {
                Some(g) => {
                    &&& g.x == fit(local.x + o.geometry.x)
                    &&& g.y == fit(local.y + o.geometry.y)
                    &&& g.width == local.width
                    &&& g.height == local.height
                },
                None => false,
            }
        }),
{
    let o = s.out.outputs[n];
    let keys = s.ordered_for_output(o.id);
    lemma_layers_are_in_order(s, o.id);
    lemma_output_found(s, n, s.out.outputs.len());
    assert(keys.contains(keys[i]));
    lemma_placements_count(s, Rect::whole(o), keys);
    lemma_placement_found(s, Rect::whole(o), keys, i, keys.len());
}

/// A surface without a viewport is as large as its buffer, divided by the scale
/// and rounded down, with the sides exchanged if the buffer is turned a quarter.
/// One whose viewport gives a size has that size.
pub proof fn lemma_surface_is_as_large_as_its_buffer(s: StateView, key: ClientObjectId)
    requires
        s.surf.surfaces.has(key),
        s.surf.surfaces.at(key).buffer_id is Some,
        s.mem.buffers.has((key.0, s.surf.surfaces.at(key).buffer_id->0)),
        s.surf.surfaces.at(key).buffer_scale >= 1,
        s.mem.buffers.at((key.0, s.surf.surfaces.at(key).buffer_id->0)).width >= s.surf.surfaces.at(key).buffer_scale,
        s.mem.buffers.at((key.0, s.surf.surfaces.at(key).buffer_id->0)).height >= s.surf.surfaces.at(key).buffer_scale,
    ensures
        ({
            let surface = s.surf.surfaces.at(key);
            let b = s.mem.buffers.at((key.0, surface.buffer_id->0));
            let scale = surface.buffer_scale as int;
            let size = s.surface_size(key);
            let turned = match surface.buffer_transform {
                BufferTransform::Normal | BufferTransform::Rotate180 | BufferTransform::Flipped
                | BufferTransform::FlippedRotate180 => false,
                _ => true,
            };
            let (w, h) = if turned {
                (size.1 as int, size.0 as int)
            } else {
                (size.0 as int, size.1 as int)
            };
            &&& !s.surf.surface_viewport.has(key) ==> {
                &&& w * scale <= b.width < (w + 1) * scale
                &&& h * scale <= b.height < (h + 1) * scale
            }
            &&& s.surf.surface_viewport.has(key) ==> {
                let v = (key.0, s.surf.surface_viewport.at(key));
                s.surf.viewports.has(v) && s.surf.viewports.at(v).destination is Some && (
                s.surf.viewports.at(v).destination->0).0 > 0 && (s.surf.viewports.at(v).destination->0).1 > 0
                    ==> Some(size) == s.surf.viewports.at(v).destination
            }
        }),
{
    let surface = s.surf.surfaces.at(key);
    let b = s.mem.buffers.at((key.0, surface.buffer_id->0));
    let scale = surface.buffer_scale as int;
    lemma_divided(b.width as int, scale);
    lemma_divided(b.height as int, scale);
    assert(b.width as int * 256 / 256 == b.width);
    assert(b.height as int * 256 / 256 == b.height);
}

proof fn lemma_divided(n: int, by: int)
    requires
        by >= 1,
        n >= by,
    ensures
        (n / by) * by <= n < (n / by + 1) * by,
        1 <= n / by <= n,
{
    vstd::arithmetic::div_mod::lemma_fundamental_div_mod(n, by);
    assert((n / by) * by <= n < (n / by + 1) * by && 1 <= n / by <= n) by (nonlinear_arith)
        requires
            by >= 1,
            n >= by,
            n == by * (n / by) + n % by,
            0 <= n % by < by,
    ;
}

/// A surface with no buffer has no size.
pub proof fn lemma_no_buffer_no_size(s: StateView, key: ClientObjectId)
    requires
        !s.surf.surfaces.has(key) || s.surf.surfaces.at(key).buffer_id is None || !s.mem.buffers.has(
            (key.0, s.surf.surfaces.at(key).buffer_id->0),
        ),
    ensures
        s.surface_size(key) == (0i32, 0i32),
{
}

/// Whether a pixel is on both a rectangle and an output.
pub open spec fn on_both(o: OutputView, at: (i32, i32), size: (i32, i32), x: int, y: int) -> bool {
    &&& at.0 <= x < at.0 + size.0
    &&& at.1 <= y < at.1 + size.1
    &&& o.geometry.x <= x < o.geometry.x + o.width
    &&& o.geometry.y <= y < o.geometry.y + o.height
}

/// Whether a rectangle is on an output: there is a pixel that is on both.
pub open spec fn shares(o: OutputView, at: (i32, i32), size: (i32, i32)) -> bool {
    exists|x: int, y: int| #[trigger] on_both(o, at, size, x, y)
}

/// A surface is on the outputs that it shares a pixel with, and on no other.
pub proof fn lemma_on_what_it_shares_pixels_with(outputs: Seq<OutputView>, at: (i32, i32), size: (i32, i32), id: OutputId)
    requires
        size.0 > 0,
        size.1 > 0,
        at.0 + size.0 <= i32::MAX,
        at.1 + size.1 <= i32::MAX,
        forall|i: int| 0 <= i < outputs.len() ==> (#[trigger] outputs[i]).width > 0 && outputs[i].height > 0,
    ensures
        overlapped(outputs, at, size).contains(id) <==> exists|i: int|
            0 <= i < outputs.len() && (#[trigger] outputs[i]).id == id && shares(outputs[i], at, size),
    decreases outputs.len(),
{
    if outputs.len() > 0 {
        let rest = outputs.drop_last();
        let o = outputs.last();
        let last = outputs.len() - 1;
        assert(outputs[last] == o);
        assert forall|i: int| 0 <= i < rest.len() implies (#[trigger] rest[i]).width > 0 && rest[i].height > 0 by {
            assert(rest[i] == outputs[i]);
        }
        lemma_on_what_it_shares_pixels_with(rest, at, size, id);
        let before = overlapped(rest, at, size);
        let x = if at.0 > o.geometry.x { at.0 as int } else { o.geometry.x as int };
        let y = if at.1 > o.geometry.y { at.1 as int } else { o.geometry.y as int };
        assert(overlaps(o, at, size) == shares(o, at, size)) by {
            if overlaps(o, at, size) {
                assert(on_both(o, at, size, x, y));
            }
        }
        let after = overlapped(outputs, at, size);
        if before.contains(id) {
            let i = before.index_of(id);
            assert(after[i] == id);
            let j = choose|j: int| 0 <= j < rest.len() && (#[trigger] rest[j]).id == id && shares(rest[j], at, size);
            assert(outputs[j] == rest[j]);
        }
        if shares(o, at, size) && o.id == id && !before.contains(id) {
            assert(after[before.len() as int] == id);
        }
        if after.contains(id) && !before.contains(id) {
            let i = after.index_of(id);
            assert(i == before.len());
        }
        if exists|i: int| 0 <= i < outputs.len() && (#[trigger] outputs[i]).id == id && shares(outputs[i], at, size) {
            let i = choose|i: int|
                0 <= i < outputs.len() && (#[trigger] outputs[i]).id == id && shares(outputs[i], at, size);
            if i < last {
                assert(rest[i] == outputs[i]);
            }
        }
    }
}

/// Whether a pixel is on an output.
pub open spec fn pixel_on(o: OutputView, x: int, y: int) -> bool {
    &&& o.geometry.x <= x < o.geometry.x + o.width
    &&& o.geometry.y <= y < o.geometry.y + o.height
}

proof fn lemma_first_output(s: StateView, x: int, y: int, n: nat)
    requires
        n <= s.out.outputs.len(),
    ensures
        match s.output_at_among(x, y, n) {
            Some(id) => exists|i: int|
                {
                    &&& 0 <= i < n
                    &&& (#[trigger] s.out.outputs[i]).id == id
                    &&& pixel_on(s.out.outputs[i], x, y)
                    &&& forall|j: int| 0 <= j < i ==> !pixel_on(#[trigger] s.out.outputs[j], x, y)
                },
            None => forall|i: int| 0 <= i < n ==> !pixel_on(#[trigger] s.out.outputs[i], x, y),
        },
    decreases n,
{
    if n > 0 {
        lemma_first_output(s, x, y, (n - 1) as nat);
        if s.output_at_among(x, y, (n - 1) as nat) is None && pixel_on(s.out.outputs[n - 1], x, y) {
            assert(s.out.outputs[n - 1].id == s.output_at_among(x, y, n)->0);
        }
    }
}

/// A new window opens on the output under the pointer, and if there is none there
/// on the first.
pub proof fn lemma_window_opens_under_the_pointer(s: StateView)
    ensures
        ({
            let c = s.input.cursor;
            match s.output_for_new_window() {
                Some(id) => exists|i: int|
                    {
                        &&& 0 <= i < s.out.outputs.len()
                        &&& (#[trigger] s.out.outputs[i]).id == id
                        &&& forall|j: int| 0 <= j < i ==> !pixel_on(#[trigger] s.out.outputs[j], c.0 as int, c.1 as int)
                        &&& pixel_on(s.out.outputs[i], c.0 as int, c.1 as int) || (i == 0 && forall|j: int|
                            0 <= j < s.out.outputs.len() ==> !pixel_on(
                                #[trigger] s.out.outputs[j],
                                c.0 as int,
                                c.1 as int,
                            ))
                    },
                None => s.out.outputs.len() == 0,
            }
        }),
{
    let c = s.input.cursor;
    lemma_first_output(s, c.0 as int, c.1 as int, s.out.outputs.len());
    if s.output_at(c.0 as int, c.1 as int) is None && s.out.outputs.len() > 0 {
        assert(s.out.outputs[0].id == s.output_for_new_window()->0);
    }
}

/// The window that takes the focus when nothing has it is the top one where a new
/// window would open, and if there is none there the top one of the first output
/// that has any.
pub proof fn lemma_top_window<S: Shell>(s: StateView, shell: S)
    ensures
        ({
            let here = s.output_for_new_window();
            let top = s.top_visible_toplevel(shell);
            &&& here is Some && shell.stack_on(here->0).len() > 0 ==> top == Some(shell.stack_on(here->0).last())
            &&& here is None || shell.stack_on(here->0).len() == 0 ==> match top {
                Some(k) => exists|i: int|
                    {
                        &&& 0 <= i < s.out.outputs.len()
                        &&& shell.stack_on((#[trigger] s.out.outputs[i]).id).len() > 0
                        &&& k == shell.stack_on(s.out.outputs[i].id).last()
                        &&& forall|j: int| 0 <= j < i ==> shell.stack_on((#[trigger] s.out.outputs[j]).id).len() == 0
                    },
                None => forall|i: int|
                    0 <= i < s.out.outputs.len() ==> shell.stack_on((#[trigger] s.out.outputs[i]).id).len() == 0,
            }
        }),
{
    lemma_top_among(s, shell, s.out.outputs.len());
}

proof fn lemma_top_among<S: Shell>(s: StateView, shell: S, n: nat)
    requires
        n <= s.out.outputs.len(),
    ensures
        match s.top_among(shell, n) {
            Some(k) => exists|i: int|
                {
                    &&& 0 <= i < n
                    &&& shell.stack_on((#[trigger] s.out.outputs[i]).id).len() > 0
                    &&& k == shell.stack_on(s.out.outputs[i].id).last()
                    &&& forall|j: int| 0 <= j < i ==> shell.stack_on((#[trigger] s.out.outputs[j]).id).len() == 0
                },
            None => forall|i: int| 0 <= i < n ==> shell.stack_on((#[trigger] s.out.outputs[i]).id).len() == 0,
        },
    decreases n,
{
    if n > 0 {
        lemma_top_among(s, shell, (n - 1) as nat);
        if s.top_among(shell, (n - 1) as nat) is None && shell.stack_on(s.out.outputs[n - 1].id).len() > 0 {
            assert(s.top_among(shell, n) == Some(shell.stack_on(s.out.outputs[n - 1].id).last()));
        }
    }
}

proof fn lemma_highest(s: StateView, on: Seq<OutputId>)
    ensures
        forall|i: int|
            0 <= i < on.len() && s.output(#[trigger] on[i]) is Some ==> (s.output(on[i])->0).scale.0 <= s.highest_scale(on),
        s.highest_scale(on) > 0 ==> exists|i: int|
            0 <= i < on.len() && s.output(#[trigger] on[i]) is Some && (s.output(on[i])->0).scale.0 == s.highest_scale(on),
    decreases on.len(),
{
    if on.len() > 0 {
        let rest = on.drop_last();
        lemma_highest(s, rest);
        assert(on[on.len() - 1] == on.last());
        assert forall|i: int| 0 <= i < on.len() && s.output(#[trigger] on[i]) is Some implies (s.output(on[i])->0).scale.0
            <= s.highest_scale(on) by {
            if i < rest.len() {
                assert(rest[i] == on[i]);
            }
        }
        if s.highest_scale(on) > 0 {
            if s.highest_scale(on) == s.highest_scale(rest) {
                let i = choose|i: int|
                    0 <= i < rest.len() && s.output(#[trigger] rest[i]) is Some && (s.output(rest[i])->0).scale.0
                        == s.highest_scale(rest);
                assert(on[i] == rest[i]);
            } else {
                assert(s.output(on[on.len() - 1]) is Some);
            }
        }
    }
}

/// A surface is best drawn at the highest scale among the outputs it is on. One
/// that is on none is best drawn at that of the output a new window opens on.
pub proof fn lemma_highest_scale_is_preferred(s: StateView, key: ClientObjectId, i: int)
    requires
        s.surf.surfaces.has(key),
        0 <= i < s.surf.surfaces.at(key).visible_on.len(),
        s.output(s.surf.surfaces.at(key).visible_on[i]) is Some,
        (s.output(s.surf.surfaces.at(key).visible_on[i])->0).scale.0 > 0,
    ensures
        ({
            let on = s.surf.surfaces.at(key).visible_on;
            let best = s.preferred_scale(key);
            &&& forall|j: int|
                0 <= j < on.len() && s.output(#[trigger] on[j]) is Some ==> (s.output(on[j])->0).scale.0 <= best
            &&& exists|j: int|
                0 <= j < on.len() && s.output(#[trigger] on[j]) is Some && (s.output(on[j])->0).scale.0 == best
        }),
{
    let on = s.surf.surfaces.at(key).visible_on;
    lemma_highest(s, on);
    assert(s.output(on[i]) is Some);
}

/// A surface with no parent is where it is, and one on it is where its place on
/// it puts it.
pub proof fn lemma_child_is_on_its_parent(s: StateView, parent: ClientObjectId, child: u32)
    requires
        s.surf.surfaces.has(parent),
        s.surf.surfaces.at(parent).parent is None,
        s.surf.surfaces.at(parent).subsurface_position == (0i32, 0i32),
        s.surf.surfaces.has((parent.0, child)),
        s.surf.surfaces.at((parent.0, child)).parent == Some(parent.1),
        s.surface_count() > 0,
    ensures
        s.global_position(parent) == s.surf.surfaces.at(parent).position,
        s.global_position((parent.0, child)) == put_on(
            s.surf.surfaces.at(parent).position,
            s.surf.surfaces.at((parent.0, child)).subsurface_position,
        ),
{
    reveal_with_fuel(StateView::placed_within, 3);
}

} // verus!
