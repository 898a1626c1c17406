//! Filling: where a window that fills its output goes, and what panels keep.
use crate::laws::layers::lemma_layers_are_in_order;
use crate::layer::Rect;
use crate::protocol::messages::{MessageView, Notice};
use crate::shell::Shell;
use crate::state::compositor_state::StateView;
use crate::state::types::{ClientObjectId, LayerSurfaceStatePending, OutputId};
use vstd::prelude::*;

verus! {

/// Whether a window can be put into a state on an output: it is not in it yet,
/// its surface is there, and the shell has it on that output.
pub open spec fn may_fill<S: Shell>(
    s: StateView,
    shell: S,
    toplevel: ClientObjectId,
    surface: ClientObjectId,
    i: int,
    maximized: bool,
    fullscreen: bool,
) -> bool {
    let t = s.win.xdg_toplevels.at(toplevel);
    let xdg = (toplevel.0, t.xdg_surface_id);
    &&& s.win.xdg_toplevels.has(toplevel)
    &&& t.maximized != maximized || t.fullscreen != fullscreen
    &&& s.win.xdg_surfaces.has(xdg)
    &&& surface == (toplevel.0, s.win.xdg_surfaces.at(xdg).wl_surface_id)
    &&& s.surf.surfaces.has(surface)
    &&& s.clients.has(toplevel.0)
    &&& 0 <= i < s.out.outputs.len()
    &&& shell.placed_on(surface) == Some(s.out.outputs[i].id)
    &&& forall|j: int| 0 <= j < i ==> (#[trigger] s.out.outputs[j]).id != s.out.outputs[i].id
}

proof fn lemma_found_output(s: StateView, i: int, n: nat)
    requires
        0 <= i < s.out.outputs.len(),
        n <= s.out.outputs.len(),
        forall|j: int| 0 <= j < i ==> (#[trigger] s.out.outputs[j]).id != s.out.outputs[i].id,
    ensures
        s.output_among(s.out.outputs[i].id, n) == if i < n {
            Some(s.out.outputs[i])
        } else {
            None
        },
    decreases n,
{
    if n > 0 {
        lemma_found_output(s, i, (n - 1) as nat);
    }
}

/// What a window was last asked for, and whether it was just asked.
pub open spec fn just_asked(s: StateView, t: StateView, toplevel: ClientObjectId, size: (i32, i32)) -> bool {
    &&& t.clients.at(toplevel.0).outbox == s.clients.at(toplevel.0).outbox.push(
        MessageView::Notice(Notice::ToplevelConfigure { toplevel: toplevel.1, width: size.0, height: size.1 }),
    )
}

/// A fullscreen window begins where its output does and is asked for all of it,
/// panels or no panels.
pub proof fn lemma_fullscreen_takes_it_all<S: Shell>(
    s: StateView,
    shell: S,
    toplevel: ClientObjectId,
    surface: ClientObjectId,
    i: int,
    maximized: bool,
)
    requires
        may_fill(s, shell, toplevel, surface, i, maximized, true),
    ensures
        ({
            let o = s.out.outputs[i];
            let t = s.set_window_state(shell, toplevel, maximized, true);
            &&& t.surf.surfaces.at(surface).position == (o.geometry.x, o.geometry.y)
            &&& just_asked(s, t, toplevel, (o.width, o.height))
            &&& t.win.xdg_toplevels.at(toplevel).fullscreen
            &&& t.win.xdg_toplevels.at(toplevel).maximized == maximized
            &&& t.dirty
        }),
{
    lemma_found_output(s, i, s.out.outputs.len());
}

/// The room that the panels of an output have reserved along its edges: along
/// the top, the right, the bottom and the left.
pub open spec fn reserved(s: StateView, keys: Seq<ClientObjectId>) -> (int, int, int, int)
    decreases keys.len(),
{
    if keys.len() == 0 {
        (0, 0, 0, 0)
    } else {
        let r = reserved(s, keys.drop_last());
        let l = s.layers.layer_surfaces.at(keys.last()).current;
        (
            r.0 + reserves(l, 1),
            r.1 + reserves(l, 8),
            r.2 + reserves(l, 2),
            r.3 + reserves(l, 4),
        )
    }
}

/// How much a panel reserves along an edge. It does so where it is held to that
/// edge, not to the opposite one, and to both ends of the edge.
pub open spec fn reserves(l: LayerSurfaceStatePending, edge: u32) -> int {
    let a = l.anchor.0;
    let across = (a & 4 != 0) && (a & 8 != 0);
    let along = (a & 1 != 0) && (a & 2 != 0);
    let holds = if edge == 1 {
        across && (a & 1 != 0) && (a & 2 == 0)
    } else if edge == 2 {
        across && (a & 2 != 0) && (a & 1 == 0)
    } else if edge == 4 {
        along && (a & 4 != 0) && (a & 8 == 0)
    } else {
        along && (a & 8 != 0) && (a & 4 == 0)
    };
    if holds && l.exclusive_zone > 0 {
        l.exclusive_zone as int
    } else {
        0
    }
}

proof fn lemma_reserved_sign(s: StateView, keys: Seq<ClientObjectId>)
    ensures
        reserved(s, keys).0 >= 0,
        reserved(s, keys).1 >= 0,
        reserved(s, keys).2 >= 0,
        reserved(s, keys).3 >= 0,
    decreases keys.len(),
{
    if keys.len() > 0 {
        lemma_reserved_sign(s, keys.drop_last());
    }
}

/// What is left of an area once panels have reserved room in it is what is left
/// of each side after the reservations along its two ends, in whatever order
/// they were made.
pub proof fn lemma_usable_is_what_is_not_reserved(s: StateView, full: Rect, keys: Seq<ClientObjectId>)
    requires
        full.x == 0,
        full.y == 0,
        full.width >= 0,
        full.height >= 0,
        reserved(s, keys).0 <= i32::MAX,
        reserved(s, keys).3 <= i32::MAX,
    ensures
        ({
            let (top, right, bottom, left) = reserved(s, keys);
            let u = s.arranged(full, keys).usable;
            &&& u.x == left
            &&& u.y == top
            &&& left + right <= full.width ==> u.width == full.width - left - right
            &&& left + right > full.width ==> u.width == 0
            &&& top + bottom <= full.height ==> u.height == full.height - top - bottom
            &&& top + bottom > full.height ==> u.height == 0
        }),
    decreases keys.len(),
{
    if keys.len() > 0 {
        lemma_reserved_sign(s, keys.drop_last());
        lemma_usable_is_what_is_not_reserved(s, full, keys.drop_last());
    }
}

/// Whether some keys are all the layer surfaces of an output, each of them once.
pub open spec fn panels_of(s: StateView, id: OutputId, keys: Seq<ClientObjectId>) -> bool {
    &&& keys.no_duplicates()
    &&& forall|k: ClientObjectId| #[trigger]
        keys.contains(k) <==> s.layers.layer_surfaces.has(k) && s.layers.layer_surfaces.at(k).output == Some(id)
}

proof fn lemma_reserved_swap(s: StateView, keys: Seq<ClientObjectId>, i: int)
    requires
        0 <= i < keys.len(),
    ensures
        ({
            let l = s.layers.layer_surfaces.at(keys[i]).current;
            let r = reserved(s, keys.remove(i));
            reserved(s, keys) == (
                r.0 + reserves(l, 1),
                r.1 + reserves(l, 8),
                r.2 + reserves(l, 2),
                r.3 + reserves(l, 4),
            )
        }),
    decreases keys.len(),
{
    if i == keys.len() - 1 {
        assert(keys.remove(i) =~= keys.drop_last());
    } else {
        lemma_reserved_swap(s, keys.drop_last(), i);
        assert(keys.remove(i).drop_last() =~= keys.drop_last().remove(i));
        assert(keys.remove(i).last() == keys.last());
    }
}

/// However a set of panels is listed, it reserves the same.
proof fn lemma_reserved_same(s: StateView, a: Seq<ClientObjectId>, b: Seq<ClientObjectId>)
    requires
        a.no_duplicates(),
        b.no_duplicates(),
        forall|k: ClientObjectId| #[trigger] a.contains(k) <==> b.contains(k),
    ensures
        reserved(s, a) == reserved(s, b),
    decreases a.len(),
{
    if a.len() == 0 {
        if b.len() > 0 {
            assert(b.contains(b[0]));
            assert(a.contains(b[0]));
        }
    } else {
        let k = a.last();
        assert(a[a.len() - 1] == k);
        assert(a.contains(k));
        let i = b.index_of(k);
        let rest = b.remove(i);
        lemma_reserved_swap(s, b, i);
        assert forall|x: int, y: int| 0 <= x < y < rest.len() implies rest[x] != rest[y] by {
            assert(b[if x < i { x } else { x + 1 }] != b[if y < i { y } else { y + 1 }]);
        }
        assert forall|x: ClientObjectId| #[trigger] a.drop_last().contains(x) <==> rest.contains(x) by {
            if a.drop_last().contains(x) {
                let j = a.drop_last().index_of(x);
                assert(a[j] == x);
                assert(a[j] != a[a.len() - 1]);
                assert(a.contains(x));
                let n = b.index_of(x);
                assert(rest[if n < i { n } else { n - 1 }] == x);
            }
            if rest.contains(x) {
                let n = rest.index_of(x);
                let m = if n < i { n } else { n + 1 };
                assert(b[m] == x);
                assert(b[m] != b[i]);
                assert(b[i] == k);
                assert(x != k);
                assert(b.contains(x));
                assert(a.contains(x));
                let j = a.index_of(x);
                assert(a[j] == x);
                assert(a.drop_last()[j] == x);
            }
        }
        lemma_reserved_same(s, a.drop_last(), rest);
    }
}

/// A window that is only maximised takes what the panels of its output have not
/// reserved: it begins past what is reserved along the left and the top, and is
/// asked for what is left of each side.
pub proof fn lemma_maximised_leaves_the_panels<S: Shell>(
    s: StateView,
    shell: S,
    toplevel: ClientObjectId,
    surface: ClientObjectId,
    i: int,
    keys: Seq<ClientObjectId>,
)
    requires
        may_fill(s, shell, toplevel, surface, i, true, false),
        s.layers.layer_surfaces.ok(),
        panels_of(s, s.out.outputs[i].id, keys),
        s.out.outputs[i].width >= 0,
        s.out.outputs[i].height >= 0,
        reserved(s, keys).0 <= i32::MAX,
        reserved(s, keys).3 <= i32::MAX,
        s.out.outputs[i].geometry.x + reserved(s, keys).3 <= i32::MAX,
        s.out.outputs[i].geometry.y + reserved(s, keys).0 <= i32::MAX,
    ensures
        ({
            let o = s.out.outputs[i];
            let (top, right, bottom, left) = reserved(s, keys);
            let t = s.set_window_state(shell, toplevel, true, false);
            let at = t.surf.surfaces.at(surface).position;
            let width = if left + right <= o.width { o.width - left - right } else { 0 };
            let height = if top + bottom <= o.height { o.height - top - bottom } else { 0 };
            &&& at.0 == o.geometry.x + left
            &&& at.1 == o.geometry.y + top
            &&& just_asked(s, t, toplevel, (width as i32, height as i32))
            &&& t.win.xdg_toplevels.at(toplevel).maximized
            &&& !t.win.xdg_toplevels.at(toplevel).fullscreen
            &&& t.dirty
        }),
{
    let o = s.out.outputs[i];
    lemma_found_output(s, i, s.out.outputs.len());
    let all = s.ordered_for_output(o.id);
    lemma_layers_are_in_order(s, o.id);
    assert forall|k: ClientObjectId| #[trigger] keys.contains(k) <==> all.contains(k) by {}
    lemma_reserved_same(s, keys, all);
    lemma_reserved_sign(s, keys);
    lemma_usable_is_what_is_not_reserved(s, Rect::whole(o), all);
    let u = s.arrange(o.id).usable;
    assert(u == s.arranged(Rect::whole(o), all).usable);
    let t = s.set_window_state(shell, toplevel, true, false);
    assert(s.output_to_fill(shell, toplevel) == Some(o));
    let place = s.filling(o, false);
    assert(t == s.ungrabbed(toplevel).filled(toplevel, surface, place, true, false));
    assert(t.surf.surfaces.at(surface).position == place.0);
}

/// A window that fills its output and is then made to fill it otherwise remembers
/// where it was before either: put back, it is there, and is asked for the size it
/// had.
pub proof fn lemma_restored_past_all_fillings<S: Shell>(
    s: StateView,
    shell: S,
    toplevel: ClientObjectId,
    surface: ClientObjectId,
    i: int,
)
    requires
        may_fill(s, shell, toplevel, surface, i, true, false),
        !s.win.xdg_toplevels.at(toplevel).maximized,
        !s.win.xdg_toplevels.at(toplevel).fullscreen,
    ensures
        ({
            let once = s.set_window_state(shell, toplevel, true, false);
            let twice = once.set_window_state(shell, toplevel, true, true);
            let back = twice.set_window_state(shell, toplevel, false, false);
            let size = s.surface_size(surface);
            &&& back.surf.surfaces.at(surface).position == s.surf.surfaces.at(surface).position
            &&& back.clients.at(toplevel.0).outbox.last() == MessageView::Notice(
                Notice::ToplevelConfigure { toplevel: toplevel.1, width: size.0, height: size.1 },
            )
            &&& !back.win.xdg_toplevels.at(toplevel).maximized
            &&& !back.win.xdg_toplevels.at(toplevel).fullscreen
        }),
{
    lemma_found_output(s, i, s.out.outputs.len());
    let o = s.out.outputs[i];
    let free = s.ungrabbed(toplevel);
    let was = s.place_of(surface);
    lemma_same_size(s, free, surface);
    assert(free.place_of(surface) == was);
    let once = s.set_window_state(shell, toplevel, true, false);
    assert(once == free.filled(toplevel, surface, s.filling(o, false), true, false));
    assert(once.win.xdg_toplevels.at(toplevel).restore == Some(was));
    assert(once.out == s.out);
    lemma_found_output(once, i, once.out.outputs.len());
    let twice = once.set_window_state(shell, toplevel, true, true);
    assert(once.surface_of_toplevel(toplevel) == Some(surface));
    assert(once.output_to_fill(shell, toplevel) == Some(o));
    assert(twice == once.ungrabbed(toplevel).filled(toplevel, surface, once.filling(o, true), true, true));
    assert(twice.win.xdg_toplevels.at(toplevel).restore == Some(was));
    assert(twice.surface_of_toplevel(toplevel) == Some(surface));
    let back = twice.set_window_state(shell, toplevel, false, false);
    assert(back == twice.ungrabbed(toplevel).restored(toplevel, surface));
}

proof fn lemma_same_size(a: StateView, b: StateView, key: ClientObjectId)
    requires
        a.surf == b.surf,
        a.mem == b.mem,
    ensures
        a.surface_size(key) == b.surface_size(key),
{
}

/// A window on no output there is stays as it is, but for a grab on it.
pub proof fn lemma_nowhere_to_fill<S: Shell>(
    s: StateView,
    shell: S,
    toplevel: ClientObjectId,
    surface: ClientObjectId,
    maximized: bool,
    fullscreen: bool,
)
    requires
        maximized || fullscreen,
        s.surface_of_toplevel(toplevel) == Some(surface),
        shell.placed_on(surface) is None,
        !s.layers.surface_layer.has(surface),
    ensures
        ({
            let t = s.set_window_state(shell, toplevel, maximized, fullscreen);
            &&& t.surf == s.surf
            &&& t.clients == s.clients
            &&& t.win.xdg_toplevels == s.win.xdg_toplevels
        }),
{
}

} // verus!
