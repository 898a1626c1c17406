//! Ground: what the other laws stand on, down to where everything is.
use crate::laws::composing::{fit, layers_linked, led_to, put_on};
use crate::protocol::wire_utils::ClientMessage;
use crate::seqs::lemma_filter_facts;
use crate::state::compositor_state::StateView;
use crate::state::types::{ClientObjectId, XdgRole, XdgSurfaceStateView};
use vstd::prelude::*;

verus! {

/// Whether a surface knows each of its children as its own, and they know it.
pub open spec fn knows_its_children(s: StateView, key: ClientObjectId) -> bool {
    s.surf.surfaces.has(key) ==> {
        &&& s.surf.surfaces.at(key).client_id == key.0
        &&& forall|i: int|
            0 <= i < s.surf.surfaces.at(key).children.len() ==> {
                let child = (key.0, #[trigger] s.surf.surfaces.at(key).children[i]);
                s.surf.surfaces.has(child) ==> s.surf.surfaces.at(child).parent == Some(key.1)
            }
    }
}

/// Whether a place on a parent is within reach of it.
pub open spec fn within_reach(p: (i32, i32)) -> bool {
    &&& -1048576 <= p.0 <= 1048576
    &&& -1048576 <= p.1 <= 1048576
}

/// Whether no surface is near the end of the range of places.
pub open spec fn all_in_range(s: StateView) -> bool {
    forall|k: ClientObjectId| #[trigger]
        s.surf.surfaces.has(k) ==> within_reach(s.surf.surfaces.at(k).subsurface_position) && knows_its_children(s, k)
}

/// Going one step further along a path.
proof fn lemma_led_further(s: StateView, key: ClientObjectId, at: (i32, i32), path: Seq<int>)
    requires
        path.len() > 0,
        led_to(s, key, at, path) is Some,
        all_in_range(s),
    ensures
        ({
            let before = led_to(s, key, at, path.drop_last());
            let (k, there) = led_to(s, key, at, path)->0;
            &&& before is Some
            &&& s.surf.surfaces.has((before->0).0)
            &&& s.surf.surfaces.has(k)
            &&& k.0 == (before->0).0.0
            &&& s.surf.surfaces.at(k).parent == Some((before->0).0.1)
            &&& there == put_on((before->0).1, s.surf.surfaces.at(k).subsurface_position)
        }),
    decreases path.len(),
{
    let parent = s.surf.surfaces.at(key);
    assert(knows_its_children(s, key));
    let child = (parent.client_id, parent.children[path[0]]);
    let there = put_on(at, s.surf.surfaces.at(child).subsurface_position);
    let rest = path.drop_first();
    if path.len() == 1 {
        assert(path.drop_last().len() == 0);
        assert(rest.len() == 0);
        assert(led_to(s, child, there, rest) == Some((child, there)));
    } else {
        lemma_led_further(s, child, there, rest);
        assert(rest.drop_last() =~= path.drop_last().drop_first());
        assert(path.drop_last()[0] == path[0]);
        assert(led_to(s, key, at, path.drop_last()) == led_to(s, child, there, rest.drop_last()));
    }
}

proof fn lemma_up_again(s: StateView, root: ClientObjectId, path: Seq<int>, acc: (i32, i32), fuel: nat)
    requires
        all_in_range(s),
        s.surf.surfaces.has(root),
        s.surf.surfaces.at(root).parent is None,
        s.surf.surfaces.at(root).subsurface_position == (0i32, 0i32),
        path.len() <= fuel,
        path.len() <= 200,
        -0x800_0000 <= s.surf.surfaces.at(root).position.0 <= 0x800_0000,
        -0x800_0000 <= s.surf.surfaces.at(root).position.1 <= 0x800_0000,
        -1048576 * (200 - path.len()) <= acc.0 <= 1048576 * (200 - path.len()),
        -1048576 * (200 - path.len()) <= acc.1 <= 1048576 * (200 - path.len()),
        led_to(s, root, s.surf.surfaces.at(root).position, path) is Some,
    ensures
        ({
            let (k, there) = led_to(s, root, s.surf.surfaces.at(root).position, path)->0;
            let found = s.placed_within(k.0, k.1, acc, fuel);
            &&& found.0 == acc.0 + there.0
            &&& found.1 == acc.1 + there.1
            &&& -0x800_0000 - 1048576 * path.len() <= there.0 <= 0x800_0000 + 1048576 * path.len()
            &&& -0x800_0000 - 1048576 * path.len() <= there.1 <= 0x800_0000 + 1048576 * path.len()
        }),
    decreases path.len(),
{
    let at = s.surf.surfaces.at(root).position;
    let (k, there) = led_to(s, root, at, path)->0;
    if path.len() == 0 {
        assert(k == root && there == at);
        reveal_with_fuel(StateView::placed_within, 1);
    } else {
        lemma_led_further(s, root, at, path);
        let (p, before) = led_to(s, root, at, path.drop_last())->0;
        let step = s.surf.surfaces.at(k).subsurface_position;
        assert(s.surf.surfaces.has(k));
        let next = (fit(acc.0 + step.0), fit(acc.1 + step.1));
        lemma_up_again(s, root, path.drop_last(), next, (fuel - 1) as nat);
        assert(s.placed_within(k.0, k.1, acc, fuel) == s.placed_within(k.0, p.1, next, (fuel - 1) as nat));
    }
}

/// Where a surface is on the desktop is where the places of those it is on lead to,
/// from where the root is. That is where it is drawn and where it is hit.
pub proof fn lemma_surface_is_where_its_path_leads(s: StateView, root: ClientObjectId, path: Seq<int>)
    requires
        all_in_range(s),
        s.surf.surfaces.has(root),
        s.surf.surfaces.at(root).parent is None,
        s.surf.surfaces.at(root).subsurface_position == (0i32, 0i32),
        -0x800_0000 <= s.surf.surfaces.at(root).position.0 <= 0x800_0000,
        -0x800_0000 <= s.surf.surfaces.at(root).position.1 <= 0x800_0000,
        path.len() <= s.surface_count(),
        path.len() <= 200,
        led_to(s, root, s.surf.surfaces.at(root).position, path) is Some,
    ensures
        ({
            let (k, there) = led_to(s, root, s.surf.surfaces.at(root).position, path)->0;
            s.global_position(k) == there
        }),
{
    lemma_up_again(s, root, path, (0, 0), s.surface_count());
}

/// A panel that is made is the one its surface has its role from, and so are the
/// others still.
pub proof fn lemma_new_panel_is_linked(s: StateView, msg: ClientMessage)
    requires
        layers_linked(s),
        s.clients.has(msg.client_id),
        forall|k: ClientObjectId| #[trigger]
            s.layers.layer_surfaces.has(k) && k.0 == msg.client_id ==> s.clients.at(k.0).objects.has(k.1),
    ensures
        layers_linked(s.get_layer_surface(msg)),
{
    let t = s.get_layer_surface(msg);
    assert forall|k: ClientObjectId| #[trigger] t.layers.layer_surfaces.has(k) implies ({
        let surface = (t.layers.layer_surfaces.at(k).client_id, t.layers.layer_surfaces.at(k).wl_surface_id);
        &&& t.layers.layer_surfaces.at(k).client_id == k.0
        &&& t.layers.surface_layer.has(surface)
        &&& t.layers.surface_layer.at(surface) == k.1
    }) by {
        if s.layers.layer_surfaces.has(k) {
            assert(s.layers.layer_surfaces.has(k));
        }
    }
}

/// A surface has a role if it is a cursor, a drag icon, a subsurface, a panel or a
/// window or popup, and in no other case.
pub proof fn lemma_roles_there_are(s: StateView, surface: ClientObjectId)
    requires
        s.win.xdg_surfaces.ok(),
    ensures
        s.has_role(surface) <==> s.surf.cursor_role_surfaces.contains(surface) || s.surf.dnd_icon_surfaces.contains(
            surface,
        ) || s.layers.surface_layer.has(surface) || (s.surf.surfaces.has(surface) && s.surf.surfaces.at(
            surface,
        ).is_subsurface) || exists|k: ClientObjectId| #[trigger] is_its_xdg(s, k, surface),
{
    lemma_its_xdg(s, surface);
}

/// Whether an `xdg_surface` is on a surface.
pub open spec fn is_its_xdg(s: StateView, k: ClientObjectId, surface: ClientObjectId) -> bool {
    &&& s.win.xdg_surfaces.has(k)
    &&& k.0 == surface.0
    &&& s.win.xdg_surfaces.at(k).wl_surface_id == surface.1
}

proof fn lemma_its_xdg(s: StateView, surface: ClientObjectId)
    requires
        s.win.xdg_surfaces.ok(),
    ensures
        match s.xdg_surface_of(surface) {
            Some(k) => is_its_xdg(s, k, surface),
            None => forall|k: ClientObjectId| !#[trigger] is_its_xdg(s, k, surface),
        },
{
    let p = |k: ClientObjectId, x: XdgSurfaceStateView| k.0 == surface.0 && x.wl_surface_id == surface.1;
    let q = |k: ClientObjectId| p(k, s.win.xdg_surfaces.map[k]);
    let found = s.win.xdg_surfaces.keys_where(p);
    lemma_filter_facts(s.win.xdg_surfaces.order, q);
    if found.len() > 0 {
        assert(found.contains(found[0]));
    }
    if s.xdg_surface_of(surface) is None {
        assert forall|k: ClientObjectId| !#[trigger] is_its_xdg(s, k, surface) by {
            if is_its_xdg(s, k, surface) {
                assert(s.win.xdg_surfaces.order.contains(k));
                assert(found.contains(k));
            }
        }
    }
}

/// The window of a surface is one whose role the surface has, and a window that
/// fills its output is neither moved nor resized.
pub proof fn lemma_window_of_a_surface(s: StateView, surface: ClientObjectId)
    requires
        s.win.xdg_surfaces.ok(),
    ensures
        match s.toplevel_for_surface(surface) {
            Some(w) => {
                &&& w.0 == surface.0
                &&& exists|k: ClientObjectId| #[trigger]
                    is_its_xdg(s, k, surface) && s.win.xdg_surfaces.at(k).role == Some(XdgRole::Toplevel(w.1))
                &&& s.window_state_locked(surface) == (s.win.xdg_toplevels.has(w) && (s.win.xdg_toplevels.at(w).maximized
                    || s.win.xdg_toplevels.at(w).fullscreen))
            },
            None => !s.window_state_locked(surface),
        },
{
    lemma_its_xdg(s, surface);
}

/// Serials follow one another.
pub proof fn lemma_serials_follow(s: StateView)
    ensures
        s.next_serial < u32::MAX ==> s.serial_taken().next_serial == s.next_serial + 1,
        s.serial_taken().clients == s.clients,
        s.serial_taken().surf == s.surf,
{
}

} // verus!
