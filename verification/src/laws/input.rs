//! Input: what is hit, what is swallowed, and who hears of a finger.
use crate::input::hit::HitResult;
use crate::input::touch::lands_on;
use crate::protocol::messages::Notice;
use crate::run::keyboard::KeyStep;
use crate::seqs::lemma_filter_facts;
use crate::shell::Shell;
use crate::state::compositor_state::StateView;
use crate::state::surfaces::moved;
use crate::state::types::{ClientObjectId, in_region, to_i32};
use crate::table::{lemma_set_without, set_put};
use vstd::prelude::*;

verus! {

/// The release of a key whose press was taken is swallowed too, once.
pub proof fn lemma_taken_key_is_swallowed(s: StateView, consumed: Seq<u32>, key: u32)
    requires
        consumed.no_duplicates(),
    ensures
        s.key_step(set_put(consumed, key), key, false) == KeyStep::Done,
        !s.consumed_after(set_put(consumed, key), key, false).contains(key),
{
    let taken = set_put(consumed, key);
    if !consumed.contains(key) {
        assert(taken[consumed.len() as int] == key);
    }
    assert(taken.contains(key));
    lemma_filter_facts(taken, |k: u32| k != key);
    lemma_set_without(taken, key, |k: u32| k != key);
}

/// The release of a key whose press a client saw is delivered to it.
pub proof fn lemma_seen_key_is_released(s: StateView, consumed: Seq<u32>, key: u32)
    requires
        !consumed.contains(key),
    ensures
        s.key_step(consumed, key, false) == KeyStep::Deliver,
{
}

/// Dismissing popups leaves none, or one on top that the pointer is on.
pub proof fn lemma_dismissed_to_the_pointer(s: StateView)
    ensures
        ({
            let left = s.dismiss_popups();
            left.win.grabbed_popups.len() == 0 || match left.popup_surface(left.win.grabbed_popups.last()) {
                Some(surface) => left.surface_covers(surface, left.input.cursor),
                None => false,
            }
        }),
    decreases s.win.grabbed_popups.len(),
{
    if s.win.grabbed_popups.len() > 0 {
        let popup = s.win.grabbed_popups.last();
        match s.popup_surface(popup) {
            None => {
                lemma_dismissed_to_the_pointer(s.pop_popup());
            },
            Some(surface) => {
                if !s.surface_covers(surface, s.input.cursor) {
                    lemma_dismissed_to_the_pointer(
                        s.pop_popup().notice(popup.0, Notice::PopupDone { popup: popup.1 }),
                    );
                }
            },
        }
    }
}

proof fn lemma_tree_hit(s: StateView, key: ClientObjectId, at: (i32, i32), p: (i32, i32), fuel: nat)
    ensures
        match s.hit_tree(key, at, p, fuel) {
            Some((surface, place)) => s.surf.surfaces.has(surface) && s.takes_input(surface, place, p),
            None => true,
        },
    decreases fuel, 1nat, 0nat,
{
    if s.surf.surfaces.has(key) {
        let x = s.surf.surfaces.at(key);
        lemma_children_hit(s, x.client_id, x.children, at, p, fuel);
    }
}

proof fn lemma_children_hit(
    s: StateView,
    client_id: u32,
    children: Seq<u32>,
    at: (i32, i32),
    p: (i32, i32),
    fuel: nat,
)
    ensures
        match s.hit_children(client_id, children, at, p, fuel) {
            Some((surface, place)) => s.surf.surfaces.has(surface) && s.takes_input(surface, place, p),
            None => true,
        },
    decreases fuel, 0nat, children.len(),
{
    if children.len() > 0 && fuel > 0 {
        let key = (client_id, children.last());
        lemma_children_hit(s, client_id, children.drop_last(), at, p, fuel);
        if s.surf.surfaces.has(key) {
            lemma_tree_hit(s, key, moved(at, s.surf.surfaces.at(key).subsurface_position), p, (fuel - 1) as nat);
        }
    }
}

proof fn lemma_first_hit(s: StateView, keys: Seq<ClientObjectId>, p: (i32, i32))
    ensures
        match s.hit_first(keys, p) {
            Some(h) => keys.contains(h.toplevel) && s.hittable(h.toplevel) && s.surf.surfaces.has(h.surface)
                && s.takes_input(h.surface, (h.surface_x, h.surface_y), p),
            None => true,
        },
    decreases keys.len(),
{
    if keys.len() > 0 {
        lemma_first_hit(s, keys.drop_last(), p);
        let key = keys.last();
        lemma_tree_hit(s, key, s.placed_position(key), p, s.surface_count());
        if let Some(h) = s.hit_first(keys.drop_last(), p) {
            let i = choose|i: int| 0 <= i < keys.len() - 1 && keys.drop_last()[i] == h.toplevel;
            assert(keys[i] == h.toplevel);
        } else {
            assert(keys[keys.len() - 1] == key);
        }
    }
}

/// What is hit is on screen, has agreed a size if it is a layer surface, and
/// takes input where it is hit.
pub proof fn lemma_hit_takes_input<S: Shell>(s: StateView, shell: S, p: (i32, i32))
    ensures
        match s.hit_test(shell, p) {
            Some(h) => s.top_down(shell).contains(h.toplevel) && s.hittable(h.toplevel) && s.surf.surfaces.has(
                h.surface,
            ) && s.takes_input(h.surface, (h.surface_x, h.surface_y), p),
            None => true,
        },
{
    lemma_first_hit(s, s.top_down(shell), p);
}

/// A surface with no size, or with an input region that leaves a point out, is
/// never hit there.
pub proof fn lemma_region_bounds_input(s: StateView, key: ClientObjectId, at: (i32, i32), p: (i32, i32))
    requires
        s.takes_input(key, at, p),
        s.surf.surfaces.at(key).input_region is Some,
    ensures
        in_region(s.surf.surfaces.at(key).input_region->0, to_i32(p.0 - at.0), to_i32(p.1 - at.1)),
        s.surface_size(key).0 != 0 && s.surface_size(key).1 != 0,
{
}

proof fn lemma_touches_moved_keep(s: StateView, c: u32, origin: (i32, i32), time: u32, id: i32, n: nat)
    ensures
        s.touches_moved(c, origin, time, id, n).input == s.input,
    decreases n,
{
    if n != 0 && n <= s.input.touches.len() {
        lemma_touches_moved_keep(s, c, origin, time, id, (n - 1) as nat);
    }
}

proof fn lemma_touches_down_keep(s: StateView, h: HitResult, time: u32, id: i32, n: nat)
    ensures
        s.touches_down(h, time, id, n).input == s.input,
    decreases n,
{
    if n != 0 && n <= s.input.touches.len() {
        lemma_touches_down_keep(s, h, time, id, (n - 1) as nat);
    }
}

/// A finger belongs to the surface it landed on, however far it then travels
/// and whatever other fingers do.
pub proof fn lemma_finger_keeps_its_surface(s: StateView, h: HitResult, time: u32, id: i32, later: u32, other: i32)
    ensures
        s.finish_touch_down(h, time, id).input.touch_points.has(id),
        s.finish_touch_down(h, time, id).input.touch_points.at(id) == h.surface,
        s.finish_touch_down(h, time, id).touch_motion(later, other).input.touch_points == s.finish_touch_down(
            h,
            time,
            id,
        ).input.touch_points,
{
    let landed = s.set_points(s.input.touch_points.put(id, h.surface));
    lemma_touches_down_keep(landed, h, time, id, s.input.touches.len());
    let down = s.finish_touch_down(h, time, id);
    if down.input.touch_points.has(other) {
        let x = down.input.touch_points.at(other);
        lemma_touches_moved_keep(
            down.dirtied(),
            x.0,
            down.global_position(x),
            later,
            other,
            down.input.touches.len(),
        );
    }
}

/// Once a touch sequence is cancelled no finger is down, and a client that had
/// none down is told nothing.
pub proof fn lemma_cancelled_touch(s: StateView, client_id: u32)
    requires
        s.clients.has(client_id),
        !s.input.touch_points.any(lands_on(client_id)),
    ensures
        s.touch_cancel().input.touch_points.order.len() == 0,
        s.touch_cancel().clients.at(client_id) == s.clients.at(client_id),
{
}

} // verus!
