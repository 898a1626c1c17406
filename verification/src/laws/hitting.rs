//! Hit testing: that what is hit is what is seen.
use crate::laws::composing::{
    fit, height, layers_linked, layers_sorted, led_to, lemma_band_sorted, Origin, path_behind,
    put_on,
};
use crate::layer::surface_of;
use crate::shell::Shell;
use crate::state::compositor_state::StateView;
use crate::state::types::{ClientObjectId, in_region, OutputView, RegionRect};
use vstd::prelude::*;

verus! {

/// Whether a point is on a rectangle of a region.
pub open spec fn on_rect(r: RegionRect, x: int, y: int) -> bool {
    &&& r.x <= x < fit(r.x + r.width)
    &&& r.y <= y < fit(r.y + r.height)
}

/// Whether a point is in a region: of the rectangles it is on, the last was added
/// and not taken out.
pub open spec fn last_added(rects: Seq<RegionRect>, x: int, y: int) -> bool {
    exists|i: int|
        {
            &&& 0 <= i < rects.len()
            &&& on_rect(#[trigger] rects[i], x, y)
            &&& rects[i].op is Add
            &&& forall|j: int| i < j < rects.len() ==> !on_rect(#[trigger] rects[j], x, y)
        }
}

/// A point is in a region if the last rectangle it is on was added.
pub proof fn lemma_last_rectangle_decides(rects: Seq<RegionRect>, x: i32, y: i32)
    ensures
        in_region(rects, x, y) == last_added(rects, x as int, y as int),
    decreases rects.len(),
{
    if rects.len() > 0 {
        let rest = rects.drop_last();
        lemma_last_rectangle_decides(rest, x, y);
        let last = rects.len() - 1;
        assert(rects[last] == rects.last());
        if !on_rect(rects.last(), x as int, y as int) {
            if last_added(rest, x as int, y as int) {
                let i = choose|i: int|
                    {
                        &&& 0 <= i < rest.len()
                        &&& on_rect(#[trigger] rest[i], x as int, y as int)
                        &&& rest[i].op is Add
                        &&& forall|j: int| i < j < rest.len() ==> !on_rect(#[trigger] rest[j], x as int, y as int)
                    };
                assert(rects[i] == rest[i]);
                assert forall|j: int| i < j < rects.len() implies !on_rect(#[trigger] rects[j], x as int, y as int) by {
                    if j < last {
                        assert(rects[j] == rest[j]);
                    }
                }
            }
            if last_added(rects, x as int, y as int) {
                let i = choose|i: int|
                    {
                        &&& 0 <= i < rects.len()
                        &&& on_rect(#[trigger] rects[i], x as int, y as int)
                        &&& rects[i].op is Add
                        &&& forall|j: int| i < j < rects.len() ==> !on_rect(#[trigger] rects[j], x as int, y as int)
                    };
                assert(rest[i] == rects[i]);
                assert forall|j: int| i < j < rest.len() implies !on_rect(#[trigger] rest[j], x as int, y as int) by {
                    assert(rects[j] == rest[j]);
                }
            }
        }
    }
}

/// Whether a surface at a place takes input at a point: the point is on the
/// surface, and in its input region if it has one.
pub open spec fn takes(s: StateView, key: ClientObjectId, at: (i32, i32), p: (i32, i32)) -> bool {
    let size = s.surface_size(key);
    &&& s.surf.surfaces.has(key)
    &&& size.0 != 0
    &&& size.1 != 0
    &&& at.0 <= p.0 < fit(at.0 + size.0)
    &&& at.1 <= p.1 < fit(at.1 + size.1)
    &&& match s.surf.surfaces.at(key).input_region {
        Some(r) => last_added(r, fit(p.0 - at.0) as int, fit(p.1 - at.1) as int),
        None => true,
    }
}

/// Whether what a path leads to takes input at a point.
pub open spec fn path_takes(
    s: StateView,
    root: ClientObjectId,
    at: (i32, i32),
    path: Seq<int>,
    p: (i32, i32),
) -> bool {
    match led_to(s, root, at, path) {
        Some((key, there)) => takes(s, key, there, p),
        None => false,
    }
}

/// Whether anything of a tree takes input at a point.
pub open spec fn tree_takes(s: StateView, root: ClientObjectId, at: (i32, i32), p: (i32, i32), depth: nat) -> bool {
    exists|path: Seq<int>| path.len() <= depth && #[trigger] path_takes(s, root, at, path, p)
}

/// Whether a surface is what of a tree is in front at a point, among all that
/// takes input there.
pub open spec fn in_front(
    s: StateView,
    root: ClientObjectId,
    at: (i32, i32),
    p: (i32, i32),
    depth: nat,
    hit: (ClientObjectId, (i32, i32)),
) -> bool {
    exists|path: Seq<int>|
        {
            &&& path.len() <= depth
            &&& #[trigger] path_takes(s, root, at, path, p)
            &&& led_to(s, root, at, path) == Some(hit)
            &&& forall|q: Seq<int>|
                q.len() <= depth && #[trigger] path_takes(s, root, at, q, p) ==> q == path || path_behind(q, path)
        }
}

proof fn lemma_takes(s: StateView, key: ClientObjectId, at: (i32, i32), p: (i32, i32))
    requires
        s.surf.surfaces.has(key),
    ensures
        s.takes_input(key, at, p) == takes(s, key, at, p),
{
    if let Some(r) = s.surf.surfaces.at(key).input_region {
        lemma_last_rectangle_decides(r, fit(p.0 - at.0), fit(p.1 - at.1));
    }
}

proof fn lemma_tree_hit(s: StateView, key: ClientObjectId, at: (i32, i32), p: (i32, i32), fuel: nat) -> (path: Seq<int>)
    ensures
        match s.hit_tree(key, at, p, fuel) {
            None => forall|q: Seq<int>| q.len() <= fuel ==> !#[trigger] path_takes(s, key, at, q, p),
            Some(hit) => {
                &&& path.len() <= fuel
                &&& path_takes(s, key, at, path, p)
                &&& led_to(s, key, at, path) == Some(hit)
                &&& forall|q: Seq<int>|
                    q.len() <= fuel && #[trigger] path_takes(s, key, at, q, p) ==> q == path || path_behind(q, path)
            },
        },
    decreases fuel, 1nat, 0nat,
{
    if !s.surf.surfaces.has(key) {
        Seq::empty()
    } else {
        let surface = s.surf.surfaces.at(key);
        assert(surface.children =~= surface.children.take(surface.children.len() as int));
        let found = lemma_children_hit(s, key, at, p, surface.children, fuel);
        if s.hit_children(surface.client_id, surface.children, at, p, fuel) is Some {
            assert forall|q: Seq<int>| q.len() <= fuel && #[trigger] path_takes(s, key, at, q, p) implies q == found
                || path_behind(q, found) by {}
            found
        } else {
            let own = Seq::<int>::empty();
            lemma_takes(s, key, at, p);
            assert forall|q: Seq<int>| q.len() <= fuel && #[trigger] path_takes(s, key, at, q, p) implies q == own by {
                if q.len() > 0 {
                    assert(q[0] < surface.children.len());
                }
                assert(q =~= own);
            }
            own
        }
    }
}

proof fn lemma_children_hit(
    s: StateView,
    key: ClientObjectId,
    at: (i32, i32),
    p: (i32, i32),
    children: Seq<u32>,
    fuel: nat,
) -> (path: Seq<int>)
    requires
        s.surf.surfaces.has(key),
        children.len() <= s.surf.surfaces.at(key).children.len(),
        children == s.surf.surfaces.at(key).children.take(children.len() as int),
    ensures
        match s.hit_children(s.surf.surfaces.at(key).client_id, children, at, p, fuel) {
            None => forall|q: Seq<int>|
                0 < q.len() <= fuel && q[0] < children.len() ==> !#[trigger] path_takes(s, key, at, q, p),
            Some(hit) => {
                &&& 0 < path.len() <= fuel
                &&& path[0] < children.len()
                &&& path_takes(s, key, at, path, p)
                &&& led_to(s, key, at, path) == Some(hit)
                &&& forall|q: Seq<int>|
                    0 < q.len() <= fuel && q[0] < children.len() && #[trigger] path_takes(s, key, at, q, p) ==> q == path
                        || path_behind(q, path)
            },
        },
    decreases fuel, 0nat, children.len(),
{
    let parent = s.surf.surfaces.at(key);
    let client_id = parent.client_id;
    if children.len() == 0 || fuel == 0 {
        assert forall|q: Seq<int>| 0 < q.len() <= fuel && q[0] < children.len() implies !#[trigger] path_takes(
            s,
            key,
            at,
            q,
            p,
        ) by {}
        Seq::empty()
    } else {
        let c = children.len() - 1;
        let child = (client_id, children.last());
        assert(children.last() == parent.children[c]);
        assert(children.drop_last() =~= parent.children.take(c));
        let there = put_on(at, s.surf.surfaces.at(child).subsurface_position);
        let below = lemma_children_hit(s, key, at, p, children.drop_last(), fuel);
        let inside = lemma_tree_hit(s, child, there, p, (fuel - 1) as nat);
        let path = seq![c] + inside;
        assert(path.drop_first() =~= inside);
        assert forall|q: Seq<int>| q.len() > 0 && q[0] == c implies #[trigger] path_takes(s, key, at, q, p) == path_takes(
            s,
            child,
            there,
            q.drop_first(),
            p,
        ) by {}
        let found = if s.surf.surfaces.has(child) {
            s.hit_tree(child, there, p, (fuel - 1) as nat)
        } else {
            None
        };
        if found is Some {
            assert(path_takes(s, key, at, path, p));
            assert forall|q: Seq<int>|
                0 < q.len() <= fuel && q[0] < children.len() && #[trigger] path_takes(s, key, at, q, p) implies q == path
                || path_behind(q, path) by {
                if q[0] == c {
                    let rest = q.drop_first();
                    assert(path_takes(s, child, there, rest, p));
                    if rest == inside {
                        assert(q =~= path);
                    }
                }
            }
            path
        } else {
            assert forall|q: Seq<int>| 0 < q.len() <= fuel && q[0] == c implies !#[trigger] path_takes(
                s,
                key,
                at,
                q,
                p,
            ) by {
                assert(!path_takes(s, child, there, q.drop_first(), p));
            }
            assert forall|q: Seq<int>| 0 < q.len() <= fuel && q[0] < children.len() && #[trigger] path_takes(
                s,
                key,
                at,
                q,
                p,
            ) implies q[0] < c by {}
            below
        }
    }
}

/// What a tree is hit on at a point is what of it is in front there: a child and
/// not the surface it is on, and the upper of two siblings. If nothing of it is
/// there it is not hit.
pub proof fn lemma_tree_is_hit_in_front(s: StateView, key: ClientObjectId, at: (i32, i32), p: (i32, i32))
    ensures
        match s.hit_tree(key, at, p, s.surface_count()) {
            Some(hit) => in_front(s, key, at, p, s.surface_count(), hit),
            None => !tree_takes(s, key, at, p, s.surface_count()),
        },
{
    let path = lemma_tree_hit(s, key, at, p, s.surface_count());
    if s.hit_tree(key, at, p, s.surface_count()) is Some {
        assert(path_takes(s, key, at, path, p));
    }
}

/// Where what may be hit is: on which of the outputs, and whether it is a layer
/// surface or a window there.
pub struct Target {
    pub output: int,
    pub origin: Origin,
}

/// The root of what may be hit, and where it is on the desktop, if it is there to
/// be hit: a layer surface that has agreed a size, or a window the shell shows.
pub open spec fn target_root<S: Shell>(s: StateView, shell: S, t: Target) -> Option<(ClientObjectId, (i32, i32))> {
    if 0 <= t.output < s.out.outputs.len() {
        let o = s.out.outputs[t.output];
        match t.origin {
            Origin::Layer(k) => {
                let l = s.layers.layer_surfaces.at(k);
                let root = (l.client_id, l.wl_surface_id);
                if s.layers.layer_surfaces.has(k) && l.output == Some(o.id) && l.configured && s.surf.surfaces.has(root) {
                    match s.layer_geometry(k) {
                        Some(g) => Some((root, (g.x, g.y))),
                        None => Some((root, s.surf.surfaces.at(root).position)),
                    }
                } else {
                    None
                }
            },
            Origin::Window(n) => {
                let stack = shell.stack_on(o.id);
                if 0 <= n < stack.len() && s.surf.surfaces.has(stack[n]) {
                    Some((stack[n], s.surf.surfaces.at(stack[n]).position))
                } else {
                    None
                }
            },
            _ => None,
        }
    } else {
        None
    }
}

/// Whether something takes input at a point.
pub open spec fn answers<S: Shell>(s: StateView, shell: S, t: Target, p: (i32, i32)) -> bool {
    match target_root(s, shell, t) {
        Some((root, at)) => tree_takes(s, root, at, p, s.surface_count()),
        None => false,
    }
}

/// Whether one thing is seen in front of another wherever both are: it is over
/// the windows and the other is not, it is a window and the other is under them,
/// or both are on one output and it is the higher.
pub open spec fn seen_over(s: StateView, a: Target, b: Target) -> bool {
    let (x, y) = (height(s, a.origin), height(s, b.origin));
    ||| x > 2 && y <= 2
    ||| x == 2 && y < 2
    ||| a.output == b.output && x > y
    ||| a.output == b.output && x == y && match (a.origin, b.origin) {
        (Origin::Layer(j), Origin::Layer(k)) => j.0 > k.0 || (j.0 == k.0 && j.1 > k.1),
        (Origin::Window(m), Origin::Window(n)) => m > n,
        _ => false,
    }
}

/// Whether no window that the shell stacks is a layer surface.
pub open spec fn stacks_hold_windows<S: Shell>(s: StateView, shell: S) -> bool {
    forall|i: int, n: int|
        #![trigger shell.stack_on(s.out.outputs[i].id)[n]]
        0 <= i < s.out.outputs.len() && 0 <= n < shell.stack_on(s.out.outputs[i].id).len()
            ==> !s.layers.surface_layer.has(shell.stack_on(s.out.outputs[i].id)[n])
}

proof fn lemma_first_found(s: StateView, keys: Seq<ClientObjectId>, p: (i32, i32)) -> (n: int)
    ensures
        match s.hit_first(keys, p) {
            Some(h) => {
                &&& 0 <= n < keys.len()
                &&& s.hit_one(keys[n], p) == Some(h)
                &&& forall|m: int| 0 <= m < n ==> (#[trigger] s.hit_one(keys[m], p)) is None
            },
            None => forall|m: int| 0 <= m < keys.len() ==> (#[trigger] s.hit_one(keys[m], p)) is None,
        },
    decreases keys.len(),
{
    if keys.len() == 0 {
        0
    } else {
        let before = keys.drop_last();
        let n = lemma_first_found(s, before, p);
        let last = keys.len() - 1;
        assert(keys[last] == keys.last());
        if s.hit_first(before, p) is Some {
            assert(before[n] == keys[n]);
            assert forall|m: int| 0 <= m < n implies (#[trigger] s.hit_one(keys[m], p)) is None by {
                assert(before[m] == keys[m]);
            }
            n
        } else {
            assert forall|m: int| 0 <= m < last implies (#[trigger] s.hit_one(keys[m], p)) is None by {
                assert(before[m] == keys[m]);
            }
            last
        }
    }
}

/// Where a layer surface of a band stands among those of the first few outputs.
pub open spec fn band_place(s: StateView, above: bool, i: int, x: int) -> int {
    s.band_top_down(above, i as nat).len() + s.keys_in_band(s.out.outputs[i].id, above).len() - 1 - x
}

proof fn lemma_band_place(s: StateView, above: bool, n: nat, i: int, x: int)
    requires
        0 <= i < n <= s.out.outputs.len(),
        0 <= x < s.keys_in_band(s.out.outputs[i].id, above).len(),
    ensures
        0 <= band_place(s, above, i, x) < s.band_top_down(above, n).len(),
        s.band_top_down(above, n)[band_place(s, above, i, x)] == s.keys_in_band(s.out.outputs[i].id, above)[x],
    decreases n,
{
    let band = s.keys_in_band(s.out.outputs[n - 1].id, above);
    let rest = s.band_top_down(above, (n - 1) as nat);
    assert(s.band_top_down(above, n) == rest + band.reverse());
    if i < n - 1 {
        lemma_band_place(s, above, (n - 1) as nat, i, x);
    } else {
        assert(band.reverse()[band.len() - 1 - x] == band[x]);
    }
}

proof fn lemma_band_found(s: StateView, above: bool, n: nat, at: int) -> (r: (int, int))
    requires
        n <= s.out.outputs.len(),
        0 <= at < s.band_top_down(above, n).len(),
    ensures
        0 <= r.0 < n,
        0 <= r.1 < s.keys_in_band(s.out.outputs[r.0].id, above).len(),
        at == band_place(s, above, r.0, r.1),
    decreases n,
{
    let band = s.keys_in_band(s.out.outputs[n - 1].id, above);
    let rest = s.band_top_down(above, (n - 1) as nat);
    assert(s.band_top_down(above, n) == rest + band.reverse());
    assert(band.reverse().len() == band.len());
    if at < rest.len() {
        lemma_band_found(s, above, (n - 1) as nat, at)
    } else {
        (n - 1, rest.len() + band.len() - 1 - at)
    }
}

proof fn lemma_stack_place<S: Shell>(s: StateView, shell: S, n: nat, i: int, x: int)
    requires
        0 <= i < n <= s.out.outputs.len(),
        0 <= x < shell.stack_on(s.out.outputs[i].id).len(),
    ensures
        0 <= s.stacks(shell, i as nat).len() + x < s.stacks(shell, n).len(),
        s.stacks(shell, n)[s.stacks(shell, i as nat).len() + x] == shell.stack_on(s.out.outputs[i].id)[x],
    decreases n,
{
    if i < n - 1 {
        lemma_stack_place(s, shell, (n - 1) as nat, i, x);
    }
}

proof fn lemma_stack_found<S: Shell>(s: StateView, shell: S, n: nat, at: int) -> (r: (int, int))
    requires
        n <= s.out.outputs.len(),
        0 <= at < s.stacks(shell, n).len(),
    ensures
        0 <= r.0 < n,
        0 <= r.1 < shell.stack_on(s.out.outputs[r.0].id).len(),
        at == s.stacks(shell, r.0 as nat).len() + r.1,
    decreases n,
{
    let rest = s.stacks(shell, (n - 1) as nat);
    if at < rest.len() {
        lemma_stack_found(s, shell, (n - 1) as nat, at)
    } else {
        (n - 1, at - rest.len())
    }
}

/// Where something stands among all that is on screen, topmost first.
proof fn lemma_target_place<S: Shell>(s: StateView, shell: S, t: Target) -> (n: int)
    requires
        s.layers.layer_surfaces.ok(),
        layers_linked(s),
        target_root(s, shell, t) is Some,
    ensures
        0 <= n < s.top_down(shell).len(),
        s.top_down(shell)[n] == (target_root(s, shell, t)->0).0,
        places(s, shell, t, n),
{
    let count = s.out.outputs.len();
    let o = s.out.outputs[t.output];
    let (upper, lower) = (s.band_top_down(true, count), s.band_top_down(false, count));
    let windows = s.stacks(shell, count).reverse();
    match t.origin {
        Origin::Layer(k) => {
            let above = height(s, t.origin) > 2;
            let ks = lemma_band_sorted(s, o, above);
            assert(ks.contains(k));
            let x = ks.index_of(k);
            lemma_band_place(s, above, count, t.output, x);
            assert(s.keys_in_band(o.id, above)[x] == surface_of(s)(ks[x]));
            let at = band_place(s, above, t.output, x);
            if above {
                assert((upper + windows + lower)[at] == upper[at]);
                at
            } else {
                let n = upper.len() + windows.len() + at;
                assert((upper + windows + lower)[n] == lower[at]);
                n
            }
        },
        Origin::Window(x) => {
            lemma_stack_place(s, shell, count, t.output, x);
            let at = s.stacks(shell, t.output as nat).len() + x;
            let back = s.stacks(shell, count).len() - 1 - at;
            assert(windows[back] == s.stacks(shell, count)[at]);
            let n = upper.len() + back;
            assert((upper + windows + lower)[n] == windows[back]);
            n
        },
        _ => 0,
    }
}

/// Whether something stands at a place among all that is on screen.
pub open spec fn places<S: Shell>(s: StateView, shell: S, t: Target, n: int) -> bool {
    let count = s.out.outputs.len();
    let o = s.out.outputs[t.output];
    let (upper, lower) = (s.band_top_down(true, count).len(), s.band_top_down(false, count).len());
    let windows = s.stacks(shell, count).len();
    &&& 0 <= t.output < count
    &&& match t.origin {
        Origin::Layer(k) => {
            let above = height(s, t.origin) > 2;
            exists|ks: Seq<ClientObjectId>, x: int|
                {
                    &&& #[trigger] layers_sorted(s, o, ks)
                    &&& s.keys_in_band(o.id, above) == ks.map_values(surface_of(s))
                    &&& 0 <= x < ks.len()
                    &&& #[trigger] ks[x] == k
                    &&& n == if above {
                        band_place(s, above, t.output, x)
                    } else {
                        upper + windows + band_place(s, above, t.output, x)
                    }
                }
        },
        Origin::Window(x) => {
            &&& 0 <= x < shell.stack_on(o.id).len()
            &&& n == upper + windows - 1 - s.stacks(shell, t.output as nat).len() - x
        },
        _ => false,
    }
}

proof fn lemma_same_band(s: StateView, o: OutputView, a: Seq<ClientObjectId>, b: Seq<ClientObjectId>)
    requires
        layers_linked(s),
        layers_sorted(s, o, a),
        layers_sorted(s, o, b),
        a.map_values(surface_of(s)) == b.map_values(surface_of(s)),
    ensures
        a == b,
{
    assert(a.len() == a.map_values(surface_of(s)).len());
    assert(b.len() == b.map_values(surface_of(s)).len());
    assert forall|i: int| 0 <= i < a.len() implies a[i] == b[i] by {
        assert(a.map_values(surface_of(s))[i] == b.map_values(surface_of(s))[i]);
        assert(surface_of(s)(a[i]) == surface_of(s)(b[i]));
        assert(s.layers.layer_surfaces.has(a[i]) && s.layers.layer_surfaces.has(b[i]));
    }
    assert(a =~= b);
}

proof fn lemma_place_bounds<S: Shell>(s: StateView, shell: S, t: Target, n: int)
    requires
        places(s, shell, t, n),
    ensures
        ({
            let count = s.out.outputs.len();
            let (upper, windows) = (s.band_top_down(true, count).len(), s.stacks(shell, count).len());
            &&& height(s, t.origin) > 2 ==> 0 <= n < upper
            &&& height(s, t.origin) == 2 ==> upper <= n < upper + windows
            &&& height(s, t.origin) < 2 ==> upper + windows <= n
        }),
{
    let count = s.out.outputs.len();
    let o = s.out.outputs[t.output];
    match t.origin {
        Origin::Layer(k) => {
            let above = height(s, t.origin) > 2;
            let (ks, x) = choose|ks: Seq<ClientObjectId>, x: int|
                {
                    &&& #[trigger] layers_sorted(s, o, ks)
                    &&& s.keys_in_band(o.id, above) == ks.map_values(surface_of(s))
                    &&& 0 <= x < ks.len()
                    &&& #[trigger] ks[x] == k
                    &&& n == if above {
                        band_place(s, above, t.output, x)
                    } else {
                        s.band_top_down(true, count).len() + s.stacks(shell, count).len() + band_place(
                            s,
                            above,
                            t.output,
                            x,
                        )
                    }
                };
            assert(ks.map_values(surface_of(s)).len() == ks.len());
            lemma_band_place(s, above, count, t.output, x);
        },
        Origin::Window(x) => {
            lemma_stack_place(s, shell, count, t.output, x);
        },
        _ => {},
    }
}

/// What is seen in front of something else is found before it.
proof fn lemma_front_is_first<S: Shell>(s: StateView, shell: S, a: Target, m: int, b: Target, n: int)
    requires
        layers_linked(s),
        places(s, shell, a, m),
        places(s, shell, b, n),
        seen_over(s, a, b),
    ensures
        m < n,
{
    lemma_place_bounds(s, shell, a, m);
    lemma_place_bounds(s, shell, b, n);
    let count = s.out.outputs.len();
    match (a.origin, b.origin) {
        (Origin::Layer(j), Origin::Layer(k)) => {
            let above = height(s, a.origin) > 2;
            if above == (height(s, b.origin) > 2) {
                let o = s.out.outputs[a.output];
                let start: int = if above {
                    0
                } else {
                    (s.band_top_down(true, count).len() + s.stacks(shell, count).len()) as int
                };
                let (ks, x) = choose|ks: Seq<ClientObjectId>, x: int|
                    {
                        &&& #[trigger] layers_sorted(s, o, ks)
                        &&& s.keys_in_band(o.id, above) == ks.map_values(surface_of(s))
                        &&& 0 <= x < ks.len()
                        &&& #[trigger] ks[x] == j
                        &&& m == start + band_place(s, above, a.output, x)
                    };
                let (ls, y) = choose|ls: Seq<ClientObjectId>, y: int|
                    {
                        &&& #[trigger] layers_sorted(s, o, ls)
                        &&& s.keys_in_band(o.id, above) == ls.map_values(surface_of(s))
                        &&& 0 <= y < ls.len()
                        &&& #[trigger] ls[y] == k
                        &&& n == start + band_place(s, above, b.output, y)
                    };
                lemma_same_band(s, o, ks, ls);
                if x < y {
                    assert(ks[x] == j && ks[y] == k);
                }
                assert(x > y);
            }
        },
        _ => {},
    }
}

/// What stands at a place among all that is on screen, if it is hit.
proof fn lemma_place_target<S: Shell>(s: StateView, shell: S, n: int, p: (i32, i32)) -> (t: Target)
    requires
        s.layers.layer_surfaces.ok(),
        layers_linked(s),
        stacks_hold_windows(s, shell),
        0 <= n < s.top_down(shell).len(),
        s.hit_one(s.top_down(shell)[n], p) is Some,
    ensures
        places(s, shell, t, n),
        target_root(s, shell, t) == Some((s.top_down(shell)[n], s.placed_position(s.top_down(shell)[n]))),
{
    let count = s.out.outputs.len();
    let (upper, lower) = (s.band_top_down(true, count), s.band_top_down(false, count));
    let windows = s.stacks(shell, count).reverse();
    let all = upper + windows + lower;
    assert(all == s.top_down(shell));
    if upper.len() <= n < upper.len() + windows.len() {
        let back = n - upper.len();
        let at = s.stacks(shell, count).len() - 1 - back;
        assert(all[n] == windows[back]);
        assert(windows[back] == s.stacks(shell, count)[at]);
        let (i, x) = lemma_stack_found(s, shell, count, at);
        lemma_stack_place(s, shell, count, i, x);
        assert(!s.layers.surface_layer.has(shell.stack_on(s.out.outputs[i].id)[x]));
        Target { output: i, origin: Origin::Window(x) }
    } else {
        let above = n < upper.len();
        let at = if above { n } else { n - upper.len() - windows.len() };
        if above {
            assert(all[n] == upper[at]);
        } else {
            assert(all[n] == lower[at]);
        }
        let (i, x) = lemma_band_found(s, above, count, at);
        let o = s.out.outputs[i];
        lemma_band_place(s, above, count, i, x);
        let ks = lemma_band_sorted(s, o, above);
        assert(s.keys_in_band(o.id, above)[x] == surface_of(s)(ks[x]));
        assert(ks.contains(ks[x]));
        let k = ks[x];
        let t = Target { output: i, origin: Origin::Layer(k) };
        assert(layers_sorted(s, o, ks) && ks[x] == k);
        assert(s.layer_surface_of(all[n]) == Some(k));
        t
    }
}

/// What is hit at a point is what is seen there. Of all that takes input at the
/// point nothing is seen in front of what is hit: not a panel in front of a
/// window, not a window in front of a wallpaper, not an upper window in front of
/// a lower. The hit names the surface of it that is in front there, and where
/// that is. If nothing takes input at the point nothing is hit.
pub proof fn lemma_hit_is_what_is_seen<S: Shell>(s: StateView, shell: S, p: (i32, i32)) -> (t: Target)
    requires
        s.layers.layer_surfaces.ok(),
        layers_linked(s),
        stacks_hold_windows(s, shell),
    ensures
        match s.hit_test(shell, p) {
            Some(h) => {
                &&& answers(s, shell, t, p)
                &&& forall|d: Target| #[trigger] answers(s, shell, d, p) ==> !seen_over(s, d, t)
                &&& match target_root(s, shell, t) {
                    Some((root, at)) => {
                        &&& h.toplevel == root
                        &&& in_front(s, root, at, p, s.surface_count(), (h.surface, (h.surface_x, h.surface_y)))
                    },
                    None => false,
                }
            },
            None => forall|d: Target| !#[trigger] answers(s, shell, d, p),
        },
{
    let keys = s.top_down(shell);
    let n = lemma_first_found(s, keys, p);
    assert forall|d: Target| #[trigger] answers(s, shell, d, p) implies exists|m: int|
        0 <= m < keys.len() && #[trigger] places(s, shell, d, m) && s.hit_one(keys[m], p) is Some by {
        let (root, at) = target_root(s, shell, d)->0;
        let m = lemma_target_place(s, shell, d);
        lemma_tree_is_hit_in_front(s, root, at, p);
        match d.origin {
            Origin::Layer(k) => {
                assert(s.layer_surface_of(root) == Some(k));
            },
            Origin::Window(x) => {
                assert(!s.layers.surface_layer.has(shell.stack_on(s.out.outputs[d.output].id)[x]));
            },
            _ => {},
        }
        assert(s.placed_position(root) == at);
        assert(s.hit_one(keys[m], p) is Some);
    }
    if s.hit_test(shell, p) is Some {
        let t = lemma_place_target(s, shell, n, p);
        let (root, at) = target_root(s, shell, t)->0;
        lemma_tree_is_hit_in_front(s, root, at, p);
        let h = s.hit_test(shell, p)->0;
        let hit = (h.surface, (h.surface_x, h.surface_y));
        assert(in_front(s, root, at, p, s.surface_count(), hit));
        let path = choose|path: Seq<int>|
            {
                &&& path.len() <= s.surface_count()
                &&& #[trigger] path_takes(s, root, at, path, p)
                &&& led_to(s, root, at, path) == Some(hit)
                &&& forall|q: Seq<int>|
                    q.len() <= s.surface_count() && #[trigger] path_takes(s, root, at, q, p) ==> q == path
                        || path_behind(q, path)
            };
        assert(path_takes(s, root, at, path, p));
        assert(answers(s, shell, t, p));
        assert forall|d: Target| #[trigger] answers(s, shell, d, p) implies !seen_over(s, d, t) by {
            let m = choose|m: int|
                0 <= m < keys.len() && #[trigger] places(s, shell, d, m) && s.hit_one(keys[m], p) is Some;
            if seen_over(s, d, t) {
                lemma_front_is_first(s, shell, d, m, t, n);
                assert(s.hit_one(keys[m], p) is None);
            }
        }
        t
    } else {
        assert forall|d: Target| !#[trigger] answers(s, shell, d, p) by {
            if answers(s, shell, d, p) {
                let m = choose|m: int|
                    0 <= m < keys.len() && #[trigger] places(s, shell, d, m) && s.hit_one(keys[m], p) is Some;
                assert(s.hit_one(keys[m], p) is None);
            }
        }
        Target { output: 0, origin: Origin::Bell }
    }
}

} // verus!
