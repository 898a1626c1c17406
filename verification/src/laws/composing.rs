//! Composing: what a scene shows, where, and in front of what.
use crate::laws::layers::{layer_height, lemma_layers_are_in_order};
use crate::layer::{in_band, surface_of};
use crate::scene::compose::{
    all_shifted, all_tidy, grouped, ItemView, leftmost, lemma_tree_tidy, lowest, plain_items,
    rightmost, shifted, tidy, topmost, WorkView,
};
use crate::scene::images::{CacheView, TextureId};
use crate::scene::paint::{ContentView, ElementView, PaintingView};
use crate::seqs::lemma_filter_facts;
use crate::shell::Shell;
use crate::state::compositor_state::StateView;
use crate::state::types::{ClientObjectId, OutputView};
use vstd::prelude::*;

verus! {

/// A number as near as a coordinate comes to it.
pub open spec fn fit(n: int) -> i32 {
    if n > i32::MAX {
        i32::MAX
    } else if n < i32::MIN {
        i32::MIN
    } else {
        n as i32
    }
}

/// Where a child is, given where its parent is and its place on it.
pub open spec fn put_on(at: (i32, i32), place: (i32, i32)) -> (i32, i32) {
    (fit(at.0 + place.0), fit(at.1 + place.1))
}

/// The surface that a path leads to from the root of a tree, and where it is.
/// A path names a child by its place among the children, one after another.
pub open spec fn led_to(s: StateView, key: ClientObjectId, at: (i32, i32), path: Seq<int>) -> Option<
    (ClientObjectId, (i32, i32)),
>
    decreases path.len(),
{
    if !s.surf.surfaces.has(key) {
        None
    } else if path.len() == 0 {
        Some((key, at))
    } else {
        let parent = s.surf.surfaces.at(key);
        if 0 <= path[0] < parent.children.len() {
            let child = (parent.client_id, parent.children[path[0]]);
            led_to(s, child, put_on(at, s.surf.surfaces.at(child).subsurface_position), path.drop_first())
        } else {
            None
        }
    }
}

/// Whether a path leads to what is behind what another leads to: to a parent of
/// it, or to a lower sibling of one of its parents or of itself.
pub open spec fn path_behind(a: Seq<int>, b: Seq<int>) -> bool
    decreases a.len(),
{
    if b.len() == 0 {
        false
    } else if a.len() == 0 {
        true
    } else {
        a[0] < b[0] || (a[0] == b[0] && path_behind(a.drop_first(), b.drop_first()))
    }
}

/// Whether a surface has content to be shown as it is.
pub open spec fn showable(s: StateView, key: ClientObjectId) -> bool {
    &&& s.surf.surfaces.has(key)
    &&& s.surf.surfaces.at(key).buffer_id is Some
    &&& s.buffer_mapping(key) is Some
    &&& s.image_of(CacheView::fresh(), (s.surf.surfaces.at(key).client_id, s.surf.surfaces.at(key).buffer_id->0)) is Some
}

/// Whether a quad shows a surface at a place: its top left corner is there, and
/// if the surface has content of its own the quad is as large as the surface and
/// is filled with its buffer, turned as it says.
pub open spec fn pictures(s: StateView, e: ElementView, key: ClientObjectId, at: (i32, i32)) -> bool {
    let surface = s.surf.surfaces.at(key);
    &&& s.surf.surfaces.has(key)
    &&& surface.buffer_id is Some
    &&& e.dst.x == at.0
    &&& e.dst.y == at.1
    &&& match e.content {
        ContentView::Texture { image, src, transform } => showable(s, key) ==> {
            let buffer = (surface.client_id, surface.buffer_id->0);
            &&& e.dst.width == s.surface_size(key).0
            &&& e.dst.height == s.surface_size(key).1
            &&& image.id == TextureId::Buffer(buffer.0, buffer.1)
            &&& image.serial == s.mem.buffers.at(buffer).content_serial
            &&& transform == surface.buffer_transform
            &&& src == (s.buffer_mapping(key)->0).src
        },
        ContentView::Color(c) => false,
    }
}

/// What a quad shows, how it hangs in its tree, and where it is.
pub struct Spot {
    pub path: Seq<int>,
    pub surface: ClientObjectId,
    pub at: (i32, i32),
}

/// Whether some quads are what a tree shows: each a surface of it at its place,
/// parents behind their children, siblings in their order, and none left out
/// that has content.
pub open spec fn shows_tree(
    s: StateView,
    es: Seq<ElementView>,
    spots: Seq<Spot>,
    root: ClientObjectId,
    at: (i32, i32),
    depth: nat,
) -> bool {
    &&& es.len() == spots.len()
    &&& forall|i: int|
        0 <= i < spots.len() ==> {
            let spot = #[trigger] spots[i];
            &&& led_to(s, root, at, spot.path) == Some((spot.surface, spot.at))
            &&& pictures(s, es[i], spot.surface, spot.at)
        }
    &&& forall|i: int, j: int|
        #![trigger spots[i], spots[j]]
        0 <= i < j < spots.len() ==> path_behind(spots[i].path, spots[j].path)
    &&& forall|path: Seq<int>|
        path.len() <= depth && (#[trigger] led_to(s, root, at, path)) is Some && showable(
            s,
            (led_to(s, root, at, path)->0).0,
        ) ==> exists|i: int| 0 <= i < spots.len() && (#[trigger] spots[i]).path == path
}

proof fn lemma_surface_shown(p: PaintingView, s: StateView, key: ClientObjectId, at: (i32, i32)) -> (new: Seq<ElementView>)
    ensures
        p.surface(s, key, at).elements == p.elements + new,
        new.len() <= 1,
        new.len() == 1 ==> pictures(s, new[0], key, at),
        showable(s, key) ==> new.len() == 1,
{
    let q = p.surface(s, key, at);
    if q.elements.len() > p.elements.len() {
        let new = seq![q.elements.last()];
        assert(q.elements =~= p.elements + new);
        new
    } else {
        let new = Seq::<ElementView>::empty();
        assert(q.elements =~= p.elements + new);
        new
    }
}

proof fn lemma_tree_shown(p: PaintingView, s: StateView, key: ClientObjectId, at: (i32, i32), fuel: nat) -> (r: (
    Seq<ElementView>,
    Seq<Spot>,
))
    ensures
        p.tree(s, key, at, fuel).elements == p.elements + r.0,
        shows_tree(s, r.0, r.1, key, at, fuel),
    decreases fuel, 1nat, 0nat,
{
    if !s.surf.surfaces.has(key) {
        let r = (Seq::<ElementView>::empty(), Seq::<Spot>::empty());
        assert(p.elements =~= p.elements + r.0);
        r
    } else {
        let surface = s.surf.surfaces.at(key);
        let own = lemma_surface_shown(p, s, key, at);
        let q = p.surface(s, key, at);
        assert(surface.children =~= surface.children.take(surface.children.len() as int));
        let (es, spots) = lemma_children_shown(q, s, key, at, surface.children, fuel);
        let first = if own.len() == 1 {
            seq![Spot { path: Seq::empty(), surface: key, at }]
        } else {
            Seq::empty()
        };
        let r = (own + es, first + spots);
        assert(p.elements + own + es =~= p.elements + r.0);
        lemma_tree_joined(s, key, at, fuel, own, first, es, spots);
        r
    }
}

/// Whether some quads are what the first few children of a surface show.
pub open spec fn shows_children(
    s: StateView,
    es: Seq<ElementView>,
    spots: Seq<Spot>,
    root: ClientObjectId,
    at: (i32, i32),
    n: int,
    depth: nat,
) -> bool {
    &&& es.len() == spots.len()
    &&& forall|i: int|
        0 <= i < spots.len() ==> {
            let spot = #[trigger] spots[i];
            &&& spot.path.len() > 0
            &&& 0 <= spot.path[0] < n
            &&& led_to(s, root, at, spot.path) == Some((spot.surface, spot.at))
            &&& pictures(s, es[i], spot.surface, spot.at)
        }
    &&& forall|i: int, j: int|
        #![trigger spots[i], spots[j]]
        0 <= i < j < spots.len() ==> path_behind(spots[i].path, spots[j].path)
    &&& forall|path: Seq<int>|
        0 < path.len() <= depth && path[0] < n && (#[trigger] led_to(s, root, at, path)) is Some && showable(
            s,
            (led_to(s, root, at, path)->0).0,
        ) ==> exists|i: int| 0 <= i < spots.len() && (#[trigger] spots[i]).path == path
}

proof fn lemma_tree_joined(
    s: StateView,
    key: ClientObjectId,
    at: (i32, i32),
    depth: nat,
    own: Seq<ElementView>,
    first: Seq<Spot>,
    es: Seq<ElementView>,
    spots: Seq<Spot>,
)
    requires
        s.surf.surfaces.has(key),
        own.len() == first.len(),
        own.len() <= 1,
        own.len() == 1 ==> pictures(s, own[0], key, at) && first[0] == (Spot { path: Seq::empty(), surface: key, at }),
        showable(s, key) ==> own.len() == 1,
        shows_children(s, es, spots, key, at, s.surf.surfaces.at(key).children.len() as int, depth),
    ensures
        shows_tree(s, own + es, first + spots, key, at, depth),
{
    let (all, places) = (own + es, first + spots);
    assert forall|i: int| 0 <= i < places.len() implies ({
        let spot = #[trigger] places[i];
        &&& led_to(s, key, at, spot.path) == Some((spot.surface, spot.at))
        &&& pictures(s, all[i], spot.surface, spot.at)
    }) by {
        if i >= first.len() {
            assert(places[i] == spots[i - first.len()]);
        }
    }
    assert forall|i: int, j: int|
        #![trigger places[i], places[j]]
        0 <= i < j < places.len() implies path_behind(places[i].path, places[j].path) by {
        assert(places[j] == spots[j - first.len()]);
        if i >= first.len() {
            assert(places[i] == spots[i - first.len()]);
        }
    }
    assert forall|path: Seq<int>|
        path.len() <= depth && (#[trigger] led_to(s, key, at, path)) is Some && showable(
            s,
            (led_to(s, key, at, path)->0).0,
        ) implies exists|i: int| 0 <= i < places.len() && (#[trigger] places[i]).path == path by {
        if path.len() == 0 {
            assert(places[0].path =~= path);
        } else {
            let i = choose|i: int| 0 <= i < spots.len() && (#[trigger] spots[i]).path == path;
            assert(places[i + first.len()] == spots[i]);
        }
    }
}

proof fn lemma_children_shown(
    p: PaintingView,
    s: StateView,
    key: ClientObjectId,
    at: (i32, i32),
    children: Seq<u32>,
    fuel: nat,
) -> (r: (Seq<ElementView>, Seq<Spot>))
    requires
        s.surf.surfaces.has(key),
        children.len() <= s.surf.surfaces.at(key).children.len(),
        children == s.surf.surfaces.at(key).children.take(children.len() as int),
    ensures
        p.children(s, s.surf.surfaces.at(key).client_id, children, at, fuel).elements == p.elements + r.0,
        shows_children(s, r.0, r.1, key, at, children.len() as int, fuel),
    decreases fuel, 0nat, children.len(),
{
    let parent = s.surf.surfaces.at(key);
    let client_id = parent.client_id;
    if children.len() == 0 || fuel == 0 {
        let r = (Seq::<ElementView>::empty(), Seq::<Spot>::empty());
        assert(p.elements =~= p.elements + r.0);
        assert forall|path: Seq<int>|
            0 < path.len() <= fuel && path[0] < children.len() && (#[trigger] led_to(s, key, at, path)) is Some
            && showable(s, (led_to(s, key, at, path)->0).0) implies exists|i: int|
            0 <= i < r.1.len() && (#[trigger] r.1[i]).path == path by {}
        r
    } else {
        let c = children.len() - 1;
        assert(children.drop_last() =~= parent.children.take(c));
        let (es, spots) = lemma_children_shown(p, s, key, at, children.drop_last(), fuel);
        let before = p.children(s, client_id, children.drop_last(), at, fuel);
        let child = (client_id, children.last());
        assert(children.last() == parent.children[c]);
        if s.surf.surfaces.has(child) {
            let there = put_on(at, s.surf.surfaces.at(child).subsurface_position);
            let (more, found) = lemma_tree_shown(before, s, child, there, (fuel - 1) as nat);
            let names = found.map_values(|x: Spot| Spot { path: seq![c] + x.path, ..x });
            let r = (es + more, spots + names);
            assert(p.elements + es + more =~= p.elements + r.0);
            lemma_child_joined(s, key, at, c, fuel, es, spots, more, found, names);
            r
        } else {
            let r = (es, spots);
            assert forall|path: Seq<int>|
                0 < path.len() <= fuel && path[0] < children.len() && (#[trigger] led_to(s, key, at, path)) is Some
                && showable(s, (led_to(s, key, at, path)->0).0) implies exists|i: int|
                0 <= i < r.1.len() && (#[trigger] r.1[i]).path == path by {
                if path[0] == c {
                    let there = put_on(at, s.surf.surfaces.at(child).subsurface_position);
                    assert(led_to(s, key, at, path) == led_to(s, child, there, path.drop_first()));
                }
            }
            r
        }
    }
}

proof fn lemma_child_joined(
    s: StateView,
    key: ClientObjectId,
    at: (i32, i32),
    c: int,
    depth: nat,
    es: Seq<ElementView>,
    spots: Seq<Spot>,
    more: Seq<ElementView>,
    found: Seq<Spot>,
    names: Seq<Spot>,
)
    requires
        s.surf.surfaces.has(key),
        depth > 0,
        0 <= c < s.surf.surfaces.at(key).children.len(),
        names == found.map_values(|x: Spot| Spot { path: seq![c] + x.path, ..x }),
        shows_children(s, es, spots, key, at, c, depth),
        ({
            let child = (s.surf.surfaces.at(key).client_id, s.surf.surfaces.at(key).children[c]);
            shows_tree(
                s,
                more,
                found,
                child,
                put_on(at, s.surf.surfaces.at(child).subsurface_position),
                (depth - 1) as nat,
            )
        }),
    ensures
        shows_children(s, es + more, spots + names, key, at, c + 1, depth),
{
    let child = (s.surf.surfaces.at(key).client_id, s.surf.surfaces.at(key).children[c]);
    let there = put_on(at, s.surf.surfaces.at(child).subsurface_position);
    let (all, places) = (es + more, spots + names);
    assert forall|i: int| 0 <= i < names.len() implies (#[trigger] names[i]).path.drop_first() == found[i].path
        && names[i].path[0] == c by {
        assert(names[i].path.drop_first() =~= found[i].path);
    }
    assert forall|i: int| 0 <= i < places.len() implies ({
        let spot = #[trigger] places[i];
        &&& spot.path.len() > 0
        &&& 0 <= spot.path[0] < c + 1
        &&& led_to(s, key, at, spot.path) == Some((spot.surface, spot.at))
        &&& pictures(s, all[i], spot.surface, spot.at)
    }) by {
        if i < spots.len() {
            assert(places[i] == spots[i]);
        } else {
            let n = names[i - spots.len()];
            assert(places[i] == n);
            assert(n.path.drop_first() == found[i - spots.len()].path);
        }
    }
    assert forall|i: int, j: int|
        #![trigger places[i], places[j]]
        0 <= i < j < places.len() implies path_behind(places[i].path, places[j].path) by {
        if j < spots.len() {
            assert(places[i] == spots[i] && places[j] == spots[j]);
        } else if i < spots.len() {
            assert(places[i] == spots[i] && places[j] == names[j - spots.len()]);
        } else {
            let (a, b) = (names[i - spots.len()], names[j - spots.len()]);
            assert(places[i] == a && places[j] == b);
            assert(path_behind(found[i - spots.len()].path, found[j - spots.len()].path));
        }
    }
    assert forall|path: Seq<int>|
        0 < path.len() <= depth && path[0] < c + 1 && (#[trigger] led_to(s, key, at, path)) is Some && showable(
            s,
            (led_to(s, key, at, path)->0).0,
        ) implies exists|i: int| 0 <= i < places.len() && (#[trigger] places[i]).path == path by {
        if path[0] < c {
            let i = choose|i: int| 0 <= i < spots.len() && (#[trigger] spots[i]).path == path;
            assert(places[i] == spots[i]);
        } else {
            let rest = path.drop_first();
            assert(led_to(s, child, there, rest) == led_to(s, key, at, path));
            let i = choose|i: int| 0 <= i < found.len() && (#[trigger] found[i]).path == rest;
            assert(names[i].path =~= path);
            assert(places[spots.len() + i] == names[i]);
        }
    }
}

/// A surface tree is drawn with every surface of it that has content, each where
/// the places of those above it add up to, parents behind their children and
/// siblings in their order.
pub proof fn lemma_tree_is_shown_in_order(p: PaintingView, s: StateView, key: ClientObjectId, at: (i32, i32))
    ensures
        exists|es: Seq<ElementView>, spots: Seq<Spot>|
            p.whole_tree(s, key, at).elements == p.elements + es && #[trigger] shows_tree(
                s,
                es,
                spots,
                key,
                at,
                s.surface_count(),
            ),
{
    let (es, spots) = lemma_tree_shown(p, s, key, at, s.surface_count());
    assert(shows_tree(s, es, spots, key, at, s.surface_count()));
}

/// Where something in a scene comes from.
pub enum Origin {
    /// A layer surface
    Layer(ClientObjectId),
    /// The window at a place of the stack, counted from the bottom
    Window(int),
    /// What is being dragged
    Icon,
    /// The bell
    Bell,
}

/// How high what a scene shows is, by what it comes from: wallpapers, what
/// windows cover, windows, panels, what covers everything, what is being dragged
/// and the bell.
pub open spec fn height(s: StateView, origin: Origin) -> int {
    match origin {
        Origin::Layer(k) => layer_height(s.layers.layer_surfaces.at(k).current.layer),
        Origin::Window(n) => 2,
        Origin::Icon => 5,
        Origin::Bell => 6,
    }
}

/// What a scene shows: where it comes from, and what of it.
pub struct Piece {
    pub origin: Origin,
    pub spot: Spot,
}

/// Where something of the whole desktop is on an output.
pub open spec fn local(x: int, y: int, o: OutputView) -> (i32, i32) {
    (fit(x - o.geometry.x), fit(y - o.geometry.y))
}

/// The surface at the root of what something comes from, and where it is on an
/// output, if it is to be seen there.
pub open spec fn seen_root<S: Shell>(s: StateView, shell: S, o: OutputView, origin: Origin) -> Option<
    (ClientObjectId, (i32, i32)),
> {
    match origin {
        Origin::Layer(k) => {
            let l = s.layers.layer_surfaces.at(k);
            match s.layer_geometry(k) {
                Some(g) => if s.layers.layer_surfaces.has(k) && l.output == Some(o.id) && l.configured {
                    Some(((l.client_id, l.wl_surface_id), local(g.x as int, g.y as int, o)))
                } else {
                    None
                },
                None => None,
            }
        },
        Origin::Window(n) => if 0 <= n < shell.stack_on(o.id).len() && s.surf.surfaces.has(shell.stack_on(o.id)[n]) {
            let at = s.surf.surfaces.at(shell.stack_on(o.id)[n]).position;
            Some((shell.stack_on(o.id)[n], local(at.0 as int, at.1 as int, o)))
        } else {
            None
        },
        Origin::Icon => match s.data.drag {
            Some(d) => match d.icon {
                Some(icon) => {
                    let c = s.input.cursor;
                    let offset = s.surf.surfaces.at(icon).offset;
                    if s.surf.surfaces.has(icon) && o.geometry.x <= c.0 < o.geometry.x + o.width && o.geometry.y <= c.1
                        < o.geometry.y + o.height {
                        Some((icon, local(c.0 + offset.0, c.1 + offset.1, o)))
                    } else {
                        None
                    }
                },
                None => None,
            },
            None => None,
        },
        Origin::Bell => None,
    }
}

/// Whether a group is some quads in a box drawn tightly around them: each is
/// where it was once the box is where it is.
pub open spec fn boxes(item: ItemView, window: ClientObjectId, es: Seq<ElementView>) -> bool {
    match item {
        ItemView::Group { window: w, bounds, elements } => {
            &&& w == window
            &&& es.len() > 0
            &&& elements.len() == es.len()
            &&& forall|i: int|
                0 <= i < es.len() ==> {
                    let (inner, outer) = (#[trigger] elements[i], es[i]);
                    &&& inner.content == outer.content
                    &&& inner.opaque == outer.opaque
                    &&& bounds.x + inner.dst.x == outer.dst.x
                    &&& bounds.y + inner.dst.y == outer.dst.y
                    &&& inner.dst.width == outer.dst.width
                    &&& inner.dst.height == outer.dst.height
                    &&& 0 <= inner.dst.x
                    &&& 0 <= inner.dst.y
                    &&& inner.dst.x + inner.dst.width <= bounds.width
                    &&& inner.dst.y + inner.dst.height <= bounds.height
                }
            &&& exists|i: int| 0 <= i < es.len() && (#[trigger] elements[i]).dst.x == 0
            &&& exists|i: int| 0 <= i < es.len() && (#[trigger] elements[i]).dst.y == 0
            &&& exists|i: int|
                0 <= i < es.len() && (#[trigger] elements[i]).dst.x + elements[i].dst.width == bounds.width
            &&& exists|i: int|
                0 <= i < es.len() && (#[trigger] elements[i]).dst.y + elements[i].dst.height == bounds.height
        },
        ItemView::Element(e) => false,
    }
}

/// Whether a window is drawn as its client committed it.
pub open spec fn drawn_plain<S: Shell>(shell: S, o: OutputView, origin: Origin) -> bool {
    match origin {
        Origin::Window(n) => shell.plain(shell.stack_on(o.id)[n]),
        _ => true,
    }
}

/// Whether one thing in a scene is a piece of it.
pub open spec fn is_piece<S: Shell>(s: StateView, shell: S, o: OutputView, item: ItemView, piece: Piece) -> bool {
    match piece.origin {
        Origin::Bell => s.out.bell_until.has(o.id) && match item {
            ItemView::Element(e) => {
                &&& e.content == ContentView::Color(0x60ff_ffff)
                &&& e.dst.x == 0
                &&& e.dst.y == 0
                &&& e.dst.width == o.width
                &&& e.dst.height == o.height
                &&& !e.opaque
            },
            ItemView::Group { .. } => false,
        },
        _ => match seen_root(s, shell, o, piece.origin) {
            Some((root, at)) => if drawn_plain(shell, o, piece.origin) {
                match item {
                    ItemView::Element(e) => {
                        &&& led_to(s, root, at, piece.spot.path) == Some((piece.spot.surface, piece.spot.at))
                        &&& pictures(s, e, piece.spot.surface, piece.spot.at)
                    },
                    ItemView::Group { .. } => false,
                }
            } else {
                exists|es: Seq<ElementView>, spots: Seq<Spot>| #[trigger]
                    shows_tree(s, es, spots, root, at, s.surface_count()) && boxes(item, root, es)
            },
            None => false,
        },
    }
}

/// Whether one piece of a scene is behind another.
pub open spec fn behind(s: StateView, a: Piece, b: Piece) -> bool {
    ||| height(s, a.origin) < height(s, b.origin)
    ||| height(s, a.origin) == height(s, b.origin) && match (a.origin, b.origin) {
        (Origin::Layer(j), Origin::Layer(k)) => j.0 < k.0 || (j.0 == k.0 && j.1 < k.1) || (j == k && path_behind(
            a.spot.path,
            b.spot.path,
        )),
        (Origin::Window(m), Origin::Window(n)) => m < n || (m == n && path_behind(a.spot.path, b.spot.path)),
        (Origin::Icon, Origin::Icon) => path_behind(a.spot.path, b.spot.path),
        _ => false,
    }
}

/// Whether things in a scene are pieces of it, back to front.
pub open spec fn pieces_in_order<S: Shell>(
    s: StateView,
    shell: S,
    o: OutputView,
    items: Seq<ItemView>,
    pieces: Seq<Piece>,
) -> bool {
    &&& items.len() == pieces.len()
    &&& forall|i: int| 0 <= i < pieces.len() ==> is_piece(s, shell, o, items[i], #[trigger] pieces[i])
    &&& forall|i: int, j: int|
        #![trigger pieces[i], pieces[j]]
        0 <= i < j < pieces.len() ==> behind(s, pieces[i], pieces[j])
}

/// Whether everything with content that comes from somewhere is among pieces, on
/// its own or as part of a window drawn as one.
pub open spec fn all_there<S: Shell>(s: StateView, shell: S, o: OutputView, pieces: Seq<Piece>, origin: Origin) -> bool {
    match seen_root(s, shell, o, origin) {
        Some((root, at)) => forall|path: Seq<int>|
            path.len() <= s.surface_count() && (#[trigger] led_to(s, root, at, path)) is Some && showable(
                s,
                (led_to(s, root, at, path)->0).0,
            ) ==> exists|i: int|
                0 <= i < pieces.len() && (#[trigger] pieces[i]).origin == origin && (drawn_plain(shell, o, origin)
                    ==> pieces[i].spot.path == path),
        None => true,
    }
}

proof fn lemma_more_there<S: Shell>(s: StateView, shell: S, o: OutputView, a: Seq<Piece>, b: Seq<Piece>, origin: Origin)
    requires
        all_there(s, shell, o, a, origin) || all_there(s, shell, o, b, origin),
    ensures
        all_there(s, shell, o, a + b, origin),
{
    let all = a + b;
    if let Some((root, at)) = seen_root(s, shell, o, origin) {
        assert forall|path: Seq<int>|
            path.len() <= s.surface_count() && (#[trigger] led_to(s, root, at, path)) is Some && showable(
                s,
                (led_to(s, root, at, path)->0).0,
            ) implies exists|i: int|
            0 <= i < all.len() && (#[trigger] all[i]).origin == origin && (drawn_plain(shell, o, origin)
                ==> all[i].spot.path == path) by {
            if all_there(s, shell, o, a, origin) {
                let i = choose|i: int|
                    0 <= i < a.len() && (#[trigger] a[i]).origin == origin && (drawn_plain(shell, o, origin)
                        ==> a[i].spot.path == path);
                assert(all[i] == a[i]);
            } else {
                let i = choose|i: int|
                    0 <= i < b.len() && (#[trigger] b[i]).origin == origin && (drawn_plain(shell, o, origin)
                        ==> b[i].spot.path == path);
                assert(all[a.len() + i] == b[i]);
            }
        }
    }
}

proof fn lemma_order_joined<S: Shell>(
    s: StateView,
    shell: S,
    o: OutputView,
    items: Seq<ItemView>,
    a: Seq<Piece>,
    more: Seq<ItemView>,
    b: Seq<Piece>,
)
    requires
        pieces_in_order(s, shell, o, items, a),
        pieces_in_order(s, shell, o, more, b),
        forall|i: int, j: int|
            #![trigger a[i], b[j]]
            0 <= i < a.len() && 0 <= j < b.len() ==> behind(s, a[i], b[j]),
    ensures
        pieces_in_order(s, shell, o, items + more, a + b),
{
    let all = a + b;
    assert forall|i: int| 0 <= i < all.len() implies is_piece(s, shell, o, (items + more)[i], #[trigger] all[i]) by {
        if i < a.len() {
            assert(all[i] == a[i]);
        } else {
            assert(all[i] == b[i - a.len()]);
        }
    }
    assert forall|i: int, j: int|
        #![trigger all[i], all[j]]
        0 <= i < j < all.len() implies behind(s, all[i], all[j]) by {
        if j < a.len() {
            assert(all[i] == a[i] && all[j] == a[j]);
        } else if i < a.len() {
            assert(all[i] == a[i] && all[j] == b[j - a.len()]);
        } else {
            assert(all[i] == b[i - a.len()] && all[j] == b[j - a.len()]);
        }
    }
}

/// What a tree shows, as pieces of a scene.
proof fn lemma_tree_pieces<S: Shell>(
    p: PaintingView,
    s: StateView,
    shell: S,
    o: OutputView,
    origin: Origin,
    root: ClientObjectId,
    at: (i32, i32),
) -> (r: (Seq<ElementView>, Seq<Piece>))
    requires
        seen_root(s, shell, o, origin) == Some((root, at)),
        drawn_plain(shell, o, origin),
        !(origin is Bell),
    ensures
        p.whole_tree(s, root, at).elements == p.elements + r.0,
        pieces_in_order(s, shell, o, plain_items(r.0), r.1),
        all_there(s, shell, o, r.1, origin),
        forall|i: int| 0 <= i < r.1.len() ==> (#[trigger] r.1[i]).origin == origin,
{
    let (es, spots) = lemma_tree_shown(p, s, root, at, s.surface_count());
    let pieces = spots.map_values(|x: Spot| Piece { origin, spot: x });
    let items = plain_items(es);
    assert forall|i: int| 0 <= i < pieces.len() implies is_piece(s, shell, o, items[i], #[trigger] pieces[i]) by {
        assert(pieces[i].spot == spots[i]);
    }
    assert forall|i: int, j: int|
        #![trigger pieces[i], pieces[j]]
        0 <= i < j < pieces.len() implies behind(s, pieces[i], pieces[j]) by {
        assert(path_behind(spots[i].path, spots[j].path));
    }
    assert forall|path: Seq<int>|
        path.len() <= s.surface_count() && (#[trigger] led_to(s, root, at, path)) is Some && showable(
            s,
            (led_to(s, root, at, path)->0).0,
        ) implies exists|i: int|
        0 <= i < pieces.len() && (#[trigger] pieces[i]).origin == origin && pieces[i].spot.path == path by {
        let i = choose|i: int| 0 <= i < spots.len() && (#[trigger] spots[i]).path == path;
        assert(pieces[i].spot == spots[i]);
    }
    (es, pieces)
}

/// Whether every layer surface is the one that its surface has its role from.
pub open spec fn layers_linked(s: StateView) -> bool {
    forall|k: ClientObjectId| #[trigger]
        s.layers.layer_surfaces.has(k) ==> {
            let surface = (s.layers.layer_surfaces.at(k).client_id, s.layers.layer_surfaces.at(k).wl_surface_id);
            &&& s.layers.layer_surfaces.at(k).client_id == k.0
            &&& s.layers.surface_layer.has(surface)
            &&& s.layers.surface_layer.at(surface) == k.1
        }
}

/// Whether layer surfaces of an output are in order, the lowest first.
pub open spec fn layers_sorted(s: StateView, o: OutputView, ks: Seq<ClientObjectId>) -> bool {
    &&& forall|i: int|
        0 <= i < ks.len() ==> s.layers.layer_surfaces.has(#[trigger] ks[i]) && s.layers.layer_surfaces.at(ks[i]).output
            == Some(o.id)
    &&& forall|i: int, j: int|
        #![trigger ks[i], ks[j]]
        0 <= i < j < ks.len() ==> {
            let a = layer_height(s.layers.layer_surfaces.at(ks[i]).current.layer);
            let b = layer_height(s.layers.layer_surfaces.at(ks[j]).current.layer);
            a < b || (a == b && (ks[i].0 < ks[j].0 || (ks[i].0 == ks[j].0 && ks[i].1 < ks[j].1)))
        }
}

proof fn lemma_layer_pieces<S: Shell>(p: PaintingView, s: StateView, shell: S, o: OutputView, k: ClientObjectId) -> (r: (
    Seq<ElementView>,
    Seq<Piece>,
))
    requires
        layers_linked(s),
        s.layers.layer_surfaces.has(k),
        s.layers.layer_surfaces.at(k).output == Some(o.id),
    ensures
        p.layer(s, surface_of(s)(k), (o.geometry.x, o.geometry.y)).elements == p.elements + r.0,
        pieces_in_order(s, shell, o, plain_items(r.0), r.1),
        all_there(s, shell, o, r.1, Origin::Layer(k)),
        forall|i: int| 0 <= i < r.1.len() ==> (#[trigger] r.1[i]).origin == Origin::Layer(k),
{
    let key = surface_of(s)(k);
    assert(s.layer_surface_of(key) == Some(k));
    match seen_root(s, shell, o, Origin::Layer(k)) {
        Some((root, at)) => lemma_tree_pieces(p, s, shell, o, Origin::Layer(k), root, at),
        None => {
            let r = (Seq::<ElementView>::empty(), Seq::<Piece>::empty());
            assert(p.elements + r.0 =~= p.elements);
            r
        },
    }
}

proof fn lemma_layers_pieces<S: Shell>(
    p: PaintingView,
    s: StateView,
    shell: S,
    o: OutputView,
    ks: Seq<ClientObjectId>,
) -> (r: (Seq<ElementView>, Seq<Piece>))
    requires
        layers_linked(s),
        layers_sorted(s, o, ks),
    ensures
        p.layers(s, ks.map_values(surface_of(s)), (o.geometry.x, o.geometry.y)).elements == p.elements + r.0,
        pieces_in_order(s, shell, o, plain_items(r.0), r.1),
        forall|k: ClientObjectId| #[trigger] ks.contains(k) ==> all_there(s, shell, o, r.1, Origin::Layer(k)),
        forall|i: int|
            0 <= i < r.1.len() ==> match (#[trigger] r.1[i]).origin {
                Origin::Layer(k) => ks.contains(k),
                _ => false,
            },
    decreases ks.len(),
{
    if ks.len() == 0 {
        let r = (Seq::<ElementView>::empty(), Seq::<Piece>::empty());
        assert(p.elements + r.0 =~= p.elements);
        r
    } else {
        let before = ks.drop_last();
        let k = ks.last();
        assert(ks[ks.len() - 1] == k);
        assert forall|i: int| 0 <= i < before.len() implies s.layers.layer_surfaces.has(#[trigger] before[i])
            && s.layers.layer_surfaces.at(before[i]).output == Some(o.id) by {
            assert(before[i] == ks[i]);
        }
        assert(layers_sorted(s, o, before)) by {
            assert forall|i: int, j: int|
                #![trigger before[i], before[j]]
                0 <= i < j < before.len() implies ({
                let a = layer_height(s.layers.layer_surfaces.at(before[i]).current.layer);
                let b = layer_height(s.layers.layer_surfaces.at(before[j]).current.layer);
                a < b || (a == b && (before[i].0 < before[j].0 || (before[i].0 == before[j].0 && before[i].1
                    < before[j].1)))
            }) by {
                assert(before[i] == ks[i] && before[j] == ks[j]);
            }
        }
        let (es, pieces) = lemma_layers_pieces(p, s, shell, o, before);
        let origin = (o.geometry.x, o.geometry.y);
        let keys = ks.map_values(surface_of(s));
        assert(keys.drop_last() =~= before.map_values(surface_of(s)));
        assert(keys.last() == surface_of(s)(k));
        let q = p.layers(s, keys.drop_last(), origin);
        let (more, next) = lemma_layer_pieces(q, s, shell, o, k);
        let r = (es + more, pieces + next);
        assert(p.elements + es + more =~= p.elements + r.0);
        assert(plain_items(r.0) =~= plain_items(es) + plain_items(more));
        assert forall|i: int, j: int|
            #![trigger pieces[i], next[j]]
            0 <= i < pieces.len() && 0 <= j < next.len() implies behind(s, pieces[i], next[j]) by {
            let a = pieces[i].origin->Layer_0;
            let n = before.index_of(a);
            assert(before[n] == a);
            assert(ks[n] == a);
            assert(ks[ks.len() - 1] == k);
        }
        lemma_order_joined(s, shell, o, plain_items(es), pieces, plain_items(more), next);
        assert forall|x: ClientObjectId| #[trigger] ks.contains(x) implies all_there(
            s,
            shell,
            o,
            r.1,
            Origin::Layer(x),
        ) by {
            let n = ks.index_of(x);
            if n < before.len() {
                assert(before[n] == x);
                assert(before.contains(x));
            }
            lemma_more_there(s, shell, o, pieces, next, Origin::Layer(x));
        }
        assert forall|i: int| 0 <= i < r.1.len() implies match (#[trigger] r.1[i]).origin {
            Origin::Layer(x) => ks.contains(x),
            _ => false,
        } by {
            if i < pieces.len() {
                assert(r.1[i] == pieces[i]);
                let x = pieces[i].origin->Layer_0;
                let n = before.index_of(x);
                assert(ks[n] == x);
            } else {
                assert(r.1[i] == next[i - pieces.len()]);
            }
        }
        r
    }
}

proof fn lemma_leftmost(es: Seq<ElementView>)
    requires
        es.len() > 0,
    ensures
        forall|i: int| 0 <= i < es.len() ==> leftmost(es) <= (#[trigger] es[i]).dst.x,
        exists|i: int| 0 <= i < es.len() && leftmost(es) == (#[trigger] es[i]).dst.x,
    decreases es.len(),
{
    if es.len() > 1 {
        let t = es.drop_last();
        lemma_leftmost(t);
        assert forall|i: int| 0 <= i < es.len() implies leftmost(es) <= (#[trigger] es[i]).dst.x by {
            if i < t.len() {
                assert(t[i] == es[i]);
            }
        }
        if leftmost(es) == leftmost(t) {
            let i = choose|i: int| 0 <= i < t.len() && leftmost(t) == (#[trigger] t[i]).dst.x;
            assert(es[i] == t[i]);
        } else {
            assert(es[es.len() - 1] == es.last());
        }
    } else {
        assert(es[0] == es[0]);
    }
}

proof fn lemma_topmost(es: Seq<ElementView>)
    requires
        es.len() > 0,
    ensures
        forall|i: int| 0 <= i < es.len() ==> topmost(es) <= (#[trigger] es[i]).dst.y,
        exists|i: int| 0 <= i < es.len() && topmost(es) == (#[trigger] es[i]).dst.y,
    decreases es.len(),
{
    if es.len() > 1 {
        let t = es.drop_last();
        lemma_topmost(t);
        assert forall|i: int| 0 <= i < es.len() implies topmost(es) <= (#[trigger] es[i]).dst.y by {
            if i < t.len() {
                assert(t[i] == es[i]);
            }
        }
        if topmost(es) == topmost(t) {
            let i = choose|i: int| 0 <= i < t.len() && topmost(t) == (#[trigger] t[i]).dst.y;
            assert(es[i] == t[i]);
        } else {
            assert(es[es.len() - 1] == es.last());
        }
    } else {
        assert(es[0] == es[0]);
    }
}

proof fn lemma_rightmost(es: Seq<ElementView>)
    requires
        es.len() > 0,
    ensures
        forall|i: int| 0 <= i < es.len() ==> rightmost(es) >= (#[trigger] es[i]).dst.x + es[i].dst.width,
        exists|i: int| 0 <= i < es.len() && rightmost(es) == (#[trigger] es[i]).dst.x + es[i].dst.width,
    decreases es.len(),
{
    if es.len() > 1 {
        let t = es.drop_last();
        lemma_rightmost(t);
        assert forall|i: int| 0 <= i < es.len() implies rightmost(es) >= (#[trigger] es[i]).dst.x + es[i].dst.width by {
            if i < t.len() {
                assert(t[i] == es[i]);
            }
        }
        if rightmost(es) == rightmost(t) {
            let i = choose|i: int| 0 <= i < t.len() && rightmost(t) == (#[trigger] t[i]).dst.x + t[i].dst.width;
            assert(es[i] == t[i]);
        } else {
            assert(es[es.len() - 1] == es.last());
        }
    } else {
        assert(es[0] == es[0]);
    }
}

proof fn lemma_lowest(es: Seq<ElementView>)
    requires
        es.len() > 0,
    ensures
        forall|i: int| 0 <= i < es.len() ==> lowest(es) >= (#[trigger] es[i]).dst.y + es[i].dst.height,
        exists|i: int| 0 <= i < es.len() && lowest(es) == (#[trigger] es[i]).dst.y + es[i].dst.height,
    decreases es.len(),
{
    if es.len() > 1 {
        let t = es.drop_last();
        lemma_lowest(t);
        assert forall|i: int| 0 <= i < es.len() implies lowest(es) >= (#[trigger] es[i]).dst.y + es[i].dst.height by {
            if i < t.len() {
                assert(t[i] == es[i]);
            }
        }
        if lowest(es) == lowest(t) {
            let i = choose|i: int| 0 <= i < t.len() && lowest(t) == (#[trigger] t[i]).dst.y + t[i].dst.height;
            assert(es[i] == t[i]);
        } else {
            assert(es[es.len() - 1] == es.last());
        }
    } else {
        assert(es[0] == es[0]);
    }
}

proof fn lemma_grouped(window: ClientObjectId, es: Seq<ElementView>)
    requires
        es.len() > 0,
        all_tidy(es),
    ensures
        boxes(grouped(window, es), window, es),
{
    lemma_leftmost(es);
    lemma_topmost(es);
    lemma_rightmost(es);
    lemma_lowest(es);
    let (x, y) = (leftmost(es), topmost(es));
    let inner = all_shifted(es, x, y);
    let a = choose|i: int| 0 <= i < es.len() && leftmost(es) == (#[trigger] es[i]).dst.x;
    let b = choose|i: int| 0 <= i < es.len() && topmost(es) == (#[trigger] es[i]).dst.y;
    let c = choose|i: int| 0 <= i < es.len() && rightmost(es) == (#[trigger] es[i]).dst.x + es[i].dst.width;
    let d = choose|i: int| 0 <= i < es.len() && lowest(es) == (#[trigger] es[i]).dst.y + es[i].dst.height;
    assert(tidy(es[a].dst) && tidy(es[b].dst) && tidy(es[c].dst) && tidy(es[d].dst));
    assert(es[a].dst.x + es[a].dst.width <= rightmost(es));
    assert(es[b].dst.y + es[b].dst.height <= lowest(es));
    assert forall|i: int| 0 <= i < es.len() implies (#[trigger] inner[i]) == shifted(es[i], x, y) && tidy(es[i].dst) by {
        assert(tidy(es[i].dst));
    }
    assert(inner[a].dst.x == 0);
    assert(inner[b].dst.y == 0);
    assert(inner[c].dst.x + inner[c].dst.width == rightmost(es) - x);
    assert(inner[d].dst.y + inner[d].dst.height == lowest(es) - y);
}

proof fn lemma_window_pieces<S: Shell>(w: WorkView, s: StateView, shell: S, o: OutputView, n: int) -> (r: (
    Seq<ItemView>,
    Seq<Piece>,
))
    requires
        0 <= n < shell.stack_on(o.id).len(),
    ensures
        w.window(s, shell, shell.stack_on(o.id)[n], (o.geometry.x, o.geometry.y)).items == w.items + r.0,
        pieces_in_order(s, shell, o, r.0, r.1),
        all_there(s, shell, o, r.1, Origin::Window(n)),
        forall|i: int| 0 <= i < r.1.len() ==> (#[trigger] r.1[i]).origin == Origin::Window(n),
{
    let key = shell.stack_on(o.id)[n];
    let origin = Origin::Window(n);
    match seen_root(s, shell, o, origin) {
        None => {
            let r = (Seq::<ItemView>::empty(), Seq::<Piece>::empty());
            assert(w.items + r.0 =~= w.items);
            r
        },
        Some((root, at)) => {
            if shell.plain(key) {
                let (es, pieces) = lemma_tree_pieces(w.blank(), s, shell, o, origin, root, at);
                assert(w.blank().elements + es =~= es);
                (plain_items(es), pieces)
            } else {
                let p = w.blank();
                let (es, spots) = lemma_tree_shown(p, s, root, at, s.surface_count());
                assert(p.elements + es =~= es);
                lemma_tree_tidy(p, s, root, at, s.surface_count());
                if es.len() == 0 {
                    let r = (Seq::<ItemView>::empty(), Seq::<Piece>::empty());
                    assert(w.items + r.0 =~= w.items);
                    assert forall|path: Seq<int>|
                        path.len() <= s.surface_count() && (#[trigger] led_to(s, root, at, path)) is Some && showable(
                            s,
                            (led_to(s, root, at, path)->0).0,
                        ) implies false by {}
                    r
                } else {
                    let item = grouped(root, es);
                    lemma_grouped(root, es);
                    assert(shows_tree(s, es, spots, root, at, s.surface_count()));
                    let piece = Piece { origin, spot: Spot { path: Seq::empty(), surface: root, at } };
                    let r = (seq![item], seq![piece]);
                    assert(w.items.push(item) =~= w.items + r.0);
                    assert(is_piece(s, shell, o, item, piece));
                    assert(r.1[0].origin == origin);
                    r
                }
            }
        },
    }
}

proof fn lemma_windows_pieces<S: Shell>(w: WorkView, s: StateView, shell: S, o: OutputView, n: int) -> (r: (
    Seq<ItemView>,
    Seq<Piece>,
))
    requires
        0 <= n <= shell.stack_on(o.id).len(),
    ensures
        w.windows(s, shell, shell.stack_on(o.id).take(n), (o.geometry.x, o.geometry.y)).items == w.items + r.0,
        pieces_in_order(s, shell, o, r.0, r.1),
        forall|m: int| 0 <= m < n ==> #[trigger] all_there(s, shell, o, r.1, Origin::Window(m)),
        forall|i: int|
            0 <= i < r.1.len() ==> match (#[trigger] r.1[i]).origin {
                Origin::Window(m) => 0 <= m < n,
                _ => false,
            },
    decreases n,
{
    let stack = shell.stack_on(o.id);
    if n == 0 {
        let r = (Seq::<ItemView>::empty(), Seq::<Piece>::empty());
        assert(w.items + r.0 =~= w.items);
        r
    } else {
        let (items, pieces) = lemma_windows_pieces(w, s, shell, o, n - 1);
        let origin = (o.geometry.x, o.geometry.y);
        assert(stack.take(n).drop_last() =~= stack.take(n - 1));
        assert(stack.take(n).last() == stack[n - 1]);
        let before = w.windows(s, shell, stack.take(n - 1), origin);
        let (more, next) = lemma_window_pieces(before, s, shell, o, n - 1);
        let r = (items + more, pieces + next);
        assert(w.items + items + more =~= w.items + r.0);
        assert forall|i: int, j: int|
            #![trigger pieces[i], next[j]]
            0 <= i < pieces.len() && 0 <= j < next.len() implies behind(s, pieces[i], next[j]) by {}
        lemma_order_joined(s, shell, o, items, pieces, more, next);
        assert forall|m: int| 0 <= m < n implies #[trigger] all_there(s, shell, o, r.1, Origin::Window(m)) by {
            lemma_more_there(s, shell, o, pieces, next, Origin::Window(m));
        }
        assert forall|i: int| 0 <= i < r.1.len() implies match (#[trigger] r.1[i]).origin {
            Origin::Window(m) => 0 <= m < n,
            _ => false,
        } by {
            if i < pieces.len() {
                assert(r.1[i] == pieces[i]);
            } else {
                assert(r.1[i] == next[i - pieces.len()]);
            }
        }
        r
    }
}

proof fn lemma_icon_pieces<S: Shell>(p: PaintingView, s: StateView, shell: S, o: OutputView) -> (r: (
    Seq<ElementView>,
    Seq<Piece>,
))
    ensures
        p.drag_icon(s, o).elements == p.elements + r.0,
        pieces_in_order(s, shell, o, plain_items(r.0), r.1),
        all_there(s, shell, o, r.1, Origin::Icon),
        forall|i: int| 0 <= i < r.1.len() ==> (#[trigger] r.1[i]).origin == Origin::Icon,
{
    match seen_root(s, shell, o, Origin::Icon) {
        Some((root, at)) => lemma_tree_pieces(p, s, shell, o, Origin::Icon, root, at),
        None => {
            let r = (Seq::<ElementView>::empty(), Seq::<Piece>::empty());
            assert(p.elements + r.0 =~= p.elements);
            r
        },
    }
}

proof fn lemma_bell_pieces<S: Shell>(p: PaintingView, s: StateView, shell: S, o: OutputView) -> (r: (
    Seq<ElementView>,
    Seq<Piece>,
))
    ensures
        p.bell(s, o).elements == p.elements + r.0,
        pieces_in_order(s, shell, o, plain_items(r.0), r.1),
        r.1.len() == if s.out.bell_until.has(o.id) { 1int } else { 0 },
        forall|i: int| 0 <= i < r.1.len() ==> (#[trigger] r.1[i]).origin == Origin::Bell,
{
    let q = p.bell(s, o);
    if s.out.bell_until.has(o.id) {
        let piece = Piece { origin: Origin::Bell, spot: Spot { path: Seq::empty(), surface: (0, 0), at: (0, 0) } };
        let r = (seq![q.elements.last()], seq![piece]);
        assert(q.elements =~= p.elements + r.0);
        assert(is_piece(s, shell, o, plain_items(r.0)[0], piece));
        r
    } else {
        let r = (Seq::<ElementView>::empty(), Seq::<Piece>::empty());
        assert(p.elements + r.0 =~= p.elements);
        r
    }
}

/// The layer surfaces of an output over the windows, or those under them, are in
/// order and all there.
pub proof fn lemma_band_sorted(s: StateView, o: OutputView, above: bool) -> (ks: Seq<ClientObjectId>)
    requires
        s.layers.layer_surfaces.ok(),
    ensures
        s.keys_in_band(o.id, above) == ks.map_values(surface_of(s)),
        layers_sorted(s, o, ks),
        forall|k: ClientObjectId| #[trigger]
            ks.contains(k) <==> s.layers.layer_surfaces.has(k) && s.layers.layer_surfaces.at(k).output == Some(o.id) && (
            layer_height(s.layers.layer_surfaces.at(k).current.layer) > 2) == above,
{
    let all = s.ordered_for_output(o.id);
    let p = in_band(s, above);
    let ks = all.filter(p);
    lemma_layers_are_in_order(s, o.id);
    lemma_filter_facts(all, p);
    assert forall|k: ClientObjectId| p(k) == ((layer_height(s.layers.layer_surfaces.at(k).current.layer) > 2) == above) by {}
    assert forall|i: int| 0 <= i < all.len() implies s.layers.layer_surfaces.has(#[trigger] all[i])
        && s.layers.layer_surfaces.at(all[i]).output == Some(o.id) by {
        assert(all.contains(all[i]));
    }
    lemma_filter_keeps_order(s, o, all, p);
    ks
}

/// Filtering what is sorted leaves it sorted.
proof fn lemma_filter_keeps_order(s: StateView, o: OutputView, all: Seq<ClientObjectId>, p: spec_fn(ClientObjectId) -> bool)
    requires
        layers_sorted(s, o, all),
    ensures
        layers_sorted(s, o, all.filter(p)),
    decreases all.len(),
{
    reveal(Seq::filter);
    if all.len() > 0 {
        let t = all.drop_last();
        assert(layers_sorted(s, o, t)) by {
            assert forall|i: int| 0 <= i < t.len() implies s.layers.layer_surfaces.has(#[trigger] t[i])
                && s.layers.layer_surfaces.at(t[i]).output == Some(o.id) by {
                assert(t[i] == all[i]);
            }
            assert forall|i: int, j: int|
                #![trigger t[i], t[j]]
                0 <= i < j < t.len() implies ({
                let a = layer_height(s.layers.layer_surfaces.at(t[i]).current.layer);
                let b = layer_height(s.layers.layer_surfaces.at(t[j]).current.layer);
                a < b || (a == b && (t[i].0 < t[j].0 || (t[i].0 == t[j].0 && t[i].1 < t[j].1)))
            }) by {
                assert(t[i] == all[i] && t[j] == all[j]);
            }
        }
        lemma_filter_keeps_order(s, o, t, p);
        lemma_filter_facts(t, p);
        let f = t.filter(p);
        let g = all.filter(p);
        assert(all[all.len() - 1] == all.last());
        assert forall|i: int| 0 <= i < g.len() implies s.layers.layer_surfaces.has(#[trigger] g[i])
            && s.layers.layer_surfaces.at(g[i]).output == Some(o.id) by {
            if i < f.len() {
                assert(g[i] == f[i]);
            } else {
                assert(g[i] == all.last());
            }
        }
        assert forall|i: int, j: int|
            #![trigger g[i], g[j]]
            0 <= i < j < g.len() implies ({
            let a = layer_height(s.layers.layer_surfaces.at(g[i]).current.layer);
            let b = layer_height(s.layers.layer_surfaces.at(g[j]).current.layer);
            a < b || (a == b && (g[i].0 < g[j].0 || (g[i].0 == g[j].0 && g[i].1 < g[j].1)))
        }) by {
            assert(g[i] == f[i]);
            if j < f.len() {
                assert(g[j] == f[j]);
            } else {
                assert(f.contains(f[i]));
                let n = t.index_of(f[i]);
                assert(t[n] == f[i]);
                assert(all[n] == f[i]);
                assert(g[j] == all.last());
            }
        }
    }
}

/// Whether pieces are all within some heights.
pub open spec fn between(s: StateView, a: Seq<Piece>, low: int, high: int) -> bool {
    forall|i: int| 0 <= i < a.len() ==> low <= height(s, (#[trigger] a[i]).origin) <= high
}

proof fn lemma_heights_joined(s: StateView, a: Seq<Piece>, b: Seq<Piece>, low: int, mid: int, next: int, high: int)
    requires
        between(s, a, low, mid),
        between(s, b, next, high),
        low <= mid < next <= high,
    ensures
        between(s, a + b, low, high),
        forall|i: int, j: int|
            #![trigger a[i], b[j]]
            0 <= i < a.len() && 0 <= j < b.len() ==> behind(s, a[i], b[j]),
{
    let all = a + b;
    assert forall|i: int| 0 <= i < all.len() implies low <= height(s, (#[trigger] all[i]).origin) <= high by {
        if i < a.len() {
            assert(all[i] == a[i]);
        } else {
            assert(all[i] == b[i - a.len()]);
        }
    }
    assert forall|i: int, j: int|
        #![trigger a[i], b[j]]
        0 <= i < a.len() && 0 <= j < b.len() implies behind(s, a[i], b[j]) by {
        assert(height(s, a[i].origin) <= mid);
        assert(height(s, b[j].origin) >= next);
    }
}

/// A scene shows, back to front: the wallpapers, what the windows cover, the
/// windows as the shell stacks them, the panels, what covers everything, what is
/// being dragged, and the bell. Each of them is its whole surface tree in order,
/// where it is on the output, and nothing that has content is left out.
pub proof fn lemma_scene_is_stacked<S: Shell>(
    s: StateView,
    shell: S,
    cache: CacheView,
    o: OutputView,
    serial: u64,
) -> (pieces: Seq<Piece>)
    requires
        s.showing(o.id) == Some(o),
        s.layers.layer_surfaces.ok(),
        layers_linked(s),
    ensures
        pieces_in_order(s, shell, o, s.scene(shell, cache, o.id, serial).items, pieces),
        forall|k: ClientObjectId| #[trigger]
            s.layers.layer_surfaces.has(k) ==> all_there(s, shell, o, pieces, Origin::Layer(k)),
        forall|n: int|
            0 <= n < shell.stack_on(o.id).len() ==> #[trigger] all_there(s, shell, o, pieces, Origin::Window(n)),
        all_there(s, shell, o, pieces, Origin::Icon),
        s.out.bell_until.has(o.id) ==> pieces.len() > 0 && pieces.last().origin is Bell,
{
    let work = WorkView { cache, items: Seq::empty() };
    let origin = (o.geometry.x, o.geometry.y);
    let stack = shell.stack_on(o.id);
    let lower = lemma_band_sorted(s, o, false);
    let upper = lemma_band_sorted(s, o, true);
    let (es, low) = lemma_layers_pieces(work.blank(), s, shell, o, lower);
    assert(work.blank().elements + es =~= es);
    let below = work.with(work.blank().layers(s, s.keys_in_band(o.id, false), origin));
    assert(below.items =~= plain_items(es));
    let (shown, mid) = lemma_windows_pieces(below, s, shell, o, stack.len() as int);
    assert(stack.take(stack.len() as int) =~= stack);
    let windows = below.windows(s, shell, stack, origin);
    let p = windows.blank();
    let (more, high) = lemma_layers_pieces(p, s, shell, o, upper);
    let q = p.layers(s, s.keys_in_band(o.id, true), origin);
    let (icons, icon) = lemma_icon_pieces(q, s, shell, o);
    let (flash, bell) = lemma_bell_pieces(q.drag_icon(s, o), s, shell, o);
    let top = q.drag_icon(s, o).bell(s, o);
    assert(top.elements =~= more + icons + flash);
    assert(plain_items(top.elements) =~= plain_items(more) + plain_items(icons) + plain_items(flash));
    let items = s.scene(shell, cache, o.id, serial).items;
    assert(items =~= plain_items(es) + shown + plain_items(more) + plain_items(icons) + plain_items(flash));
    assert forall|i: int| 0 <= i < low.len() implies 0 <= height(s, (#[trigger] low[i]).origin) <= 1 by {
        assert(lower.contains(low[i].origin->Layer_0));
    }
    assert forall|i: int| 0 <= i < high.len() implies 3 <= height(s, (#[trigger] high[i]).origin) <= 4 by {
        assert(upper.contains(high[i].origin->Layer_0));
    }
    lemma_heights_joined(s, low, mid, 0, 1, 2, 2);
    lemma_order_joined(s, shell, o, plain_items(es), low, shown, mid);
    lemma_heights_joined(s, low + mid, high, 0, 2, 3, 4);
    lemma_order_joined(s, shell, o, plain_items(es) + shown, low + mid, plain_items(more), high);
    lemma_heights_joined(s, low + mid + high, icon, 0, 4, 5, 5);
    lemma_order_joined(
        s,
        shell,
        o,
        plain_items(es) + shown + plain_items(more),
        low + mid + high,
        plain_items(icons),
        icon,
    );
    lemma_heights_joined(s, low + mid + high + icon, bell, 0, 5, 6, 6);
    lemma_order_joined(
        s,
        shell,
        o,
        plain_items(es) + shown + plain_items(more) + plain_items(icons),
        low + mid + high + icon,
        plain_items(flash),
        bell,
    );
    let pieces = low + mid + high + icon + bell;
    assert forall|k: ClientObjectId| #[trigger] s.layers.layer_surfaces.has(k) implies all_there(
        s,
        shell,
        o,
        pieces,
        Origin::Layer(k),
    ) by {
        if s.layers.layer_surfaces.at(k).output == Some(o.id) {
            let at = Origin::Layer(k);
            assert(lower.contains(k) || upper.contains(k));
            if lower.contains(k) {
                lemma_more_there(s, shell, o, low, mid, at);
                lemma_more_there(s, shell, o, low + mid, high, at);
            } else {
                lemma_more_there(s, shell, o, low + mid, high, at);
            }
            lemma_more_there(s, shell, o, low + mid + high, icon, at);
            lemma_more_there(s, shell, o, low + mid + high + icon, bell, at);
        }
    }
    assert forall|n: int| 0 <= n < stack.len() implies #[trigger] all_there(s, shell, o, pieces, Origin::Window(n)) by {
        let at = Origin::Window(n);
        lemma_more_there(s, shell, o, low, mid, at);
        lemma_more_there(s, shell, o, low + mid, high, at);
        lemma_more_there(s, shell, o, low + mid + high, icon, at);
        lemma_more_there(s, shell, o, low + mid + high + icon, bell, at);
    }
    lemma_more_there(s, shell, o, low + mid + high, icon, Origin::Icon);
    lemma_more_there(s, shell, o, low + mid + high + icon, bell, Origin::Icon);
    if s.out.bell_until.has(o.id) {
        assert(pieces.last() == bell[0]);
    }
    pieces
}

} // verus!
