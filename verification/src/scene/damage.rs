//! What of an output has to be drawn again.
use crate::scene::compose::{items_view, ItemView, Scene, SceneItem, SceneView};
use crate::scene::paint::{ContentView, Quad, SceneContent};
use crate::state::types::TextureRect;
use vstd::prelude::*;

verus! {

/// All of a scene's output.
pub open spec fn all_of(s: SceneView) -> TextureRect {
    TextureRect { x: 0, y: 0, width: s.size.0, height: s.size.1 }
}

/// Whether a quad can be written down as a rectangle.
pub open spec fn bounded(q: Quad) -> bool {
    &&& i32::MIN <= q.x <= i32::MAX
    &&& i32::MIN <= q.y <= i32::MAX
    &&& i32::MIN <= q.width <= i32::MAX
    &&& i32::MIN <= q.height <= i32::MAX
}

/// The rectangle something drawn is known to stay within, if one is. A group is
/// drawn through a transform that is not known here, and may reach anywhere.
pub open spec fn item_rect(i: ItemView) -> Option<TextureRect> {
    match i {
        ItemView::Element(e) => if bounded(e.dst) {
            Some(
                TextureRect {
                    x: e.dst.x as i32,
                    y: e.dst.y as i32,
                    width: e.dst.width as i32,
                    height: e.dst.height as i32,
                },
            )
        } else {
            None
        },
        ItemView::Group { .. } => None,
    }
}

/// Whether something drawn may reach a pixel.
pub open spec fn may_reach(i: ItemView, x: int, y: int) -> bool {
    match i {
        ItemView::Element(e) => e.dst.x <= x < e.dst.x + e.dst.width && e.dst.y <= y < e.dst.y + e.dst.height,
        ItemView::Group { .. } => true,
    }
}

/// Whether a pixel lies in a rectangle.
pub open spec fn inside(r: TextureRect, x: int, y: int) -> bool {
    r.x <= x < r.x + r.width && r.y <= y < r.y + r.height
}

/// Whether a pixel lies in one of some rectangles.
pub open spec fn within(rects: Seq<TextureRect>, x: int, y: int) -> bool {
    exists|i: int| 0 <= i < rects.len() && inside(#[trigger] rects[i], x, y)
}

/// Whether two quads are filled alike: with the same part of the same contents
/// turned the same way, or with the same colour.
pub open spec fn same_filling(a: ContentView, b: ContentView) -> bool {
    match (a, b) {
        (
            ContentView::Texture { image: ia, src: sa, transform: ta },
            ContentView::Texture { image: ib, src: sb, transform: tb },
        ) => ia.id == ib.id && ia.serial == ib.serial && ta == tb && sa == sb,
        (ContentView::Color(a), ContentView::Color(b)) => a == b,
        _ => false,
    }
}

/// Whether two things would draw identically. Of groups that is never known.
pub open spec fn same_drawing(a: ItemView, b: ItemView) -> bool {
    match (a, b) {
        (ItemView::Element(a), ItemView::Element(b)) => a.opaque == b.opaque && a.dst == b.dst && same_filling(
            a.content,
            b.content,
        ),
        _ => false,
    }
}

/// The thing at a place of a list, if there is one.
pub open spec fn item_at(items: Seq<ItemView>, i: int) -> Option<ItemView> {
    if 0 <= i < items.len() {
        Some(items[i])
    } else {
        None
    }
}

/// The rectangles to draw again for one place in two lists: none if both hold
/// what draws identically, and otherwise what each is known to stay within, once.
/// Where that is not known of one of them it is everything.
pub open spec fn redrawn(all: TextureRect, before: Option<ItemView>, after: Option<ItemView>) -> Seq<TextureRect> {
    match (before, after) {
        (Some(b), Some(a)) => if same_drawing(b, a) {
            Seq::empty()
        } else {
            match (item_rect(b), item_rect(a)) {
                (Some(rb), Some(ra)) => if rb == ra {
                    seq![rb]
                } else {
                    seq![rb, ra]
                },
                _ => seq![all],
            }
        },
        (Some(b), None) => seq![rect_or(item_rect(b), all)],
        (None, Some(a)) => seq![rect_or(item_rect(a), all)],
        (None, None) => Seq::empty(),
    }
}

/// A rectangle, or another where there is none.
pub open spec fn rect_or(r: Option<TextureRect>, all: TextureRect) -> TextureRect {
    match r {
        Some(r) => r,
        None => all,
    }
}

/// The rectangles to draw again for the first few places in two lists.
pub open spec fn redrawn_first(
    all: TextureRect,
    previous: Seq<ItemView>,
    current: Seq<ItemView>,
    n: nat,
) -> Seq<TextureRect>
    decreases n,
{
    if n == 0 {
        Seq::empty()
    } else {
        redrawn_first(all, previous, current, (n - 1) as nat) + redrawn(
            all,
            item_at(previous, n - 1),
            item_at(current, n - 1),
        )
    }
}

/// The longer of two lengths.
pub open spec fn longest(a: nat, b: nat) -> nat {
    if a < b {
        b
    } else {
        a
    }
}

/// Whether two scenes lie on the same ground: an output of one size and scale,
/// cleared to one colour.
pub open spec fn same_ground(a: SceneView, b: SceneView) -> bool {
    a.background == b.background && a.scale == b.scale && a.size == b.size
}

/// The rectangles to draw again to get from one scene to another.
pub open spec fn damaged(previous: SceneView, current: SceneView) -> Seq<TextureRect> {
    if same_ground(previous, current) {
        redrawn_first(
            all_of(current),
            previous.items,
            current.items,
            longest(previous.items.len(), current.items.len()),
        )
    } else {
        seq![all_of(current)]
    }
}

fn bounding_rect(q: Quad) -> (r: Option<TextureRect>)
    ensures
        r is Some <==> bounded(q),
        r is Some ==> r == Some(
            (TextureRect { x: q.x as i32, y: q.y as i32, width: q.width as i32, height: q.height as i32 }),
        ),
{
    let (low, high): (i64, i64) = (i32::MIN as i64, i32::MAX as i64);
    if q.x < low || q.x > high || q.y < low || q.y > high {
        return None;
    }
    if q.width < low || q.width > high || q.height < low || q.height > high {
        return None;
    }
    Some(TextureRect { x: q.x as i32, y: q.y as i32, width: q.width as i32, height: q.height as i32 })
}

fn rect_of(i: &SceneItem) -> (r: Option<TextureRect>)
    ensures
        r == item_rect(i@),
{
    match i {
        SceneItem::Element(e) => bounding_rect(e.dst),
        SceneItem::Group { .. } => None,
    }
}

fn rect_else(r: Option<TextureRect>, all: TextureRect) -> (q: TextureRect)
    ensures
        q == rect_or(r, all),
{
    match r {
        Some(r) => r,
        None => all,
    }
}

fn same_content(a: &SceneContent, b: &SceneContent) -> (r: bool)
    ensures
        r == same_filling(a@, b@),
{
    match (a, b) {
        (
            SceneContent::Texture { image: ia, src: sa, transform: ta },
            SceneContent::Texture { image: ib, src: sb, transform: tb },
        ) => ia.id == ib.id && ia.serial == ib.serial && *ta == *tb && *sa == *sb,
        (SceneContent::Color(a), SceneContent::Color(b)) => *a == *b,
        _ => false,
    }
}

/// Whether two things would draw identically.
fn same_element(a: &SceneItem, b: &SceneItem) -> (r: bool)
    ensures
        r == same_drawing(a@, b@),
{
    match (a, b) {
        (SceneItem::Element(a), SceneItem::Element(b)) => a.opaque == b.opaque && a.dst == b.dst && same_content(
            &a.content,
            &b.content,
        ),
        _ => false,
    }
}

fn get(items: &Vec<SceneItem>, i: usize) -> (r: Option<&SceneItem>)
    ensures
        match r {
            Some(x) => item_at(items_view(items@), i as int) == Some(x@),
            None => item_at(items_view(items@), i as int) is None,
        },
{
    if i < items.len() {
        Some(&items[i])
    } else {
        None
    }
}

fn push_redrawn(
    rects: &mut Vec<TextureRect>,
    all: TextureRect,
    before: Option<&SceneItem>,
    after: Option<&SceneItem>,
)
    ensures
        final(rects)@ == old(rects)@ + redrawn(
            all,
            match before {
                Some(b) => Some(b@),
                None => None,
            },
            match after {
                Some(a) => Some(a@),
                None => None,
            },
        ),
{
    match (before, after) {
        (Some(b), Some(a)) => {
            if !same_element(b, a) {
                match (rect_of(b), rect_of(a)) {
                    (Some(rb), Some(ra)) => {
                        rects.push(rb);
                        if rb != ra {
                            rects.push(ra);
                        }
                    },
                    _ => {
                        rects.push(all);
                    },
                }
            }
        },
        (Some(b), None) => {
            rects.push(rect_else(rect_of(b), all));
        },
        (None, Some(a)) => {
            rects.push(rect_else(rect_of(a), all));
        },
        (None, None) => {},
    }
    proof {
        assert(rects@ =~= old(rects)@ + redrawn(
            all,
            match before {
                Some(b) => Some(b@),
                None => None,
            },
            match after {
                Some(a) => Some(a@),
                None => None,
            },
        ));
    }
}

/// The regions that differ between two scenes for one output, in logical
/// pixels, for a backend that can repaint less than the whole output.
///
/// Conservative by construction: it never reports less than changed, though it
/// may report more. Elements are matched by position in the back-to-front list,
/// which has no stable identity across frames - so a reorder or an insert
/// damages everything from that point back, which is safe (a wasted repaint),
/// never wrong (a stale pixel). A window that is drawn through a transform may
/// reach anywhere, so it damages the whole output, and so does a change of what
/// the output is cleared to, of its scale or of its size.
pub fn output_damage(previous: &Scene, current: &Scene) -> (r: Vec<TextureRect>)
    ensures
        r@ == damaged(previous@, current@),
{
    let mut rects: Vec<TextureRect> = Vec::new();
    let all = TextureRect { x: 0, y: 0, width: current.size.0, height: current.size.1 };
    if previous.background != current.background || previous.scale.0 != current.scale.0 || previous.size.0
        != current.size.0 || previous.size.1 != current.size.1 {
        rects.push(all);
        proof {
            assert(rects@ =~= seq![all]);
        }
        return rects;
    }
    let count: usize = if previous.items.len() < current.items.len() {
        current.items.len()
    } else {
        previous.items.len()
    };
    let mut i: usize = 0;
    while i < count
        invariant
            i <= count,
            all == all_of(current@),
            rects@ == redrawn_first(all, previous@.items, current@.items, i as nat),
        decreases count - i,
    {
        push_redrawn(&mut rects, all, get(&previous.items, i), get(&current.items, i));
        i += 1;
    }
    rects
}

/// Whether the things at a place of two lists draw identically.
pub open spec fn unchanged_at(previous: Seq<ItemView>, current: Seq<ItemView>, i: int) -> bool {
    i < previous.len() && i < current.len() && same_drawing(previous[i], current[i])
}

/// Damage never reports less than changed: a pixel of the output that something
/// may reach, in either scene, which does not draw identically in the other lies
/// in the damage, whether it is a plain element or drawn through a transform. With
/// another ground under the scenes every pixel does.
pub proof fn lemma_damage_covers(previous: SceneView, current: SceneView, i: int, x: int, y: int)
    requires
        0 <= x < current.size.0,
        0 <= y < current.size.1,
        !same_ground(previous, current) || {
            &&& 0 <= i
            &&& !unchanged_at(previous.items, current.items, i)
            &&& (i < previous.items.len() && may_reach(previous.items[i], x, y)) || (i < current.items.len()
                && may_reach(current.items[i], x, y))
        },
    ensures
        within(damaged(previous, current), x, y),
{
    if same_ground(previous, current) {
        lemma_redrawn_covers(
            all_of(current),
            previous.items,
            current.items,
            longest(previous.items.len(), current.items.len()),
            i,
            x,
            y,
        );
    } else {
        assert(inside(damaged(previous, current)[0], x, y));
    }
}

proof fn lemma_slot_covers(all: TextureRect, before: Option<ItemView>, after: Option<ItemView>, x: int, y: int)
    requires
        inside(all, x, y),
        !(before is Some && after is Some && same_drawing(before->0, after->0)),
        (before is Some && may_reach(before->0, x, y)) || (after is Some && may_reach(after->0, x, y)),
    ensures
        within(redrawn(all, before, after), x, y),
{
    let here = redrawn(all, before, after);
    assert(here.len() > 0);
    assert(inside(here[0], x, y) || (here.len() > 1 && inside(here[1], x, y)));
}

proof fn lemma_redrawn_covers(
    all: TextureRect,
    previous: Seq<ItemView>,
    current: Seq<ItemView>,
    n: nat,
    i: int,
    x: int,
    y: int,
)
    requires
        0 <= i < n,
        inside(all, x, y),
        !unchanged_at(previous, current, i),
        (i < previous.len() && may_reach(previous[i], x, y)) || (i < current.len() && may_reach(current[i], x, y)),
    ensures
        within(redrawn_first(all, previous, current, n), x, y),
    decreases n,
{
    let earlier = redrawn_first(all, previous, current, (n - 1) as nat);
    let here = redrawn(all, item_at(previous, n - 1), item_at(current, n - 1));
    if i < n - 1 {
        lemma_redrawn_covers(all, previous, current, (n - 1) as nat, i, x, y);
        let k = choose|k: int| 0 <= k < earlier.len() && inside(#[trigger] earlier[k], x, y);
        assert(inside((earlier + here)[k], x, y));
    } else {
        lemma_slot_covers(all, item_at(previous, i), item_at(current, i), x, y);
        let k = choose|k: int| 0 <= k < here.len() && inside(#[trigger] here[k], x, y);
        assert(inside((earlier + here)[earlier.len() + k], x, y));
    }
}

/// Where two scenes hold at a place what draws identically, the place adds no
/// damage.
pub proof fn lemma_unchanged_adds_nothing(all: TextureRect, previous: Seq<ItemView>, current: Seq<ItemView>, i: nat)
    requires
        unchanged_at(previous, current, i as int),
    ensures
        redrawn_first(all, previous, current, i + 1) == redrawn_first(all, previous, current, i),
{
    assert(redrawn(all, item_at(previous, i as int), item_at(current, i as int)) =~= Seq::<TextureRect>::empty());
    assert(redrawn_first(all, previous, current, i + 1) =~= redrawn_first(all, previous, current, i));
}

/// A scene that draws what the one before it did has no damage.
pub proof fn lemma_no_damage(previous: SceneView, current: SceneView)
    requires
        same_ground(previous, current),
        previous.items.len() == current.items.len(),
        forall|i: int| 0 <= i < previous.items.len() ==> same_drawing(#[trigger] previous.items[i], current.items[i]),
    ensures
        damaged(previous, current).len() == 0,
{
    lemma_none_redrawn(all_of(current), previous.items, current.items, previous.items.len());
}

proof fn lemma_none_redrawn(all: TextureRect, previous: Seq<ItemView>, current: Seq<ItemView>, n: nat)
    requires
        n <= previous.len(),
        previous.len() == current.len(),
        forall|i: int| 0 <= i < previous.len() ==> same_drawing(#[trigger] previous[i], current[i]),
    ensures
        redrawn_first(all, previous, current, n).len() == 0,
    decreases n,
{
    if n > 0 {
        lemma_none_redrawn(all, previous, current, (n - 1) as nat);
        assert(same_drawing(previous[n - 1], current[n - 1]));
    }
}

} // verus!
