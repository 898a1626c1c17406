//! Damage covers what a client changed.
use crate::scene::damage::{inside, within};
use crate::state::commit::{
    clip_all, clipped, mapped_at, mapped_axis, mapped_rect, mapped_rects, placeable,
};
use crate::state::compositor_state::StateView;
use crate::state::types::{BufferMapping, ClientObjectId, TextureRect, to_i32};
use vstd::prelude::*;

verus! {

/// Whether a surface shows something of a pixel of its buffer at a place, on one
/// axis: the stretch of the buffer that the place shows, in 256ths of a pixel
/// times the length shown, meets the pixel.
pub open spec fn shows_axis(start: int, length: int, shown: int, at: int, pixel: int) -> bool {
    &&& 0 <= at < shown
    &&& mapped_at(start, length, shown, at) < 256 * shown * (pixel + 1)
    &&& 256 * shown * pixel < mapped_at(start, length, shown, at + 1)
}

/// Whether an upright surface shows something of a pixel of its buffer at a place.
pub open spec fn shows(m: BufferMapping, at: (int, int), pixel: (int, int)) -> bool {
    &&& shows_axis(m.src.x as int, m.src.width as int, m.dest_width as int, at.0, pixel.0)
    &&& shows_axis(m.src.y as int, m.src.height as int, m.dest_height as int, at.1, pixel.1)
}

proof fn lemma_clip_keeps(r: TextureRect, w: i32, h: i32, x: int, y: int)
    requires
        0 <= x < w,
        0 <= y < h,
        inside(r, x, y),
    ensures
        clipped(r, w, h) is Some,
        inside(clipped(r, w, h)->0, x, y),
{
}

proof fn lemma_clip_all_keeps(rects: Seq<TextureRect>, w: i32, h: i32, n: int, x: int, y: int)
    requires
        0 <= x < w,
        0 <= y < h,
        0 <= n < rects.len(),
        inside(rects[n], x, y),
    ensures
        within(clip_all(rects, w, h), x, y),
    decreases rects.len(),
{
    let before = clip_all(rects.drop_last(), w, h);
    let after = clip_all(rects, w, h);
    if n == rects.len() - 1 {
        lemma_clip_keeps(rects[n], w, h, x, y);
        assert(inside(after[before.len() as int], x, y));
    } else {
        assert(rects.drop_last()[n] == rects[n]);
        lemma_clip_all_keeps(rects.drop_last(), w, h, n, x, y);
        let i = choose|i: int| 0 <= i < before.len() && inside(#[trigger] before[i], x, y);
        assert(inside(after[i], x, y));
    }
}

proof fn lemma_clip_all_bounds(rects: Seq<TextureRect>, w: i32, h: i32, i: int)
    requires
        0 <= i < clip_all(rects, w, h).len(),
    ensures
        ({
            let r = clip_all(rects, w, h)[i];
            &&& r.width > 0 && r.height > 0
            &&& 0 <= r.x && r.x + r.width <= w
            &&& 0 <= r.y && r.y + r.height <= h
        }),
    decreases rects.len(),
{
    if rects.len() > 0 && i < clip_all(rects.drop_last(), w, h).len() {
        lemma_clip_all_bounds(rects.drop_last(), w, h, i);
    }
}

proof fn lemma_floor_below(n: int, d: int, p: int)
    requires
        d > 0,
        n < d * (p + 1),
    ensures
        n / d <= p,
{
    assert(n / d <= p) by (nonlinear_arith)
        requires
            d > 0,
            n < d * (p + 1),
    ;
}

proof fn lemma_axis_covers(start: int, length: int, shown: int, low: int, high: int, at: int, pixel: int)
    requires
        length >= 0,
        low <= at,
        at + 1 <= high,
        shows_axis(start, length, shown, at, pixel),
    ensures
        ({
            let a = mapped_axis(start, length, shown, low, high);
            a.0 <= pixel < a.0 + a.1
        }),
{
    let unit = 256 * shown;
    assert(low * length <= at * length) by (nonlinear_arith)
        requires
            length >= 0,
            low <= at,
    ;
    assert((at + 1) * length <= high * length) by (nonlinear_arith)
        requires
            length >= 0,
            at + 1 <= high,
    ;
    lemma_floor_below(mapped_at(start, length, shown, low), unit, pixel);
    let far = mapped_at(start, length, shown, high);
    assert(-far < unit * (-pixel)) by (nonlinear_arith)
        requires
            unit * pixel < far,
    ;
    assert(unit * ((-pixel - 1) + 1) == unit * (-pixel));
    lemma_floor_below(-far, unit, -pixel - 1);
}

proof fn lemma_mapped_covers(m: BufferMapping, r: TextureRect, at: (int, int), pixel: (int, int))
    requires
        placeable(m, r),
        inside(r, at.0, at.1),
        shows(m, at, pixel),
        0 <= pixel.0 < i32::MAX,
        0 <= pixel.1 < i32::MAX,
    ensures
        inside(mapped_rect(m, r), pixel.0, pixel.1),
{
    lemma_axis_covers(
        m.src.x as int,
        m.src.width as int,
        m.dest_width as int,
        r.x as int,
        to_i32(r.x + r.width) as int,
        at.0,
        pixel.0,
    );
    lemma_axis_covers(
        m.src.y as int,
        m.src.height as int,
        m.dest_height as int,
        r.y as int,
        to_i32(r.y + r.height) as int,
        at.1,
        pixel.1,
    );
}

/// A commit's damage, where it is not all of the buffer, covers every pixel that
/// the client damaged in the buffer.
pub proof fn lemma_buffer_damage_is_covered(
    s: StateView,
    key: ClientObjectId,
    buffer_id: u32,
    on_surface: Seq<TextureRect>,
    in_buffer: Seq<TextureRect>,
    n: int,
    x: int,
    y: int,
)
    requires
        s.mem.buffers.has((key.0, buffer_id)),
        0 <= x < s.mem.buffers.at((key.0, buffer_id)).width,
        0 <= y < s.mem.buffers.at((key.0, buffer_id)).height,
        0 <= n < in_buffer.len(),
        inside(in_buffer[n], x, y),
    ensures
        ({
            let damage = s.committed_damage(key, buffer_id, on_surface, in_buffer);
            damage.len() == 0 || within(damage, x, y)
        }),
{
    let b = s.mem.buffers.at((key.0, buffer_id));
    let clip = clip_all(in_buffer, b.width, b.height);
    lemma_clip_all_keeps(in_buffer, b.width, b.height, n, x, y);
    let i = choose|i: int| 0 <= i < clip.len() && inside(#[trigger] clip[i], x, y);
    let damage = s.committed_damage(key, buffer_id, on_surface, in_buffer);
    if damage.len() > 0 {
        assert(damage[i] == clip[i]);
    }
}

/// A commit's damage, where it is not all of the buffer, covers every pixel of
/// the buffer of which the surface shows something where the client damaged the
/// surface. A surface whose buffer is turned or flipped has all of it damaged.
pub proof fn lemma_surface_damage_is_covered(
    s: StateView,
    key: ClientObjectId,
    buffer_id: u32,
    on_surface: Seq<TextureRect>,
    in_buffer: Seq<TextureRect>,
    n: int,
    at: (int, int),
    pixel: (int, int),
)
    requires
        s.mem.buffers.has((key.0, buffer_id)),
        0 <= pixel.0 < s.mem.buffers.at((key.0, buffer_id)).width,
        0 <= pixel.1 < s.mem.buffers.at((key.0, buffer_id)).height,
        0 <= n < on_surface.len(),
        inside(on_surface[n], at.0, at.1),
    ensures
        ({
            let damage = s.committed_damage(key, buffer_id, on_surface, in_buffer);
            &&& !(s.surf.surfaces.at(key).buffer_transform is Normal) ==> damage.len() == 0
            &&& s.buffer_mapping(key) is None ==> damage.len() == 0
            &&& s.buffer_mapping(key) is Some && shows(s.buffer_mapping(key)->0, at, pixel) ==> damage.len() == 0
                || within(damage, pixel.0, pixel.1)
        }),
{
    let b = s.mem.buffers.at((key.0, buffer_id));
    let damage = s.committed_damage(key, buffer_id, on_surface, in_buffer);
    if s.can_place(key, on_surface) && shows(s.buffer_mapping(key)->0, at, pixel) {
        let m = s.buffer_mapping(key)->0;
        let mapped = mapped_rects(m, on_surface);
        assert(placeable(m, on_surface[n]));
        lemma_mapped_covers(m, on_surface[n], at, pixel);
        assert(mapped[n] == mapped_rect(m, on_surface[n]));
        lemma_clip_all_keeps(mapped, b.width, b.height, n, pixel.0, pixel.1);
        let first = clip_all(in_buffer, b.width, b.height);
        let clip = clip_all(mapped, b.width, b.height);
        let i = choose|i: int| 0 <= i < clip.len() && inside(#[trigger] clip[i], pixel.0, pixel.1);
        assert(damage[first.len() + i] == clip[i]);
    }
}

/// Every rectangle of a commit's damage has a size and lies within the buffer.
pub proof fn lemma_damage_lies_in_the_buffer(
    s: StateView,
    key: ClientObjectId,
    buffer_id: u32,
    on_surface: Seq<TextureRect>,
    in_buffer: Seq<TextureRect>,
    i: int,
)
    requires
        0 <= i < s.committed_damage(key, buffer_id, on_surface, in_buffer).len(),
    ensures
        ({
            let r = s.committed_damage(key, buffer_id, on_surface, in_buffer)[i];
            let b = s.mem.buffers.at((key.0, buffer_id));
            &&& s.mem.buffers.has((key.0, buffer_id))
            &&& r.width > 0 && r.height > 0
            &&& 0 <= r.x && r.x + r.width <= b.width
            &&& 0 <= r.y && r.y + r.height <= b.height
        }),
{
    let b = s.mem.buffers.at((key.0, buffer_id));
    let first = clip_all(in_buffer, b.width, b.height);
    if i < first.len() {
        lemma_clip_all_bounds(in_buffer, b.width, b.height, i);
    } else {
        let m = s.buffer_mapping(key)->0;
        lemma_clip_all_bounds(mapped_rects(m, on_surface), b.width, b.height, i - first.len());
    }
}

/// A commit that names no damage, or has no buffer, counts as one that changed
/// everything.
pub proof fn lemma_no_damage_is_everything(
    s: StateView,
    key: ClientObjectId,
    buffer_id: u32,
    on_surface: Seq<TextureRect>,
    in_buffer: Seq<TextureRect>,
)
    requires
        (on_surface.len() == 0 && in_buffer.len() == 0) || !s.mem.buffers.has((key.0, buffer_id)),
    ensures
        s.committed_damage(key, buffer_id, on_surface, in_buffer).len() == 0,
{
}

} // verus!
