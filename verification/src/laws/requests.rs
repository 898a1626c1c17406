//! Requests: what clients ask of surfaces, buffers, subsurfaces and popups.
use crate::laws::composing::fit;
use crate::protocol::messages::{MessageView, Notice};
use crate::protocol::wire_utils::{as_signed, as_word, ClientMessage, le32, word_at, word_bytes};
use crate::protocol::wl_shm_pool::geometry_fault;
use crate::protocol::xdg_surface::PopupRequest;
use crate::state::commit::viewport_applied;
use crate::state::compositor_state::StateView;
use crate::state::surfaces::moved;
use crate::state::types::{
    BufferTransform, ClientObjectId, PendingRegionView, SurfacePendingView, SurfaceView,
    ViewportState,
};
use vstd::prelude::*;

verus! {

/// A number brought to within a surface's reach of its parent.
pub open spec fn in_reach(n: int) -> int {
    if n > 1048576 {
        1048576
    } else if n < -1048576 {
        -1048576
    } else {
        n
    }
}

/// Whether one surface is another with nothing changed but what is pending.
pub open spec fn only_pending(before: SurfaceView, after: SurfaceView) -> bool {
    after == (SurfaceView { pending: after.pending, ..before })
}

/// What is asked of a surface waits: nothing that is seen changes, on that surface
/// or on any other, until it is committed.
pub proof fn lemma_requests_wait_for_the_commit(s: StateView, msg: ClientMessage, key: ClientObjectId)
    requires
        msg.op_code != 0,
        msg.op_code != 6,
        s.surf.surfaces.has(key),
    ensures
        ({
            let t = s.surface_request(msg);
            &&& t.surf.surfaces.has(key)
            &&& only_pending(s.surf.surfaces.at(key), t.surf.surfaces.at(key))
            &&& key != (msg.client_id, msg.object_id) ==> t.surf.surfaces.at(key) == s.surf.surfaces.at(key)
            &&& t.mem == s.mem
            &&& t.dirty == s.dirty
        }),
{
}

/// What each request on a surface leaves pending: a buffer, damage, a callback, a
/// region, a turn, a scale or an offset, and nothing else.
pub proof fn lemma_what_is_asked_is_pending(s: StateView, msg: ClientMessage)
    requires
        s.surf.surfaces.has((msg.client_id, msg.object_id)),
        s.clients.has(msg.client_id),
    ensures
        ({
            let key = (msg.client_id, msg.object_id);
            let a = s.surf.surfaces.at(key).pending;
            let b = s.surface_request(msg).surf.surfaces.at(key).pending;
            let (n0, n1, n2, n3) = (msg.number(0), msg.number(1), msg.number(2), msg.number(3));
            let moved = |x: int, y: int, o: (i32, i32)|
                o.0 == in_reach(fit(a.offset.0 + x) as int) && o.1 == in_reach(fit(a.offset.1 + y) as int);
            &&& msg.op_code == 1 && n2 is Some ==> {
                &&& b == (SurfacePendingView {
                    buffer_attached: true,
                    buffer_id: if msg.word(0) == Some(0u32) { None } else { msg.word(0) },
                    offset: b.offset,
                    ..a
                })
                &&& moved(n1->0 as int, n2->0 as int, b.offset)
            }
            &&& msg.op_code == 2 && n3 is Some ==> {
                &&& b == (SurfacePendingView { damage_surface: b.damage_surface, ..a })
                &&& b.damage_surface.len() == a.damage_surface.len() + 1
                &&& b.damage_surface.drop_last() == a.damage_surface
                &&& b.damage_surface.last().x == n0->0 && b.damage_surface.last().y == n1->0
                &&& b.damage_surface.last().width == n2->0 && b.damage_surface.last().height == n3->0
            }
            &&& msg.op_code == 9 && n3 is Some ==> {
                &&& b == (SurfacePendingView { damage_buffer: b.damage_buffer, ..a })
                &&& b.damage_buffer.len() == a.damage_buffer.len() + 1
                &&& b.damage_buffer.drop_last() == a.damage_buffer
                &&& b.damage_buffer.last().x == n0->0 && b.damage_buffer.last().y == n1->0
                &&& b.damage_buffer.last().width == n2->0 && b.damage_buffer.last().height == n3->0
            }
            &&& msg.op_code == 3 && msg.word(0) is Some && s.may_register(msg.client_id, msg.word(0)->0) ==> b == (
            SurfacePendingView { frame_callbacks: a.frame_callbacks.push(msg.word(0)->0), ..a })
            &&& msg.op_code == 4 && msg.word(0) == Some(0u32) ==> b == (SurfacePendingView {
                opaque_region: PendingRegionView::Infinite,
                ..a
            })
            &&& msg.op_code == 5 && msg.word(0) == Some(0u32) ==> b == (SurfacePendingView {
                input_region: PendingRegionView::Infinite,
                ..a
            })
            &&& msg.op_code == 4 && msg.word(0) is Some && msg.word(0) != Some(0u32) && s.surf.regions.has(
                (msg.client_id, msg.word(0)->0),
            ) ==> b == (SurfacePendingView {
                opaque_region: PendingRegionView::Rects(s.surf.regions.at((msg.client_id, msg.word(0)->0)).rects),
                ..a
            })
            &&& msg.op_code == 5 && msg.word(0) is Some && msg.word(0) != Some(0u32) && s.surf.regions.has(
                (msg.client_id, msg.word(0)->0),
            ) ==> b == (SurfacePendingView {
                input_region: PendingRegionView::Rects(s.surf.regions.at((msg.client_id, msg.word(0)->0)).rects),
                ..a
            })
            &&& msg.op_code == 8 && n0 is Some && n0->0 >= 1 ==> b == (SurfacePendingView { buffer_scale: n0, ..a })
            &&& msg.op_code == 8 && n0 is Some && n0->0 < 1 ==> b == a
            &&& msg.op_code == 7 && n0 is Some ==> b == (SurfacePendingView {
                buffer_transform: if n0->0 == 0 {
                    Some(BufferTransform::Normal)
                } else if n0->0 == 1 {
                    Some(BufferTransform::Rotate90)
                } else if n0->0 == 2 {
                    Some(BufferTransform::Rotate180)
                } else if n0->0 == 3 {
                    Some(BufferTransform::Rotate270)
                } else if n0->0 == 4 {
                    Some(BufferTransform::Flipped)
                } else if n0->0 == 5 {
                    Some(BufferTransform::FlippedRotate90)
                } else if n0->0 == 6 {
                    Some(BufferTransform::FlippedRotate180)
                } else if n0->0 == 7 {
                    Some(BufferTransform::FlippedRotate270)
                } else {
                    a.buffer_transform
                },
                ..a
            })
            &&& msg.op_code == 10 && n1 is Some ==> {
                &&& b == (SurfacePendingView { offset: b.offset, ..a })
                &&& moved(n0->0 as int, n1->0 as int, b.offset)
            }
        }),
{
    let key = (msg.client_id, msg.object_id);
    let a = s.surf.surfaces.at(key).pending;
    let b = s.surface_request(msg).surf.surfaces.at(key).pending;
    if msg.op_code == 2 && msg.number(3) is Some {
        assert(b.damage_surface.drop_last() =~= a.damage_surface);
    }
    if msg.op_code == 9 && msg.number(3) is Some {
        assert(b.damage_buffer.drop_last() =~= a.damage_buffer);
    }
}

/// A commit gives a surface what was pending on it and leaves the rest of it as it
/// was. Callbacks and feedbacks that still waited go on waiting, before the new.
pub proof fn lemma_commit_applies_what_was_pending(before: SurfaceView, p: SurfacePendingView)
    ensures
        ({
            let after = before.committed(p);
            &&& p.buffer_attached ==> after.buffer_id == p.buffer_id
            &&& !p.buffer_attached ==> after.buffer_id == before.buffer_id
            &&& p.buffer_scale is Some ==> Some(after.buffer_scale) == p.buffer_scale
            &&& p.buffer_scale is None ==> after.buffer_scale == before.buffer_scale
            &&& p.buffer_transform is Some ==> Some(after.buffer_transform) == p.buffer_transform
            &&& p.buffer_transform is None ==> after.buffer_transform == before.buffer_transform
            &&& after.frame_callbacks == before.frame_callbacks + p.frame_callbacks
            &&& after.presentation_feedbacks == before.presentation_feedbacks + p.presentation_feedbacks
            &&& after.offset.0 == in_reach(fit(before.offset.0 + p.offset.0) as int)
            &&& after.offset.1 == in_reach(fit(before.offset.1 + p.offset.1) as int)
            &&& p.input_region is Unchanged ==> after.input_region == before.input_region
            &&& p.input_region is Infinite ==> after.input_region is None
            &&& p.input_region is Rects ==> after.input_region == Some(p.input_region->Rects_0)
            &&& p.opaque_region is Unchanged ==> after.opaque_region == before.opaque_region
            &&& p.opaque_region is Infinite ==> after.opaque_region is None
            &&& p.opaque_region is Rects ==> after.opaque_region == Some(p.opaque_region->Rects_0)
            &&& after == (SurfaceView {
                buffer_id: after.buffer_id,
                buffer_scale: after.buffer_scale,
                buffer_transform: after.buffer_transform,
                frame_callbacks: after.frame_callbacks,
                presentation_feedbacks: after.presentation_feedbacks,
                offset: after.offset,
                input_region: after.input_region,
                opaque_region: after.opaque_region,
                ..before
            })
        }),
{
}

/// A viewport's crop and size that wait for a commit are in effect after it, and
/// wait no longer. What does not wait stays.
pub proof fn lemma_viewport_is_committed(v: ViewportState)
    ensures
        ({
            let w = viewport_applied(v);
            &&& w.pending_source is None
            &&& w.pending_destination is None
            &&& v.pending_source is Some ==> w.source == v.pending_source
            &&& v.pending_source is None ==> w.source == v.source
            &&& v.pending_destination is Some ==> w.destination == v.pending_destination
            &&& v.pending_destination is None ==> w.destination == v.destination
        }),
{
}

/// A buffer is to be released when a commit puts another in its place, or none,
/// and not when the surface keeps it.
pub proof fn lemma_replaced_buffer_is_released(s: StateView, key: ClientObjectId, p: SurfacePendingView)
    requires
        s.surf.surfaces.has(key),
    ensures
        ({
            let old = s.surf.surfaces.at(key).buffer_id;
            let t = s.commit_surface(key, p);
            let (before, after) = (s.mem.buffers_pending_release, t.mem.buffers_pending_release);
            &&& t.dirty
            &&& t.surf.surfaces.at(key) == s.surf.surfaces.at(key).committed(p)
            &&& old is Some && t.surf.surfaces.at(key).buffer_id != old ==> after == before.push((key.0, old->0))
            &&& old is None || t.surf.surfaces.at(key).buffer_id == old ==> after == before
        }),
{
}

/// A commit leaves nothing pending.
pub proof fn lemma_commit_takes_what_is_pending(s: StateView, key: ClientObjectId)
    requires
        s.surf.surfaces.has(key),
    ensures
        ({
            let p = s.take_pending(key).surf.surfaces.at(key).pending;
            &&& !p.buffer_attached
            &&& p.buffer_id is None
            &&& p.frame_callbacks.len() == 0
            &&& p.presentation_feedbacks.len() == 0
            &&& p.damage_surface.len() == 0
            &&& p.damage_buffer.len() == 0
            &&& p.buffer_scale is None
            &&& p.buffer_transform is None
            &&& p.offset == (0i32, 0i32)
            &&& p.input_region is Unchanged
            &&& p.opaque_region is Unchanged
        }),
{
}

/// Whether every row of a buffer is in its pool, and no row reaches into the next.
pub open spec fn lies_in(pool_size: u32, offset: i32, width: i32, height: i32, stride: i32) -> bool {
    &&& width > 0
    &&& height > 0
    &&& offset >= 0
    &&& stride >= 4 * width
    &&& forall|row: int| 0 <= row < height ==> #[trigger] row_end(offset, width, stride, row) <= pool_size
}

/// Where a row of a buffer ends.
pub open spec fn row_end(offset: i32, width: i32, stride: i32, row: int) -> int {
    offset + row * stride + 4 * width
}

/// A buffer is accepted if it is of a format that was advertised and lies in its
/// pool, and only then. It is told which of the two it is not.
pub proof fn lemma_accepted_buffer_lies_in_its_pool(
    pool_size: u32,
    offset: i32,
    width: i32,
    height: i32,
    stride: i32,
    format: u32,
)
    ensures
        ({
            let fault = geometry_fault(pool_size, offset, width, height, stride, format);
            &&& fault is None <==> (format == 0 || format == 1) && lies_in(pool_size, offset, width, height, stride)
            &&& fault is Some ==> ((fault->0).0 == 0 <==> format != 0 && format != 1)
            &&& fault is Some ==> (fault->0).0 <= 1
        }),
{
    if width > 0 && height > 0 && offset >= 0 && stride >= 4 * width {
        let last = row_end(offset, width, stride, height - 1);
        assert forall|row: int| 0 <= row < height implies #[trigger] row_end(offset, width, stride, row) <= last by {
            assert(row * stride <= (height - 1) * stride) by (nonlinear_arith)
                requires
                    0 <= row <= height - 1,
                    stride >= 0,
            ;
        }
        assert(last <= pool_size || !lies_in(pool_size, offset, width, height, stride));
    }
}

/// A surface made a subsurface is on top of its parent's other children, moves
/// and waits with it, and is what its object stands for.
pub proof fn lemma_new_subsurface_is_on_top(s: StateView, msg: ClientMessage, sub: u32, id: u32, parent: u32)
    requires
        msg.op_code == 1,
        s.clients.has(msg.client_id),
        msg.word(0) == Some(sub),
        msg.word(1) == Some(id),
        msg.word(2) == Some(parent),
        id != parent,
        s.surf.surfaces.has((msg.client_id, id)),
        s.surf.surfaces.has((msg.client_id, parent)),
        !s.has_role((msg.client_id, id)),
        !s.ancestor(msg.client_id, id, parent),
        s.may_register(msg.client_id, sub),
    ensures
        ({
            let t = s.subcompositor_request(msg);
            let (child, above) = ((msg.client_id, id), (msg.client_id, parent));
            &&& t.surf.surfaces.at(child) == (SurfaceView {
                parent: Some(parent),
                is_subsurface: true,
                subsurface_sync: true,
                ..s.surf.surfaces.at(child)
            })
            &&& t.surf.surfaces.at(above) == (SurfaceView {
                children: s.surf.surfaces.at(above).children.push(id),
                ..s.surf.surfaces.at(above)
            })
            &&& t.surf.subsurface_map.has((msg.client_id, sub))
            &&& t.surf.subsurface_map.at((msg.client_id, sub)) == id
            &&& forall|k: ClientObjectId|
                k != child && k != above ==> #[trigger] t.surf.surfaces.at(k) == s.surf.surfaces.at(k)
        }),
{
}

/// A subsurface is put where it is asked to be on its parent, as far as it may
/// reach.
pub proof fn lemma_subsurface_is_put_where_asked(s: StateView, msg: ClientMessage, x: i32, y: i32)
    requires
        msg.op_code == 1,
        msg.number(0) == Some(x),
        msg.number(1) == Some(y),
        s.surf.subsurface_map.has((msg.client_id, msg.object_id)),
        s.surf.surfaces.has((msg.client_id, s.surf.subsurface_map.at((msg.client_id, msg.object_id)))),
    ensures
        ({
            let key = (msg.client_id, s.surf.subsurface_map.at((msg.client_id, msg.object_id)));
            let t = s.subsurface_request(msg);
            &&& t.surf.surfaces.at(key) == (SurfaceView {
                subsurface_position: t.surf.surfaces.at(key).subsurface_position,
                ..s.surf.surfaces.at(key)
            })
            &&& t.surf.surfaces.at(key).subsurface_position.0 == in_reach(x as int)
            &&& t.surf.surfaces.at(key).subsurface_position.1 == in_reach(y as int)
            &&& t.dirty
        }),
{
}

/// A popup with a parent is put on top of the parent's other children, where it
/// goes, and its client is told where that is, to be acknowledged. One with no
/// parent yet is told nothing.
pub proof fn lemma_popup_is_on_its_parent(s: StateView, q: PopupRequest, at: (i32, i32, i32, i32))
    requires
        s.clients.has(q.client_id),
        s.may_register(q.client_id, q.popup_id),
    ensures
        ({
            let c = q.client_id;
            let t = s.finish_popup(q, at);
            &&& t.win.xdg_popups.has((c, q.popup_id))
            &&& t.win.xdg_popups.at((c, q.popup_id)).x == at.0
            &&& t.win.xdg_popups.at((c, q.popup_id)).y == at.1
            &&& t.win.xdg_popups.at((c, q.popup_id)).width == at.2
            &&& t.win.xdg_popups.at((c, q.popup_id)).height == at.3
            &&& t.win.xdg_popups.at((c, q.popup_id)).xdg_surface_id == q.xdg_surface_id
            &&& q.parented is None ==> t.surf == s.surf && t.clients.at(c).outbox == s.clients.at(c).outbox
            &&& q.parented is Some && (q.parented->0).0 != (q.parented->0).1 ==> {
                let (popup, parent) = ((c, (q.parented->0).0), (c, (q.parented->0).1));
                let before = s.clients.at(c).outbox;
                let after = t.clients.at(c).outbox;
                &&& s.surf.surfaces.has(popup) ==> {
                    &&& t.surf.surfaces.at(popup).parent == Some(parent.1)
                    &&& t.surf.surfaces.at(popup).subsurface_position.0 == in_reach(at.0 as int)
                    &&& t.surf.surfaces.at(popup).subsurface_position.1 == in_reach(at.1 as int)
                }
                &&& s.surf.surfaces.has(parent) ==> t.surf.surfaces.at(parent).children == s.surf.surfaces.at(
                    parent,
                ).children.push(popup.1)
                &&& after.len() == before.len() + 2
                &&& after[before.len() as int] == MessageView::Notice(
                    Notice::PopupConfigure { popup: q.popup_id, x: at.0, y: at.1, width: at.2, height: at.3 },
                )
                &&& match after[before.len() as int + 1] {
                    MessageView::Event(e) => e.object_id == q.xdg_surface_id && e.op_code == 0,
                    _ => false,
                }
            }
        }),
{
}

/// A word that is written and read again is the word it was, and so is a signed
/// number.
pub proof fn lemma_words_read_as_written(before: Seq<u8>, n: u32, after: Seq<u8>, m: i32)
    ensures
        word_at(before + word_bytes(n) + after, before.len() as int) == Some(n),
        as_signed(as_word(m)) == m,
{
    let b = before + word_bytes(n) + after;
    let at = before.len() as int;
    assert(b[at] == word_bytes(n)[0] && b[at + 1] == word_bytes(n)[1]);
    assert(b[at + 2] == word_bytes(n)[2] && b[at + 3] == word_bytes(n)[3]);
    let k = n as int;
    assert(k % 256 + 256 * (k / 256 % 256) + 65536 * (k / 65536 % 256) + 16777216 * (k / 16777216 % 256) == k) by (
    nonlinear_arith)
        requires
            0 <= k < 0x1_0000_0000,
    ;
    assert(le32(b, at) == n);
}

/// Words are little-endian: the first byte counts ones, the second two hundred
/// and fifty-sixes.
pub proof fn lemma_words_are_little_endian(n: u32)
    requires
        n < 65536,
    ensures
        word_bytes(n).len() == 4,
        word_bytes(n)[0] as int + 256 * (word_bytes(n)[1] as int) == n,
        word_bytes(n)[2] == 0,
        word_bytes(n)[3] == 0,
{
}

} // verus!
