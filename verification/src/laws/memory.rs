//! Memory: pools, buffers and when they are given back.
use crate::input::outputs::{changes, overlaps, Seen};
use crate::laws::places::{on_both, shares};
use crate::shell::Shell;
use crate::state::compositor_state::StateView;
use crate::state::memory::more_damage;
use crate::state::types::{
    BufferKindView, BufferView, ClientObjectId, OutputId, OutputView, ShmPool, SurfaceView,
    TextureRect,
};
use vstd::prelude::*;

verus! {

/// Whether a surface of a client has a buffer on it.
pub open spec fn has_on(s: StateView, surface: ClientObjectId, key: ClientObjectId) -> bool {
    &&& s.surf.surfaces.has(surface)
    &&& s.surf.surfaces.at(surface).client_id == key.0
    &&& s.surf.surfaces.at(surface).buffer_id == Some(key.1)
}

/// A buffer is attached while any surface of its client has it on, and is being
/// read while a frame in flight was made from it.
pub proof fn lemma_what_keeps_a_buffer(s: StateView, busy: Seq<ClientObjectId>, key: ClientObjectId)
    ensures
        s.attached(key) <==> exists|k: ClientObjectId| #[trigger] has_on(s, k, key),
        s.being_read(busy, key) <==> busy.contains(key) && (s.mem.buffer_guards.has(key) || (s.mem.buffers.has(key)
            && s.mem.buffers.at(key).kind is Dmabuf)),
{
    let p = |k: ClientObjectId, x: SurfaceView| x.client_id == key.0 && x.buffer_id == Some(key.1);
    if s.attached(key) {
        let k = choose|k: ClientObjectId| s.surf.surfaces.has(k) && #[trigger] p(k, s.surf.surfaces.at(k));
        assert(has_on(s, k, key));
    }
    if exists|k: ClientObjectId| #[trigger] has_on(s, k, key) {
        let k = choose|k: ClientObjectId| #[trigger] has_on(s, k, key);
        assert(p(k, s.surf.surfaces.at(k)));
    }
}

/// A buffer that commits have put another in place of is to be given back once
/// nothing has it on, and not before.
pub proof fn lemma_unwanted_buffer_starts_back(s: StateView, keys: Seq<ClientObjectId>, key: ClientObjectId)
    ensures
        s.releasing_after(keys).contains(key) <==> s.mem.releasing_buffers.contains(key) || (keys.contains(key)
            && !s.attached(key)),
    decreases keys.len(),
{
    if keys.len() > 0 {
        let rest = keys.drop_last();
        lemma_unwanted_buffer_starts_back(s, rest, key);
        let before = s.releasing_after(rest);
        let after = s.releasing_after(keys);
        assert(keys.contains(key) <==> rest.contains(key) || keys.last() == key) by {
            if keys.contains(key) {
                let i = keys.index_of(key);
                if i < rest.len() {
                    assert(rest[i] == key);
                }
            }
            if rest.contains(key) {
                assert(keys[rest.index_of(key)] == key);
            }
            assert(keys[keys.len() - 1] == keys.last());
        }
        if before.contains(key) {
            assert(after[before.index_of(key)] == key);
        }
        if !s.attached(keys.last()) && keys.last() == key && !before.contains(key) {
            assert(after[before.len() as int] == key);
        }
        if after.contains(key) && !before.contains(key) {
            let i = after.index_of(key);
            assert(i == before.len());
        }
    }
}

/// Starting to give buffers back leaves none waiting for that.
pub proof fn lemma_none_waits_to_start_back(s: StateView, key: ClientObjectId)
    ensures
        s.start_buffer_releases().mem.buffers_pending_release.len() == 0,
        s.start_buffer_releases().mem.releasing_buffers.contains(key) <==> s.mem.releasing_buffers.contains(key) || (
        s.mem.buffers_pending_release.contains(key) && !s.attached(key)),
{
    lemma_unwanted_buffer_starts_back(s, s.mem.buffers_pending_release, key);
}

/// A new buffer is as it was asked for, all of it is new, and as much of its pool
/// can be read as is mapped.
pub proof fn lemma_new_buffer_is_as_asked(
    s: StateView,
    client_id: u32,
    buffer_id: u32,
    pool_id: u32,
    offset: i32,
    width: i32,
    height: i32,
    stride: i32,
    format: u32,
)
    requires
        s.mem.next_content_serial < u64::MAX,
    ensures
        ({
            let key = (client_id, buffer_id);
            let pool = (client_id, pool_id);
            let t = s.register_buffer(client_id, buffer_id, pool_id, offset, width, height, stride, format);
            let b = t.mem.buffers.at(key);
            &&& t.mem.buffers.has(key)
            &&& b.client_id == client_id
            &&& b.width == width
            &&& b.height == height
            &&& b.content_serial == s.mem.next_content_serial + 1
            &&& t.mem.next_content_serial == b.content_serial
            &&& match b.kind {
                BufferKindView::Shm(shm) => shm.pool_id == pool_id && shm.offset == offset && shm.stride == stride
                    && shm.format == format && shm.damage is None,
                _ => false,
            }
            &&& s.mem.shm_pools.has(pool) && s.mem.shm_pools.at(pool).mapped ==> t.mem.buffer_guards.has(key)
                && t.mem.buffer_guards.at(key) == s.mem.shm_pools.at(pool).size
            &&& forall|k: ClientObjectId|
                k != key ==> #[trigger] t.mem.buffers.at(k) == s.mem.buffers.at(k) && t.mem.buffers.has(k)
                    == s.mem.buffers.has(k)
        }),
{
}

/// Whether a buffer lies in a pool.
pub open spec fn in_this_pool(s: StateView, key: ClientObjectId, client_id: u32, pool_id: u32) -> bool {
    &&& s.mem.buffers.has(key)
    &&& s.mem.buffers.at(key).client_id == client_id
    &&& match s.mem.buffers.at(key).kind {
        BufferKindView::Shm(shm) => shm.pool_id == pool_id,
        _ => false,
    }
}

proof fn lemma_pool_used(s: StateView, client_id: u32, pool_id: u32)
    ensures
        s.pool_in_use(client_id, pool_id) <==> exists|k: ClientObjectId| #[trigger]
            in_this_pool(s, k, client_id, pool_id),
{
    let p = |k: ClientObjectId, b: BufferView| b.client_id == client_id && b.in_pool(pool_id);
    if s.pool_in_use(client_id, pool_id) {
        let k = choose|k: ClientObjectId| s.mem.buffers.has(k) && #[trigger] p(k, s.mem.buffers.at(k));
        assert(in_this_pool(s, k, client_id, pool_id));
    }
    if exists|k: ClientObjectId| #[trigger] in_this_pool(s, k, client_id, pool_id) {
        let k = choose|k: ClientObjectId| #[trigger] in_this_pool(s, k, client_id, pool_id);
        assert(p(k, s.mem.buffers.at(k)));
    }
}

/// A pool that its client destroys is there until no buffer lies in it, and then
/// its descriptor is closed with it.
pub proof fn lemma_pool_outlives_its_buffers(s: StateView, client_id: u32, pool_id: u32)
    requires
        s.mem.shm_pools.has((client_id, pool_id)),
    ensures
        ({
            let pool = (client_id, pool_id);
            let t = s.destroy_shm_pool(client_id, pool_id);
            let used = exists|k: ClientObjectId| #[trigger] in_this_pool(s, k, client_id, pool_id);
            &&& used ==> {
                &&& t.mem.shm_pools.has(pool)
                &&& t.mem.shm_pools.at(pool) == (ShmPool { dead: true, ..s.mem.shm_pools.at(pool) })
                &&& t.mem.closed_fds == s.mem.closed_fds
            }
            &&& !used ==> {
                &&& !t.mem.shm_pools.has(pool)
                &&& t.mem.closed_fds == s.mem.closed_fds.push(s.mem.shm_pools.at(pool).fd)
            }
            &&& t.mem.buffers == s.mem.buffers
        }),
{
    let dead = s.mark_pool_dead((client_id, pool_id));
    lemma_pool_used(dead, client_id, pool_id);
    assert forall|k: ClientObjectId| #[trigger] in_this_pool(dead, k, client_id, pool_id) == in_this_pool(
        s,
        k,
        client_id,
        pool_id,
    ) by {}
    if exists|k: ClientObjectId| #[trigger] in_this_pool(s, k, client_id, pool_id) {
        let k = choose|k: ClientObjectId| #[trigger] in_this_pool(s, k, client_id, pool_id);
        assert(in_this_pool(dead, k, client_id, pool_id));
    }
    if exists|k: ClientObjectId| #[trigger] in_this_pool(dead, k, client_id, pool_id) {
        let k = choose|k: ClientObjectId| #[trigger] in_this_pool(dead, k, client_id, pool_id);
        assert(in_this_pool(s, k, client_id, pool_id));
    }
}

/// A buffer that is destroyed is gone, and a destroyed pool goes with the last one
/// that lay in it.
pub proof fn lemma_last_buffer_takes_its_pool(s: StateView, client_id: u32, buffer_id: u32, pool_id: u32)
    requires
        in_this_pool(s, (client_id, buffer_id), client_id, pool_id),
        s.mem.shm_pools.has((client_id, pool_id)),
        forall|k: ClientObjectId|
            k != (client_id, buffer_id) ==> !#[trigger] in_this_pool(s, k, client_id, pool_id),
    ensures
        ({
            let t = s.destroy_buffer(client_id, buffer_id);
            let pool = (client_id, pool_id);
            &&& !t.mem.buffers.has((client_id, buffer_id))
            &&& !t.mem.buffer_guards.has((client_id, buffer_id))
            &&& s.mem.shm_pools.at(pool).dead ==> !t.mem.shm_pools.has(pool) && t.mem.closed_fds
                == s.mem.closed_fds.push(s.mem.shm_pools.at(pool).fd)
            &&& !s.mem.shm_pools.at(pool).dead ==> t.mem.shm_pools.has(pool) && t.mem.closed_fds == s.mem.closed_fds
        }),
{
    let left = s.forget_buffer((client_id, buffer_id));
    lemma_pool_used(left, client_id, pool_id);
    assert forall|k: ClientObjectId| !#[trigger] in_this_pool(left, k, client_id, pool_id) by {
        if k != (client_id, buffer_id) {
            assert(!in_this_pool(s, k, client_id, pool_id));
        }
    }
}

/// What changes of a buffer adds up until it has been acted on: to a list, as long
/// as every change says what it was, and to all of it otherwise.
pub proof fn lemma_changes_add_up(before: Option<Seq<TextureRect>>, more: Seq<TextureRect>)
    ensures
        before is Some && more.len() > 0 ==> more_damage(before, more) == Some(before->0 + more),
        before is None || more.len() == 0 ==> more_damage(before, more) is None,
{
}

/// Once the changes have been acted on every buffer in a pool has none.
pub proof fn lemma_acted_on_changes_are_gone(s: StateView, key: ClientObjectId)
    requires
        s.mem.buffers.has(key),
    ensures
        ({
            let b = s.clear_buffer_damage().mem.buffers.at(key);
            let was = s.mem.buffers.at(key);
            &&& b.content_serial == was.content_serial
            &&& b.width == was.width
            &&& b.height == was.height
            &&& match (was.kind, b.kind) {
                (BufferKindView::Shm(x), BufferKindView::Shm(y)) => {
                    &&& y.damage is Some
                    &&& (y.damage->0).len() == 0
                    &&& y.pool_id == x.pool_id && y.offset == x.offset && y.stride == x.stride && y.format == x.format
                },
                (x, y) => x == y,
            }
        }),
{
}

/// What a surface is to be told of outputs: those it has come onto if it has not
/// been told that it is on them, or those it has left if it has, and no others.
pub proof fn lemma_told_of_what_changed(
    surface: ClientObjectId,
    outputs: Seq<OutputView>,
    at: (i32, i32),
    size: (i32, i32),
    told: Seq<OutputId>,
    on: bool,
    id: OutputId,
)
    requires
        size.0 > 0,
        size.1 > 0,
        at.0 + size.0 <= i32::MAX,
        at.1 + size.1 <= i32::MAX,
        forall|i: int| 0 <= i < outputs.len() ==> (#[trigger] outputs[i]).width > 0 && outputs[i].height > 0,
    ensures
        changes(surface, outputs, at, size, told, on).contains(Seen { surface, output: id }) <==> told.contains(id) != on
            && exists|i: int|
            0 <= i < outputs.len() && (#[trigger] outputs[i]).id == id && shares(outputs[i], at, size) == on,
    decreases outputs.len(),
{
    if outputs.len() > 0 {
        let rest = outputs.drop_last();
        let o = outputs.last();
        let last = outputs.len() - 1;
        assert(outputs[last] == o);
        assert forall|i: int| 0 <= i < rest.len() implies (#[trigger] rest[i]).width > 0 && rest[i].height > 0 by {
            assert(rest[i] == outputs[i]);
        }
        lemma_told_of_what_changed(surface, rest, at, size, told, on, id);
        let x = if at.0 > o.geometry.x { at.0 as int } else { o.geometry.x as int };
        let y = if at.1 > o.geometry.y { at.1 as int } else { o.geometry.y as int };
        assert(overlaps(o, at, size) == shares(o, at, size)) by {
            if overlaps(o, at, size) {
                assert(on_both(o, at, size, x, y));
            }
        }
        let it = Seen { surface, output: id };
        let before = changes(surface, rest, at, size, told, on);
        let after = changes(surface, outputs, at, size, told, on);
        if before.contains(it) {
            let i = before.index_of(it);
            assert(after[i] == it);
            let j = choose|j: int| 0 <= j < rest.len() && (#[trigger] rest[j]).id == id && shares(rest[j], at, size) == on;
            assert(outputs[j] == rest[j]);
        }
        if shares(o, at, size) == on && told.contains(o.id) != on && o.id == id {
            assert(after[before.len() as int] == it);
        }
        if after.contains(it) && !before.contains(it) {
            let i = after.index_of(it);
            assert(i == before.len());
        }
        if exists|i: int| 0 <= i < outputs.len() && (#[trigger] outputs[i]).id == id && shares(outputs[i], at, size) == on {
            let i = choose|i: int|
                0 <= i < outputs.len() && (#[trigger] outputs[i]).id == id && shares(outputs[i], at, size) == on;
            if i < last {
                assert(rest[i] == outputs[i]);
            }
        }
    }
}

/// The room a popup is kept in is the output its window is on, as seen from its
/// parent: what is there in the room is where it is on the output.
pub proof fn lemma_popup_is_kept_on_its_output<S: Shell>(
    s: StateView,
    shell: S,
    positioner: ClientObjectId,
    parent: ClientObjectId,
    o: OutputView,
)
    requires
        s.win.xdg_positioners.has(positioner),
        s.win.xdg_positioners.at(positioner).parent_size is None,
        shell.placed_on(s.root(parent)) == Some(o.id),
        s.output(o.id) == Some(o),
        i32::MIN <= o.geometry.x - s.global_position(parent).0 <= i32::MAX,
        i32::MIN <= o.geometry.y - s.global_position(parent).1 <= i32::MAX,
    ensures
        match s.popup_room(shell, positioner, parent) {
            Some((asked, Some((x, y, width, height)))) => {
                &&& asked == s.win.xdg_positioners.at(positioner)
                &&& s.global_position(parent).0 + x == o.geometry.x
                &&& s.global_position(parent).1 + y == o.geometry.y
                &&& width == o.width
                &&& height == o.height
            },
            _ => false,
        },
{
}

} // verus!
