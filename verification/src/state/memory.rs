//! Buffers, and the pools of shared memory they lie in.
use crate::protocol::messages::{build_message, event, no_args};
use crate::seqs::{lemma_filter_agree, lemma_filter_facts, lemma_filter_push};
use crate::state::compositor_state::{CompositorState, MemoryView, StateView};
use crate::state::family::holds;
use crate::state::types::{
    Buffer, BufferKind, BufferKindView, BufferView, ClientObjectId, damage_view, same_key,
    ShmBuffer, ShmBufferView, ShmPool, Surface, SurfaceView, TextureRect,
};
use crate::table::{lemma_set_without, set_put, set_without};
use vstd::prelude::*;

verus! {

/// The damage of a buffer after more of it has changed. No damage named is all
/// of it, and all of it stays all of it.
pub open spec fn more_damage(before: Option<Seq<TextureRect>>, damage: Seq<TextureRect>) -> Option<Seq<TextureRect>> {
    match before {
        Some(existing) => if damage.len() == 0 {
            None
        } else {
            Some(existing + damage)
        },
        None => None,
    }
}

/// The serial after one. Serials go round, though not within any lifetime.
pub open spec fn serial_after(n: u64) -> u64 {
    if n == u64::MAX {
        0
    } else {
        (n + 1) as u64
    }
}

impl StateView {
    /// With a descriptor for its owner to close.
    pub open spec fn close_fd(self, fd: i32) -> Self {
        StateView { mem: MemoryView { closed_fds: self.mem.closed_fds.push(fd), ..self.mem }, ..self }
    }

    /// With a pool gone, and its descriptor with it.
    pub open spec fn drop_pool(self, key: ClientObjectId) -> Self {
        if self.mem.shm_pools.has(key) {
            StateView {
                mem: MemoryView {
                    shm_pools: self.mem.shm_pools.without(key),
                    closed_fds: self.mem.closed_fds.push(self.mem.shm_pools.at(key).fd),
                    ..self.mem
                },
                ..self
            }
        } else {
            self
        }
    }

    /// With a new pool, in place of any that had its id.
    pub open spec fn register_shm_pool(self, client_id: u32, pool_id: u32, fd: i32, size: u32, mapped: bool) -> Self {
        let bare = self.drop_pool((client_id, pool_id));
        StateView {
            mem: MemoryView {
                shm_pools: bare.mem.shm_pools.put(
                    (client_id, pool_id),
                    ShmPool { client_id, fd, size, mapped, dead: false },
                ),
                ..bare.mem
            },
            ..bare
        }
    }

    /// Whether any buffer lies in a pool.
    pub open spec fn pool_in_use(self, client_id: u32, pool_id: u32) -> bool {
        self.mem.buffers.any(|k: ClientObjectId, b: BufferView| b.client_id == client_id && b.in_pool(pool_id))
    }

    /// Whether a pool has been destroyed by its client.
    pub open spec fn pool_dead(self, key: ClientObjectId) -> bool {
        self.mem.shm_pools.has(key) && self.mem.shm_pools.at(key).dead
    }

    /// With a pool freed if it is destroyed and nothing lies in it.
    pub open spec fn try_cleanup_pool(self, client_id: u32, pool_id: u32) -> Self {
        if self.pool_dead((client_id, pool_id)) && !self.pool_in_use(client_id, pool_id) {
            self.drop_pool((client_id, pool_id))
        } else {
            self
        }
    }

    /// With a pool marked as destroyed by its client.
    pub open spec fn mark_pool_dead(self, key: ClientObjectId) -> Self {
        StateView {
            mem: MemoryView {
                shm_pools: self.mem.shm_pools.edit(key, |p: ShmPool| ShmPool { dead: true, ..p }),
                ..self.mem
            },
            ..self
        }
    }

    /// With a pool destroyed by its client, and freed once nothing lies in it.
    pub open spec fn destroy_shm_pool(self, client_id: u32, pool_id: u32) -> Self {
        self.mark_pool_dead((client_id, pool_id)).try_cleanup_pool(client_id, pool_id)
    }

    /// With a content serial handed out.
    pub open spec fn content_serial_taken(self) -> Self {
        StateView {
            mem: MemoryView { next_content_serial: serial_after(self.mem.next_content_serial), ..self.mem },
            ..self
        }
    }

    /// With a buffer's contents changed, and how much of them.
    pub open spec fn mark_buffer_damaged(self, key: ClientObjectId, damage: Seq<TextureRect>) -> Self {
        let serial = serial_after(self.mem.next_content_serial);
        StateView {
            mem: MemoryView {
                next_content_serial: serial,
                buffers: self.mem.buffers.edit(
                    key,
                    |b: BufferView|
                        match b.kind {
                            BufferKindView::Shm(shm) => BufferView {
                                content_serial: serial,
                                kind: BufferKindView::Shm(
                                    ShmBufferView { damage: more_damage(shm.damage, damage), ..shm },
                                ),
                                ..b
                            },
                            _ => b,
                        },
                ),
                ..self.mem
            },
            ..self
        }
    }

    /// With several buffers wholly changed, one after another.
    pub open spec fn mark_each_damaged(self, keys: Seq<ClientObjectId>) -> Self
        decreases keys.len(),
    {
        if keys.len() == 0 {
            self
        } else {
            self.mark_each_damaged(keys.drop_last()).mark_buffer_damaged(keys.last(), Seq::empty())
        }
    }

    /// The buffers of a client that lie in a pool.
    pub open spec fn buffers_in_pool(self, client_id: u32, pool_id: u32) -> Seq<ClientObjectId> {
        self.mem.buffers.keys_where(lies_in(client_id, pool_id))
    }

    /// With every buffer in a pool wholly changed.
    pub open spec fn mark_pool_damaged(self, client_id: u32, pool_id: u32) -> Self {
        self.mark_each_damaged(self.buffers_in_pool(client_id, pool_id))
    }

    /// With a pool of another size, mapped anew or not.
    pub open spec fn set_pool_size(self, key: ClientObjectId, size: u32, mapped: bool) -> Self {
        StateView {
            mem: MemoryView {
                shm_pools: self.mem.shm_pools.edit(key, |p: ShmPool| ShmPool { size, mapped, ..p }),
                ..self.mem
            },
            ..self
        }
    }

    /// With a pool grown.
    pub open spec fn resize_shm_pool(self, client_id: u32, pool_id: u32, size: u32, mapped: bool) -> Self {
        self.mark_pool_damaged(client_id, pool_id).set_pool_size((client_id, pool_id), size, mapped)
    }

    /// With a new buffer in a pool. Its memory is guarded if the pool is
    /// mapped.
    pub open spec fn register_buffer(
        self,
        client_id: u32,
        buffer_id: u32,
        pool_id: u32,
        offset: i32,
        width: i32,
        height: i32,
        stride: i32,
        format: u32,
    ) -> Self {
        let key = (client_id, buffer_id);
        let mapped = self.mem.shm_pools.has((client_id, pool_id)) && self.mem.shm_pools.at((client_id, pool_id)).mapped;
        StateView {
            mem: MemoryView {
                next_content_serial: serial_after(self.mem.next_content_serial),
                releasing_buffers: set_without(self.mem.releasing_buffers, key),
                buffer_guards: if mapped {
                    self.mem.buffer_guards.put(key, self.mem.shm_pools.at((client_id, pool_id)).size)
                } else {
                    self.mem.buffer_guards
                },
                buffers: self.mem.buffers.put(
                    key,
                    BufferView {
                        client_id,
                        width,
                        height,
                        content_serial: serial_after(self.mem.next_content_serial),
                        kind: BufferKindView::Shm(ShmBufferView { pool_id, offset, stride, format, damage: None }),
                    },
                ),
                ..self.mem
            },
            ..self
        }
    }

    /// The pool a buffer lies in, if it lies in one.
    pub open spec fn pool_of(self, key: ClientObjectId) -> Option<u32> {
        if self.mem.buffers.has(key) {
            match self.mem.buffers.at(key).kind {
                BufferKindView::Shm(shm) => Some(shm.pool_id),
                _ => None,
            }
        } else {
            None
        }
    }

    /// With every trace of a buffer gone.
    pub open spec fn forget_buffer(self, key: ClientObjectId) -> Self {
        StateView {
            mem: MemoryView {
                buffers: self.mem.buffers.without(key),
                buffer_guards: self.mem.buffer_guards.without(key),
                releasing_buffers: set_without(self.mem.releasing_buffers, key),
                buffers_pending_release: set_without(self.mem.buffers_pending_release, key),
                ..self.mem
            },
            ..self
        }
    }

    /// With a buffer gone, and its pool freed if that was waiting for it.
    pub open spec fn destroy_buffer(self, client_id: u32, buffer_id: u32) -> Self {
        let key = (client_id, buffer_id);
        match self.pool_of(key) {
            Some(pool_id) => self.forget_buffer(key).try_cleanup_pool(client_id, pool_id),
            None => self.forget_buffer(key),
        }
    }

    /// With nothing damaged.
    pub open spec fn clear_buffer_damage(self) -> Self {
        StateView {
            mem: MemoryView {
                buffers: self.mem.buffers.each(|k: ClientObjectId, b: BufferView| undamaged(b)),
                ..self.mem
            },
            ..self
        }
    }

    /// Whether a buffer is attached to any surface of its client.
    pub open spec fn attached(self, key: ClientObjectId) -> bool {
        self.surf.surfaces.any(
            |k: ClientObjectId, s: SurfaceView| s.client_id == key.0 && s.buffer_id == Some(key.1),
        )
    }

    /// The buffers a commit replaced that are attached to nothing, put among
    /// those being released.
    pub open spec fn releasing_after(self, keys: Seq<ClientObjectId>) -> Seq<ClientObjectId>
        decreases keys.len(),
    {
        if keys.len() == 0 {
            self.mem.releasing_buffers
        } else {
            let before = self.releasing_after(keys.drop_last());
            if self.attached(keys.last()) {
                before
            } else {
                set_put(before, keys.last())
            }
        }
    }

    /// With the buffers commits replaced noted as no longer wanted.
    pub open spec fn start_buffer_releases(self) -> Self {
        StateView {
            mem: MemoryView {
                releasing_buffers: self.releasing_after(self.mem.buffers_pending_release),
                buffers_pending_release: Seq::empty(),
                ..self.mem
            },
            ..self
        }
    }

    /// Whether anything still reads a buffer, given the buffers that frames in
    /// flight were made from. A buffer in shared memory that is no longer mapped,
    /// and one that is gone, count as idle.
    pub open spec fn being_read(self, busy: Seq<ClientObjectId>, key: ClientObjectId) -> bool {
        &&& self.mem.buffer_guards.has(key) || (self.mem.buffers.has(key) && self.mem.buffers.at(key).kind is Dmabuf)
        &&& busy.contains(key)
    }

    /// Whether a buffer being released can be released: nothing reads it and
    /// it is attached to nothing.
    pub open spec fn releasable(self, busy: Seq<ClientObjectId>, key: ClientObjectId) -> bool {
        !self.being_read(busy, key) && !self.attached(key)
    }

    /// With clients told that buffers are theirs again, for those buffers that
    /// still exist.
    pub open spec fn release_each(self, keys: Seq<ClientObjectId>) -> Self
        decreases keys.len(),
    {
        if keys.len() == 0 {
            self
        } else {
            let before = self.release_each(keys.drop_last());
            if self.mem.buffers.has(keys.last()) {
                before.tell(keys.last().0, event(keys.last().1, 0, Seq::empty()))
            } else {
                before
            }
        }
    }

    /// With clients told of every buffer that can be released.
    pub open spec fn finish_buffer_releases(self, busy: Seq<ClientObjectId>) -> Self {
        let done = self.mem.releasing_buffers.filter(|k: ClientObjectId| self.releasable(busy, k));
        StateView {
            mem: MemoryView {
                releasing_buffers: self.mem.releasing_buffers.filter(|k: ClientObjectId| !self.releasable(busy, k)),
                ..self.mem
            },
            ..self
        }.release_each(done)
    }
}

/// Whether a buffer of a client lies in a pool.
pub open spec fn lies_in(client_id: u32, pool_id: u32) -> spec_fn(ClientObjectId, BufferView) -> bool {
    |k: ClientObjectId, b: BufferView| k.0 == client_id && b.in_pool(pool_id)
}

/// A buffer with nothing damaged.
pub open spec fn undamaged(b: BufferView) -> BufferView {
    match b.kind {
        BufferKindView::Shm(shm) => BufferView {
            kind: BufferKindView::Shm(ShmBufferView { damage: Some(Seq::empty()), ..shm }),
            ..b
        },
        _ => b,
    }
}

fn add_damage(damage: &mut Option<Vec<TextureRect>>, more: &Vec<TextureRect>)
    ensures
        damage_view(*final(damage)) == more_damage(damage_view(*old(damage)), more@),
{
    if more.len() == 0 {
        *damage = None;
        return;
    }
    if let Some(existing) = damage {
        let ghost before = existing@;
        let mut i: usize = 0;
        while i < more.len()
            invariant
                i <= more@.len(),
                existing@ == before + more@.take(i as int),
            decreases more@.len() - i,
        {
            existing.push(more[i]);
            i += 1;
            proof {
                assert(existing@ =~= before + more@.take(i as int));
            }
        }
        proof {
            assert(more@.take(i as int) =~= more@);
        }
    }
}

fn damage_buffer(buffer: &mut Buffer, damage: &Vec<TextureRect>, serial: u64)
    ensures
        final(buffer)@ == match old(buffer)@.kind {
            BufferKindView::Shm(shm) => BufferView {
                content_serial: serial,
                kind: BufferKindView::Shm(ShmBufferView { damage: more_damage(shm.damage, damage@), ..shm }),
                ..old(buffer)@
            },
            _ => old(buffer)@,
        },
{
    if let BufferKind::Shm(shm) = &mut buffer.kind {
        add_damage(&mut shm.damage, damage);
        buffer.content_serial = serial;
    }
}

fn undamage_buffer(buffer: &mut Buffer)
    ensures
        final(buffer)@ == undamaged(old(buffer)@),
{
    if let BufferKind::Shm(shm) = &mut buffer.kind {
        let none: Vec<TextureRect> = Vec::new();
        proof {
            assert(none@ =~= Seq::<TextureRect>::empty());
        }
        shm.damage = Some(none);
    }
}

impl CompositorState {
    fn drop_pool(&mut self, key: ClientObjectId)
        ensures
            final(self)@ == old(self)@.drop_pool(key),
    {
        let fd: i32 = match self.mem.shm_pools.get(key) {
            Some(pool) => pool.fd,
            None => {
                return;
            },
        };
        let _ = self.mem.shm_pools.remove(key);
        self.mem.closed_fds.push(fd);
    }

    /// Returns false if the pool could not be mapped, which is a client error:
    /// the file is unreadable or smaller than the pool it declared.
    pub fn register_shm_pool(&mut self, client_id: u32, pool_id: u32, fd: i32, size: u32, mapped: bool) -> (r: bool)
        ensures
            r == mapped,
            final(self)@ == old(self)@.register_shm_pool(client_id, pool_id, fd, size, mapped),
    {
        self.drop_pool((client_id, pool_id));
        self.mem.shm_pools.insert((client_id, pool_id), ShmPool { client_id, fd, size, mapped, dead: false });
        mapped
    }

    /// Free pool resources if the pool has been destroyed and no buffers
    /// still reference it.
    pub fn try_cleanup_pool(&mut self, client_id: u32, pool_id: u32)
        ensures
            final(self)@ == old(self)@.try_cleanup_pool(client_id, pool_id),
    {
        let dead: bool = match self.mem.shm_pools.get((client_id, pool_id)) {
            Some(pool) => pool.dead,
            None => false,
        };
        if !dead {
            return;
        }
        let in_use = self.mem.buffers.any(
            |k: &ClientObjectId, b: &Buffer| -> (r: bool)
                ensures r == (b@.client_id == client_id && b@.in_pool(pool_id))
                {
                    b.client_id == client_id && match b.shm() {
                        Some(shm) => shm.pool_id == pool_id,
                        None => false,
                    }
                },
            Ghost(|k: ClientObjectId, b: BufferView| b.client_id == client_id && b.in_pool(pool_id)),
        );
        if !in_use {
            self.drop_pool((client_id, pool_id));
        }
    }

    fn mark_pool_dead(&mut self, key: ClientObjectId)
        ensures
            final(self)@ == old(self)@.mark_pool_dead(key),
    {
        if let Some(pool) = self.mem.shm_pools.get_mut(key) {
            pool.dead = true;
        }
    }

    pub fn destroy_shm_pool(&mut self, client_id: u32, pool_id: u32)
        ensures
            final(self)@ == old(self)@.destroy_shm_pool(client_id, pool_id),
    {
        self.mark_pool_dead((client_id, pool_id));
        self.try_cleanup_pool(client_id, pool_id);
    }

    /// Hand out the next content serial.
    pub fn next_content_serial(&mut self) -> (r: u64)
        ensures
            r == serial_after(old(self)@.mem.next_content_serial),
            final(self)@ == old(self)@.content_serial_taken(),
    {
        let n: u64 = self.mem.next_content_serial;
        self.mem.next_content_serial = if n == u64::MAX {
            0
        } else {
            n + 1
        };
        self.mem.next_content_serial
    }

    /// Record that a buffer's contents have changed, and how much of it.
    ///
    /// An empty `damage` means the whole buffer must be treated as new. Damage
    /// accumulates across changes nobody has read yet: if two commits land
    /// between two scenes, the second must not erase what the first reported.
    ///
    /// Only an upload has anything to record. A dma-buf is sampled where it
    /// lies, so a client drawing into one needs nothing sent and nothing
    /// invalidated.
    pub fn mark_buffer_damaged(&mut self, client_id: u32, buffer_id: u32, damage: &Vec<TextureRect>)
        ensures
            final(self)@ == old(self)@.mark_buffer_damaged((client_id, buffer_id), damage@),
    {
        let serial = self.next_content_serial();
        if let Some(buffer) = self.mem.buffers.get_mut((client_id, buffer_id)) {
            damage_buffer(buffer, damage, serial);
        }
    }

    /// Mark every buffer backed by a pool as wholly changed.
    ///
    /// Used when the mapping itself moves, which invalidates any copy taken
    /// from it regardless of what the client did or did not draw.
    fn mark_pool_damaged(&mut self, client_id: u32, pool_id: u32)
        ensures
            final(self)@ == old(self)@.mark_pool_damaged(client_id, pool_id),
    {
        let keys = self.mem.buffers.keys_where(
            |k: &ClientObjectId, b: &Buffer| -> (r: bool)
                ensures r == lies_in(client_id, pool_id)(*k, b@)
                {
                    k.0 == client_id && match b.shm() {
                        Some(shm) => shm.pool_id == pool_id,
                        None => false,
                    }
                },
            Ghost(lies_in(client_id, pool_id)),
        );
        let none: Vec<TextureRect> = Vec::new();
        proof {
            assert(none@ =~= Seq::<TextureRect>::empty());
        }
        let mut i: usize = 0;
        while i < keys.len()
            invariant
                i <= keys@.len(),
                none@ == Seq::<TextureRect>::empty(),
                self@ == old(self)@.mark_each_damaged(keys@.take(i as int)),
            decreases keys@.len() - i,
        {
            proof {
                assert(keys@.take(i + 1).drop_last() =~= keys@.take(i as int));
            }
            self.mark_buffer_damaged(keys[i].0, keys[i].1, &none);
            i += 1;
        }
        proof {
            assert(keys@.take(i as int) =~= keys@);
        }
    }

    fn set_pool_size(&mut self, key: ClientObjectId, size: u32, mapped: bool)
        ensures
            final(self)@ == old(self)@.set_pool_size(key, size, mapped),
    {
        if let Some(pool) = self.mem.shm_pools.get_mut(key) {
            pool.size = size;
            pool.mapped = mapped;
        }
    }

    /// Take a pool's new size, and whether the memory could be mapped again at
    /// that size. Returns false if there is no such pool or it could not.
    pub fn resize_shm_pool(&mut self, client_id: u32, pool_id: u32, new_size: u32, mapped: bool) -> (r: bool)
        ensures
            r == (mapped && old(self)@.mem.shm_pools.has((client_id, pool_id))),
            final(self)@ == old(self)@.resize_shm_pool(client_id, pool_id, new_size, mapped),
    {
        let known = self.mem.shm_pools.contains((client_id, pool_id));
        self.mark_pool_damaged(client_id, pool_id);
        self.set_pool_size((client_id, pool_id), new_size, mapped);
        mapped && known
    }

    pub fn register_buffer(
        &mut self,
        client_id: u32,
        buffer_id: u32,
        pool_id: u32,
        offset: i32,
        width: i32,
        height: i32,
        stride: i32,
        format: u32,
    )
        ensures
            final(self)@ == old(self)@.register_buffer(
                client_id,
                buffer_id,
                pool_id,
                offset,
                width,
                height,
                stride,
                format,
            ),
    {
        let key = (client_id, buffer_id);
        let mapped: Option<u32> = match self.mem.shm_pools.get((client_id, pool_id)) {
            Some(pool) => if pool.mapped {
                Some(pool.size)
            } else {
                None
            },
            None => None,
        };
        let content_serial = self.next_content_serial();
        let _ = self.mem.releasing_buffers.remove(key);
        if let Some(size) = mapped {
            self.mem.buffer_guards.insert(key, size);
        }
        self.mem.buffers.insert(
            key,
            Buffer {
                client_id,
                width,
                height,
                content_serial,
                kind: BufferKind::Shm(ShmBuffer { pool_id, offset, stride, format, damage: None }),
            },
        );
    }

    fn forget_buffer(&mut self, key: ClientObjectId)
        ensures
            final(self)@ == old(self)@.forget_buffer(key),
    {
        let _ = self.mem.buffers.remove(key);
        let _ = self.mem.buffer_guards.remove(key);
        let _ = self.mem.releasing_buffers.remove(key);
        let kept = keys_without(&self.mem.buffers_pending_release, key);
        self.mem.buffers_pending_release = kept;
    }

    pub fn destroy_buffer(&mut self, client_id: u32, buffer_id: u32)
        ensures
            final(self)@ == old(self)@.destroy_buffer(client_id, buffer_id),
    {
        let key = (client_id, buffer_id);
        let pool: Option<u32> = match self.mem.buffers.get(key) {
            Some(buffer) => match buffer.shm() {
                Some(shm) => Some(shm.pool_id),
                None => None,
            },
            None => None,
        };
        self.forget_buffer(key);
        if let Some(pool_id) = pool {
            self.try_cleanup_pool(client_id, pool_id);
        }
    }

    /// Forget the damage accumulated so far, having acted on it.
    ///
    /// Resets to "nothing has changed" rather than to "unknown" - the two are
    /// opposites, and clearing to the wrong one would either force a full
    /// upload every frame or skip a real change.
    pub fn clear_buffer_damage(&mut self)
        ensures
            final(self)@ == old(self)@.clear_buffer_damage(),
    {
        let ghost f = |k: ClientObjectId, b: BufferView| undamaged(b);
        let ghost before = self@.mem.buffers;
        self.mem.buffers.known();
        proof {
            before.lemma_each(f);
        }
        let n: usize = self.mem.buffers.len();
        let mut i: usize = 0;
        while i < n
            invariant
                i <= n,
                n == before.order.len(),
                before.ok(),
                f == (|k: ClientObjectId, b: BufferView| undamaged(b)),
                self@ == (StateView {
                    mem: MemoryView { buffers: before.each_first(i as int, f), ..old(self)@.mem },
                    ..old(self)@
                }),
            decreases n - i,
        {
            proof {
                before.lemma_each_step(i as int, f);
            }
            let buffer = self.mem.buffers.value_at_mut(i);
            undamage_buffer(buffer);
            i += 1;
        }
    }

    /// Whether a buffer is attached to any surface of its client.
    fn attached(&self, key: ClientObjectId) -> (r: bool)
        ensures
            r == self@.attached(key),
    {
        self.surf.surfaces.any(
            |k: &ClientObjectId, s: &Surface| -> (r: bool)
                ensures r == (s@.client_id == key.0 && s@.buffer_id == Some(key.1))
                { s.client_id == key.0 && s.buffer_id == Some(key.1) },
            Ghost(|k: ClientObjectId, s: SurfaceView| s.client_id == key.0 && s.buffer_id == Some(key.1)),
        )
    }

    /// Note buffers a commit replaced as no longer wanted.
    ///
    /// This is not the release itself: a frame still in flight may be reading the
    /// buffer, and telling the client it may draw would corrupt what is on screen.
    /// Buffers still attached to a surface are skipped, which happens when several
    /// commits are batched and a buffer is re-attached after being replaced.
    pub fn start_buffer_releases(&mut self)
        ensures
            final(self)@ == old(self)@.start_buffer_releases(),
    {
        let mut keys: Vec<ClientObjectId> = Vec::new();
        core::mem::swap(&mut self.mem.buffers_pending_release, &mut keys);
        proof {
            assert(self@.mem.buffers_pending_release =~= Seq::<ClientObjectId>::empty());
        }
        let mut i: usize = 0;
        while i < keys.len()
            invariant
                i <= keys@.len(),
                keys@ == old(self)@.mem.buffers_pending_release,
                self@ == (StateView {
                    mem: MemoryView {
                        releasing_buffers: old(self)@.releasing_after(keys@.take(i as int)),
                        buffers_pending_release: Seq::empty(),
                        ..old(self)@.mem
                    },
                    ..old(self)@
                }),
            decreases keys@.len() - i,
        {
            let key = keys[i];
            proof {
                assert(keys@.take(i + 1).drop_last() =~= keys@.take(i as int));
                assert(self@.attached(key) == old(self)@.attached(key));
            }
            if !self.attached(key) {
                self.mem.releasing_buffers.insert(key);
            }
            i += 1;
        }
        proof {
            assert(keys@.take(i as int) =~= keys@);
        }
    }

    fn release_each(&mut self, keys: &Vec<ClientObjectId>)
        ensures
            final(self)@ == old(self)@.release_each(keys@),
    {
        let mut i: usize = 0;
        while i < keys.len()
            invariant
                i <= keys@.len(),
                self@.mem == old(self)@.mem,
                self@ == old(self)@.release_each(keys@.take(i as int)),
            decreases keys@.len() - i,
        {
            proof {
                assert(keys@.take(i + 1).drop_last() =~= keys@.take(i as int));
            }
            if self.mem.buffers.contains(keys[i]) {
                self.tell(keys[i].0, build_message(keys[i].1, 0, no_args()));
            }
            i += 1;
        }
        proof {
            assert(keys@.take(i as int) =~= keys@);
        }
    }

    /// Whether anything is still reading a buffer's memory. `busy` is the
    /// buffers that a frame in flight was made from.
    ///
    /// A dma-buf has no mapping to guard, so the frames alone decide. A buffer
    /// with no guard at all, destroyed or never mapped, counts as idle.
    pub fn buffer_is_being_read(&self, key: ClientObjectId, busy: &Vec<ClientObjectId>) -> (r: bool)
        ensures
            r == self@.being_read(busy@, key),
    {
        let shared: bool = match self.mem.buffers.get(key) {
            Some(b) => matches!(b.kind, BufferKind::Dmabuf),
            None => false,
        };
        (shared || self.mem.buffer_guards.contains(key)) && holds(busy, key)
    }

    /// Tell clients about buffers nothing is reading any more. `busy` is the
    /// buffers that a frame in flight still reads.
    ///
    /// Runs every tick, not only the ones that draw: the last reader is usually the
    /// previous frame, which is dropped when a later frame replaces it or the
    /// backend finishes with it.
    pub fn finish_buffer_releases(&mut self, busy: &Vec<ClientObjectId>)
        ensures
            final(self)@ == old(self)@.finish_buffer_releases(busy@),
    {
        let ghost p = |k: ClientObjectId| self@.releasable(busy@, k);
        let ghost keys = self@.mem.releasing_buffers;
        let mut done: Vec<ClientObjectId> = Vec::new();
        let mut i: usize = 0;
        proof {
            assert(keys.take(0).filter(p) =~= Seq::<ClientObjectId>::empty()) by {
                reveal(Seq::filter);
            }
        }
        while i < self.mem.releasing_buffers.len()
            invariant
                i <= keys.len(),
                *self == *old(self),
                keys == self@.mem.releasing_buffers,
                p == (|k: ClientObjectId| self@.releasable(busy@, k)),
                done@ == keys.take(i as int).filter(p),
            decreases keys.len() - i,
        {
            let key = self.mem.releasing_buffers.key_at(i);
            proof {
                assert(keys.take(i + 1) =~= keys.take(i as int).push(key));
                lemma_filter_push(keys.take(i as int), key, p);
            }
            if !self.buffer_is_being_read(key, busy) && !self.attached(key) {
                done.push(key);
            }
            i += 1;
        }
        proof {
            assert(keys.take(i as int) =~= keys);
            lemma_filter_facts(keys, p);
        }
        let ghost q = |k: ClientObjectId| !done@.contains(k);
        self.mem.releasing_buffers.retain(
            |k: &ClientObjectId| -> (r: bool) ensures r == !done@.contains(*k) { !holds(&done, *k) },
            Ghost(q),
        );
        proof {
            let not_p = |k: ClientObjectId| !old(self)@.releasable(busy@, k);
            assert forall|j: int| 0 <= j < keys.len() implies q(#[trigger] keys[j]) == not_p(keys[j]) by {
                assert(keys.contains(keys[j]));
                assert(keys.filter(p).contains(keys[j]) <==> p(keys[j]));
            }
            lemma_filter_agree(keys, q, not_p);
        }
        self.release_each(&done);
    }
}

/// A list without an object.
pub fn keys_without(v: &Vec<ClientObjectId>, key: ClientObjectId) -> (r: Vec<ClientObjectId>)
    ensures
        r@ == set_without(v@, key),
{
    let ghost p = |x: ClientObjectId| x != key;
    let mut r: Vec<ClientObjectId> = Vec::new();
    let mut i: usize = 0;
    proof {
        assert(v@.take(0).filter(p) =~= Seq::<ClientObjectId>::empty()) by {
            reveal(Seq::filter);
        }
    }
    while i < v.len()
        invariant
            i <= v@.len(),
            p == (|x: ClientObjectId| x != key),
            r@ == v@.take(i as int).filter(p),
        decreases v@.len() - i,
    {
        proof {
            assert(v@.take(i + 1) =~= v@.take(i as int).push(v@[i as int]));
            lemma_filter_push(v@.take(i as int), v@[i as int], p);
        }
        if !same_key(v[i], key) {
            r.push(v[i]);
        }
        i += 1;
    }
    proof {
        assert(v@.take(i as int) =~= v@);
        lemma_set_without(v@, key, p);
    }
    r
}

} // verus!
