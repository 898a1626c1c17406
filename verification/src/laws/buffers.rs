//! Buffers: what changed of them is never forgotten, and none is given back
//! while it is in use.
use crate::protocol::messages::event;
use crate::seqs::lemma_filter_facts;
use crate::state::compositor_state::{MemoryView, StateView};
use crate::state::memory::more_damage;
use crate::state::types::{ClientObjectId, TextureRect};
use vstd::prelude::*;

verus! {

/// Two commits between two scenes: the second never erases what the first
/// reported. Either it is still there, or all of the buffer counts as changed.
pub proof fn lemma_damage_adds_up(first: Seq<TextureRect>, second: Seq<TextureRect>, r: TextureRect)
    requires
        first.contains(r),
    ensures
        match more_damage(Some(first), second) {
            Some(all) => all.contains(r),
            None => true,
        },
{
    if second.len() > 0 {
        let i = choose|i: int| 0 <= i < first.len() && first[i] == r;
        assert((first + second)[i] == r);
    }
}

/// A buffer of which all has changed stays so whatever else is reported.
pub proof fn lemma_all_damage_stays(damage: Seq<TextureRect>)
    ensures
        more_damage(None, damage) is None,
{
}

/// Whether no buffer's contents have a serial still to be given.
pub open spec fn contents_old(s: StateView) -> bool {
    forall|k: ClientObjectId|
        #[trigger] s.mem.buffers.has(k) ==> s.mem.buffers.at(k).content_serial <= s.mem.next_content_serial
}

/// A change to a buffer's contents gives them a serial that no buffer has had.
pub proof fn lemma_changed_contents_are_new(
    s: StateView,
    key: ClientObjectId,
    damage: Seq<TextureRect>,
    other: ClientObjectId,
)
    requires
        contents_old(s),
        s.mem.next_content_serial < u64::MAX,
        s.mem.buffers.has(key),
        s.mem.buffers.at(key).kind is Shm,
        s.mem.buffers.has(other),
    ensures
        contents_old(s.mark_buffer_damaged(key, damage)),
        s.mark_buffer_damaged(key, damage).mem.buffers.at(key).content_serial > s.mem.buffers.at(other).content_serial,
{
    let t = s.mark_buffer_damaged(key, damage);
    assert forall|k: ClientObjectId| #[trigger] t.mem.buffers.has(k) implies t.mem.buffers.at(k).content_serial
        <= t.mem.next_content_serial by {
        assert(s.mem.buffers.has(k));
    }
}

proof fn lemma_releases_keep(s: StateView, keys: Seq<ClientObjectId>)
    ensures
        s.release_each(keys).mem == s.mem,
    decreases keys.len(),
{
    if keys.len() > 0 {
        lemma_releases_keep(s, keys.drop_last());
    }
}

/// A buffer that a frame still reads, or that is attached to a surface, is not
/// given back: it goes on waiting.
pub proof fn lemma_buffer_in_use_waits(s: StateView, busy: Seq<ClientObjectId>, key: ClientObjectId)
    requires
        s.mem.releasing_buffers.contains(key),
        s.being_read(busy, key) || s.attached(key),
    ensures
        s.finish_buffer_releases(busy).mem.releasing_buffers.contains(key),
{
    let p = |k: ClientObjectId| s.releasable(busy, k);
    let q = |k: ClientObjectId| !s.releasable(busy, k);
    lemma_filter_facts(s.mem.releasing_buffers, q);
    let left = StateView {
        mem: MemoryView { releasing_buffers: s.mem.releasing_buffers.filter(q), ..s.mem },
        ..s
    };
    lemma_releases_keep(left, s.mem.releasing_buffers.filter(p));
}

proof fn lemma_release_told(s: StateView, keys: Seq<ClientObjectId>, key: ClientObjectId)
    requires
        s.clients.has(key.0),
        s.mem.buffers.has(key),
        keys.contains(key),
    ensures
        s.release_each(keys).clients.has(key.0),
        s.release_each(keys).clients.at(key.0).outbox.contains(event(key.1, 0, Seq::empty())),
    decreases keys.len(),
{
    let m = event(key.1, 0, Seq::empty());
    let before = s.release_each(keys.drop_last());
    lemma_releases_keep(s, keys.drop_last());
    lemma_release_clients(s, keys.drop_last(), key.0);
    let after = s.release_each(keys);
    if keys.last() == key {
        let outbox = after.clients.at(key.0).outbox;
        assert(outbox[outbox.len() - 1] == m);
    } else {
        let i = choose|i: int| 0 <= i < keys.len() && keys[i] == key;
        assert(keys.drop_last()[i] == key);
        lemma_release_told(s, keys.drop_last(), key);
        let old = before.clients.at(key.0).outbox;
        let j = choose|j: int| 0 <= j < old.len() && old[j] == m;
        assert(after.clients.at(key.0).outbox[j] == m);
    }
}

proof fn lemma_release_clients(s: StateView, keys: Seq<ClientObjectId>, c: u32)
    requires
        s.clients.has(c),
    ensures
        s.release_each(keys).clients.has(c),
    decreases keys.len(),
{
    if keys.len() > 0 {
        lemma_release_clients(s, keys.drop_last(), c);
    }
}

/// A buffer that nothing uses any more is given back, if it is still there.
pub proof fn lemma_free_buffer_is_released(s: StateView, busy: Seq<ClientObjectId>, key: ClientObjectId)
    requires
        s.mem.releasing_buffers.contains(key),
        !s.being_read(busy, key),
        !s.attached(key),
        s.mem.buffers.has(key),
        s.clients.has(key.0),
    ensures
        s.finish_buffer_releases(busy).clients.at(key.0).outbox.contains(event(key.1, 0, Seq::empty())),
        !s.finish_buffer_releases(busy).mem.releasing_buffers.contains(key),
{
    let p = |k: ClientObjectId| s.releasable(busy, k);
    let q = |k: ClientObjectId| !s.releasable(busy, k);
    lemma_filter_facts(s.mem.releasing_buffers, q);
    lemma_filter_facts(s.mem.releasing_buffers, p);
    let left = StateView {
        mem: MemoryView { releasing_buffers: s.mem.releasing_buffers.filter(q), ..s.mem },
        ..s
    };
    lemma_releases_keep(left, s.mem.releasing_buffers.filter(p));
    lemma_release_told(left, s.mem.releasing_buffers.filter(p), key);
}

} // verus!
