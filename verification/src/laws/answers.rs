//! Answers: what commits, panels, selections and pools come to.
use crate::input::hit::HitResult;
use crate::input::outputs::{departed, entered, Seen};
use crate::laws::delivery::{heard, lemma_heard_one, told_alone};
use crate::laws::describing::says;
use crate::laws::requests::row_end;
use crate::protocol::messages::{MessageView, Notice};
use crate::protocol::wire_utils::{ArgView, ClientMessage, string_at};
use crate::protocol::wl_shm_pool::ResizeRequest;
use crate::protocol::wp_cursor_shape_device::shape_names;
use crate::scene::images::{CachedImage, CacheView, packed, SourceView, uploaded};
use crate::scene::paint::opaque;
use crate::scene::theme::{cursor_of, CursorImageView};
use crate::shell::Shell;
use crate::state::compositor_state::StateView;
use crate::state::selections::Which;
use crate::state::types::{
    BufferKindView, BufferView, ClientObjectId, Drag, DragView, Hook, LayerKind, RegionRect,
    ShmBufferView, ShmPool, SurfacePendingView, SurfaceView, TextureRect,
};
use vstd::prelude::*;

verus! {

/// When a surface waits for its parent: it is a subsurface, and it is set to, or
/// the one it is on waits.
pub proof fn lemma_who_waits_for_the_parent(s: StateView, key: ClientObjectId)
    requires
        s.surf.surfaces.has(key),
    ensures
        !s.surf.surfaces.at(key).is_subsurface ==> !s.effectively_synced(key),
        s.surf.surfaces.at(key).is_subsurface && s.surf.surfaces.at(key).subsurface_sync ==> s.effectively_synced(key),
        s.surf.surfaces.at(key).is_subsurface && !s.surf.surfaces.at(key).subsurface_sync && s.surf.surfaces.at(
            key,
        ).parent is None ==> !s.effectively_synced(key),
        ({
            let parent = (key.0, s.surf.surfaces.at(key).parent->0);
            s.surf.surfaces.at(key).is_subsurface && !s.surf.surfaces.at(key).subsurface_sync && s.surf.surfaces.at(
                key,
            ).parent is Some && s.surf.surfaces.has(parent) && !s.surf.surfaces.at(parent).is_subsurface
                ==> !s.effectively_synced(key)
        }),
        ({
            let parent = (key.0, s.surf.surfaces.at(key).parent->0);
            s.surf.surfaces.at(key).is_subsurface && s.surf.surfaces.at(key).parent is Some && s.surf.surfaces.has(parent)
                && s.surf.surfaces.at(parent).is_subsurface && s.surf.surfaces.at(parent).subsurface_sync
                && s.surface_count() > 0 ==> s.effectively_synced(key)
        }),
{
    reveal_with_fuel(StateView::synced_within, 3);
}

/// A commit of a surface that waits for nothing and has nothing on it is seen at
/// once: the surface is as it was asked to be, and nothing is pending on it. The
/// buffer it no longer shows is to be given back.
pub proof fn lemma_commit_is_seen_at_once(s: StateView, msg: ClientMessage)
    requires
        msg.op_code == 6,
        s.surf.surfaces.has((msg.client_id, msg.object_id)),
        s.surf.surfaces.at((msg.client_id, msg.object_id)).children.len() == 0,
        !s.surf.surfaces.at((msg.client_id, msg.object_id)).is_subsurface,
        !s.layers.surface_layer.has((msg.client_id, msg.object_id)),
        s.xdg_surface_of((msg.client_id, msg.object_id)) is None,
    ensures
        ({
            let key = (msg.client_id, msg.object_id);
            let before = s.surf.surfaces.at(key);
            let t = s.surface_request(msg);
            let after = t.surf.surfaces.at(key);
            &&& after == (SurfaceView {
                position: after.position,
                pending: SurfacePendingView::nothing(),
                ..before.committed(before.pending)
            })
            &&& t.dirty
        }),
{
    let key = (msg.client_id, msg.object_id);
    let p = s.surf.surfaces.at(key).pending;
    let taken = s.take_pending(key);
    assert(taken.commit_role(key) == taken);
    assert(taken.xdg_surface_of(key) is None);
    assert(taken.may_show(key));
    assert(!taken.effectively_synced(key)) by {
        reveal_with_fuel(StateView::synced_within, 1);
    }
    let entries = seq![(key, p)];
    let none = Seq::<(ClientObjectId, SurfacePendingView)>::empty();
    let applied = taken.apply_one(key, p);
    assert(entries.drop_last() =~= none);
    assert(taken.apply_entries(none) == taken);
    assert(taken.entries_caches(none) == none);
    let under = applied.synced_children(key);
    assert(under =~= Seq::<ClientObjectId>::empty()) by {
        let all = applied.surf.surfaces.at(key).children.map_values(|c: u32| (key.0, c));
        assert(all =~= Seq::<ClientObjectId>::empty());
        reveal(Seq::filter);
    }
    assert(applied.uncache_each(under) == applied);
    assert(applied.caches(under).len() == 0);
    assert(taken.apply_entry((key, p)) == applied);
    assert(taken.apply_entries(entries) == applied);
    assert(taken.entries_caches(entries).len() == 0);
    assert(taken.apply_surface_state(key, p) == applied);
}

/// A panel that is made is on the layer it asks for, on the output it names or, if
/// it names none, where a new window would open. It asks for nothing yet, and is
/// not to be seen before it has agreed a size.
pub proof fn lemma_new_panel_asks_for_nothing(
    s: StateView,
    msg: ClientMessage,
    id: u32,
    surface: u32,
    output: u32,
    layer: u32,
    name: Seq<char>,
    end: int,
)
    requires
        msg.word(0) == Some(id),
        msg.word(1) == Some(surface),
        msg.word(2) == Some(output),
        msg.word(3) == Some(layer),
        string_at(msg.args@, 16) == Some((name, end)),
        layer <= 3,
        s.surf.surfaces.has((msg.client_id, surface)),
        !s.has_role((msg.client_id, surface)),
        s.may_register(msg.client_id, id),
    ensures
        ({
            let t = s.get_layer_surface(msg);
            let l = t.layers.layer_surfaces.at((msg.client_id, id));
            let on = (msg.client_id, output);
            &&& t.layers.layer_surfaces.has((msg.client_id, id))
            &&& l.client_id == msg.client_id
            &&& l.wl_surface_id == surface
            &&& t.layers.surface_layer.has((msg.client_id, surface))
            &&& t.layers.surface_layer.at((msg.client_id, surface)) == id
            &&& l.current == l.pending
            &&& l.current.size == (0i32, 0i32)
            &&& l.current.exclusive_zone == 0
            &&& l.current.anchor.0 == 0
            &&& layer == 0 ==> l.current.layer == LayerKind::Background
            &&& layer == 1 ==> l.current.layer == LayerKind::Bottom
            &&& layer == 2 ==> l.current.layer == LayerKind::Top
            &&& layer == 3 ==> l.current.layer == LayerKind::Overlay
            &&& !l.configured
            &&& l.configured_size is None
            &&& output == 0 ==> l.output == s.output_for_new_window()
            &&& output != 0 && s.out.output_bindings.has(on) ==> l.output == Some(s.out.output_bindings.at(on))
            &&& t.dirty
        }),
{
}

/// A panel's commit makes what it asked for so.
pub proof fn lemma_panel_is_as_it_asked(s: StateView, key: ClientObjectId)
    requires
        s.layers.layer_surfaces.has(key),
    ensures
        s.commit_layer(key).layers.layer_surfaces.at(key).current == s.layers.layer_surfaces.at(key).pending,
        s.commit_layer(key).layers.layer_surfaces.at(key).pending == s.layers.layer_surfaces.at(key).pending,
{
}

/// A panel that acknowledges a size it was told may be seen from then on.
pub proof fn lemma_acknowledged_panel_may_be_seen(s: StateView, msg: ClientMessage, i: int)
    requires
        msg.op_code == 6,
        s.layers.layer_surfaces.has((msg.client_id, msg.object_id)),
        0 <= i < s.layers.layer_surfaces.at((msg.client_id, msg.object_id)).pending_configures.len(),
        msg.word(0) == Some(s.layers.layer_surfaces.at((msg.client_id, msg.object_id)).pending_configures[i]),
        s.layers.layer_surfaces.at((msg.client_id, msg.object_id)).pending_configures.no_duplicates(),
        s.layers.layer_surfaces.at((msg.client_id, msg.object_id)).pending_configures[i]
            <= s.layers.layer_surfaces.at((msg.client_id, msg.object_id)).highest_configure,
    ensures
        ({
            let key = (msg.client_id, msg.object_id);
            let l = s.layer_request(msg).layers.layer_surfaces.at(key);
            &&& l.configured
            &&& l.pending_configures == s.layers.layer_surfaces.at(key).pending_configures.skip(i + 1)
        }),
{
    let p = s.layers.layer_surfaces.at((msg.client_id, msg.object_id)).pending_configures;
    p.index_of_first_ensures(p[i]);
    assert(p.contains(p[i]));
}

/// A new clipboard is told to the client that has the focus before anyone else.
pub proof fn lemma_focused_client_hears_of_the_clipboard(s: StateView, source: Option<ClientObjectId>, focus: ClientObjectId)
    requires
        s.input.focused_surface == Some(focus),
        s.clients.has(focus.0),
    ensures
        ({
            let held = s.hold(Which::Clipboard, source);
            let told = held.tell_focused(Which::Clipboard);
            &&& held.data.selection == source
            &&& held.data.primary_selection == s.data.primary_selection
            &&& told_alone(held, told, focus.0)
            &&& heard(held, told, focus.0) == seq![MessageView::Notice(Notice::Clipboard)]
            &&& held.announce(Which::Clipboard) == told.control_announce(Which::Clipboard)
        }),
{
    lemma_heard_one(
        s.hold(Which::Clipboard, source),
        focus.0,
        MessageView::Notice(Notice::Clipboard),
    );
}

/// Every clipboard manager hears of a selection, one device after another.
pub proof fn lemma_every_manager_hears(s: StateView, which: Which, n: nat)
    requires
        n < s.data.data_control_devices.len(),
    ensures
        ({
            let devices = s.data.data_control_devices;
            let d = devices[n as int];
            s.control_to_devices(devices.take(n as int + 1), which) == s.control_to_devices(
                devices.take(n as int),
                which,
            ).control_to_device(d.client_id, d.object_id, which)
        }),
        s.control_announce(which) == s.control_to_devices(
            s.data.data_control_devices.take(s.data.data_control_devices.len() as int),
            which,
        ),
{
    let devices = s.data.data_control_devices;
    assert(devices.take(n as int + 1).drop_last() =~= devices.take(n as int));
    assert(devices.take(devices.len() as int) =~= devices);
}

/// The primary selection is taken only by a client that quotes input it was lately
/// given.
pub proof fn lemma_primary_selection_needs_input(s: StateView, msg: ClientMessage, id: u32, serial: u32)
    requires
        msg.word(0) == Some(id),
        msg.word(1) == Some(serial),
        !(s.input.recent_input_serials.has(msg.client_id) && s.input.recent_input_serials.at(msg.client_id).contains(
            serial,
        )),
    ensures
        s.primary_set_selection(msg) == s,
{
}

/// A source that was cancelled takes no more types, and its client is refused.
pub proof fn lemma_cancelled_source_takes_no_types(s: StateView, msg: ClientMessage, mime_type: Seq<char>, end: int)
    requires
        string_at(msg.args@, 0) == Some((mime_type, end)),
        s.clients.has(msg.client_id),
    ensures
        ({
            let key = (msg.client_id, msg.object_id);
            let t = s.control_source_offer(msg);
            let live = s.data.data_sources.has(key) && !s.data.data_sources.at(key).cancelled;
            &&& live ==> t.clients == s.clients && t.data.data_sources.at(key).mime_types.contains(mime_type)
            &&& !live ==> t.data == s.data && t.clients.at(msg.client_id).cancelled
        }),
{
    let key = (msg.client_id, msg.object_id);
    let before = s.data.data_sources.at(key).mime_types;
    let after = s.add_mime_type(key, mime_type).data.data_sources.at(key).mime_types;
    if s.data.data_sources.has(key) && !before.contains(mime_type) {
        assert(after[before.len() as int] == mime_type);
    }
}

/// A pool grows and never shrinks: a size below the one it has is refused, and any
/// other is what it has once its file has been found large enough.
pub proof fn lemma_pool_only_grows(s: StateView, msg: ClientMessage, n: i32)
    requires
        msg.number(0) == Some(n),
        s.mem.shm_pools.has((msg.client_id, msg.object_id)),
        s.clients.has(msg.client_id),
    ensures
        ({
            let key = (msg.client_id, msg.object_id);
            let pool = s.mem.shm_pools.at(key);
            &&& n < pool.size ==> s.resize_asked(msg) is None && s.resize_checked(msg).clients.at(
                msg.client_id,
            ).cancelled && s.resize_checked(msg).mem == s.mem
            &&& n >= pool.size ==> match s.resize_asked(msg) {
                Some(q) => {
                    &&& q.new_size == n
                    &&& q.client_id == msg.client_id
                    &&& q.pool_id == msg.object_id
                    &&& q.fd == pool.fd
                    &&& s.resize_checked(msg) == s
                },
                None => false,
            }
        }),
{
}

proof fn lemma_marked_keeps_pools(s: StateView, keys: Seq<ClientObjectId>)
    ensures
        s.mark_each_damaged(keys).mem.shm_pools == s.mem.shm_pools,
        s.mark_each_damaged(keys).clients == s.clients,
    decreases keys.len(),
{
    if keys.len() > 0 {
        lemma_marked_keeps_pools(s, keys.drop_last());
    }
}

/// A pool that has grown is of its new size, and one whose file is too small has
/// its client refused.
pub proof fn lemma_grown_pool(s: StateView, q: ResizeRequest, mapped: bool)
    requires
        s.mem.shm_pools.has((q.client_id, q.pool_id)),
        s.clients.has(q.client_id),
    ensures
        ({
            let key = (q.client_id, q.pool_id);
            let t = s.finish_resize(q, mapped);
            &&& t.mem.shm_pools.at(key) == (ShmPool { size: q.new_size, mapped, ..s.mem.shm_pools.at(key) })
            &&& mapped ==> t.clients == s.clients
            &&& !mapped ==> t.clients.at(q.client_id).cancelled
        }),
{
    lemma_marked_keeps_pools(s, s.buffers_in_pool(q.client_id, q.pool_id));
}

/// A buffer whose contents changed has new contents, and its changes so far and
/// these. One that was imported is as it was.
pub proof fn lemma_changed_buffer(s: StateView, key: ClientObjectId, damage: Seq<TextureRect>)
    requires
        s.mem.buffers.has(key),
        s.mem.next_content_serial < u64::MAX,
    ensures
        ({
            let (before, after) = (
                s.mem.buffers.at(key),
                s.mark_buffer_damaged(key, damage).mem.buffers.at(key),
            );
            match before.kind {
                BufferKindView::Shm(x) => {
                    &&& after.content_serial == s.mem.next_content_serial + 1
                    &&& after.width == before.width && after.height == before.height
                    &&& match after.kind {
                        BufferKindView::Shm(y) => {
                            &&& y == (ShmBufferView { damage: y.damage, ..x })
                            &&& x.damage is None || damage.len() == 0 ==> y.damage is None
                            &&& x.damage is Some && damage.len() > 0 ==> y.damage == Some(x.damage->0 + damage)
                        },
                        _ => false,
                    }
                },
                _ => after == before,
            }
        }),
{
}

/// Where the pixels of a texture in a pool are: from where the buffer begins, a row
/// every stride, four bytes to a pixel, to be packed first if the stride is no
/// whole number of pixels.
pub proof fn lemma_texture_is_where_the_buffer_is(
    key: ClientObjectId,
    b: BufferView,
    shm: ShmBufferView,
    previous: Option<CachedImage>,
)
    requires
        shm.offset >= 0,
        shm.stride >= 0,
        b.width >= 0,
    ensures
        match uploaded(key, b, shm, previous).source {
            SourceView::Upload(u) => {
                &&& u.offset == shm.offset
                &&& u.stride == shm.stride
                &&& u.row_bytes == 4 * b.width
                &&& u.repack == (shm.stride % 4 != 0)
            },
            _ => false,
        },
        uploaded(key, b, shm, previous).width == b.width,
        uploaded(key, b, shm, previous).height == b.height,
        uploaded(key, b, shm, previous).serial == b.content_serial,
{
}

/// Packed rows hold the bytes of each row, one row right after the other.
pub proof fn lemma_packed_rows(bytes: Seq<u8>, offset: i32, width: i32, stride: i32, rows: nat, row: int, at: int)
    requires
        offset >= 0,
        width > 0,
        stride >= 4 * width,
        0 <= row < rows,
        0 <= at < 4 * width,
        row_end(offset, width, stride, rows - 1) <= bytes.len(),
    ensures
        packed(bytes, offset as int, stride as int, 4 * width, rows).len() == rows * (4 * width),
        packed(bytes, offset as int, stride as int, 4 * width, rows)[row * (4 * width) + at] == bytes[offset + row * stride
            + at],
    decreases rows,
{
    let w = 4 * width;
    let before = packed(bytes, offset as int, stride as int, w, (rows - 1) as nat);
    if rows > 1 {
        lemma_rows_in_order(offset, width, stride, rows - 2);
    }
    lemma_packed_length(bytes, offset, width, stride, (rows - 1) as nat);
    lemma_packed_length(bytes, offset, width, stride, rows);
    assert(0 <= (rows - 1) * stride) by (nonlinear_arith)
        requires
            rows >= 1,
            stride >= 0,
    ;
    if row < rows - 1 {
        lemma_packed_rows(bytes, offset, width, stride, (rows - 1) as nat, row, at);
        assert(0 <= row * w + at < (rows - 1) * w) by (nonlinear_arith)
            requires
                0 <= row <= rows - 2,
                0 <= at < w,
        ;
    }
}

proof fn lemma_rows_in_order(offset: i32, width: i32, stride: i32, row: int)
    requires
        stride >= 0,
    ensures
        row_end(offset, width, stride, row) <= row_end(offset, width, stride, row + 1),
{
    assert((row + 1) * stride == row * stride + stride) by (nonlinear_arith);
}

proof fn lemma_packed_length(bytes: Seq<u8>, offset: i32, width: i32, stride: i32, rows: nat)
    requires
        offset >= 0,
        width > 0,
        stride >= 4 * width,
        rows > 0 ==> row_end(offset, width, stride, rows - 1) <= bytes.len(),
    ensures
        packed(bytes, offset as int, stride as int, 4 * width, rows).len() == rows * (4 * width),
    decreases rows,
{
    if rows > 0 {
        assert(0 <= (rows - 1) * stride) by (nonlinear_arith)
            requires
                rows >= 1,
                stride >= 0,
        ;
        if rows > 1 {
            lemma_rows_in_order(offset, width, stride, rows - 2);
        }
        lemma_packed_length(bytes, offset, width, stride, (rows - 1) as nat);
        let (from, w) = (offset + (rows - 1) * stride, 4 * width);
        assert(bytes.subrange(from, from + w).len() == w);
        assert((rows - 1) * w + w == rows * w) by (nonlinear_arith);
    } else {
        assert(rows * (4 * width) == 0) by (nonlinear_arith)
            requires
                rows == 0,
        ;
    }
}

/// Textures are kept in mind as long as their buffer is there, and what a surface
/// last showed as long as it has something attached.
pub proof fn lemma_kept_in_mind_while_there(cache: CacheView, s: StateView, key: ClientObjectId)
    ensures
        cache.gc(s).buffers.has(key) == (cache.buffers.has(key) && s.mem.buffers.has(key)),
        cache.gc(s).retained.has(key) == (cache.retained.has(key) && s.surf.surfaces.has(key) && s.surf.surfaces.at(
            key,
        ).buffer_id is Some),
        cache.gc(s).retained.has(key) ==> cache.gc(s).retained.at(key) == cache.retained.at(key),
{
}

/// A surface is opaque whose client has promised all of it with one rectangle, and
/// not one whose client has promised nothing.
pub proof fn lemma_promised_whole_is_opaque(r: RegionRect, width: i32, height: i32)
    requires
        r.op is Add,
        r.x <= 0,
        r.y <= 0,
        r.x + r.width >= width,
        r.y + r.height >= height,
    ensures
        opaque(Some(seq![r]), width, height),
        !opaque(None, width, height),
        !opaque(Some(Seq::empty()), width, height),
{
    assert(seq![r].last() == r);
}

/// The hotspot and the size of a cursor are its image's.
pub proof fn lemma_cursor_is_its_image(i: CursorImageView)
    requires
        i.width < 0x8000,
        i.height < 0x8000,
        i.xhot < 0x8000,
        i.yhot < 0x8000,
    ensures
        ({
            let c = cursor_of(i);
            &&& c.width == i.width
            &&& c.height == i.height
            &&& c.hotspot_x == i.xhot
            &&& c.hotspot_y == i.yhot
            &&& c.pixels.len() == i.pixels.len() / 4
        }),
{
}

/// A drag that is given up is over. Its target's offers are dead, and its source is
/// cancelled.
pub proof fn lemma_given_up_drag(s: StateView, d: DragView, i: int)
    requires
        s.data.drag == Some(d),
        0 <= i < d.focus_offers.len(),
        s.data.data_offers.has(d.focus_offers[i]),
    ensures
        ({
            let t = s.cancel_drag();
            &&& t.data.drag is None
            &&& t.data.data_offers.at(d.focus_offers[i]).source is None
            &&& d.source is Some && s.data.data_sources.has(d.source->0) ==> t.data.data_sources.at(d.source->0).cancelled
            &&& t.dirty
        }),
{
    let left = s.set_drag(None).leave_focus(d.focus);
    lemma_cut_dead(left, d.focus_offers, i);
}

proof fn lemma_cut_dead(s: StateView, offers: Seq<ClientObjectId>, i: int)
    requires
        0 <= i < offers.len(),
        s.data.data_offers.has(offers[i]),
    ensures
        s.invalidate_each(offers).data.data_offers.has(offers[i]),
        s.invalidate_each(offers).data.data_offers.at(offers[i]).source is None,
        s.invalidate_each(offers).data.drag == s.data.drag,
        s.invalidate_each(offers).data.data_sources == s.data.data_sources,
    decreases offers.len(),
{
    lemma_cut_keeps(s, offers.drop_last(), offers[i]);
    if i < offers.len() - 1 {
        assert(offers.drop_last()[i] == offers[i]);
        lemma_cut_dead(s, offers.drop_last(), i);
    }
}

proof fn lemma_cut_keeps(s: StateView, offers: Seq<ClientObjectId>, k: ClientObjectId)
    ensures
        s.invalidate_each(offers).data.data_offers.has(k) == s.data.data_offers.has(k),
        s.invalidate_each(offers).data.drag == s.data.drag,
        s.invalidate_each(offers).data.data_sources == s.data.data_sources,
    decreases offers.len(),
{
    if offers.len() > 0 {
        lemma_cut_keeps(s, offers.drop_last(), k);
    }
}

/// A drag that enters a device of a client tells it of what is dragged, if there is
/// anything, and then where the drag is.
pub proof fn lemma_drag_enters_a_device(
    s: StateView,
    surface: ClientObjectId,
    at: (i32, i32),
    source: Option<ClientObjectId>,
    actions: u32,
    device: u32,
)
    requires
        s.clients.has(surface.0),
        s.clients.at(surface.0).next_server_id < u32::MAX,
    ensures
        ({
            let t = s.enter_device(surface, at, source, actions, device);
            let id = s.clients.at(surface.0).next_server_id;
            &&& match t.clients.at(surface.0).outbox.last() {
                MessageView::Notice(Notice::DragEnter { serial, device: d, surface: over, x, y, offer }) => {
                    &&& d == device
                    &&& over == surface.1
                    &&& x == at.0
                    &&& y == at.1
                    &&& source is Some ==> offer == Some(id)
                    &&& source is None ==> offer is None
                },
                _ => false,
            }
            &&& source is Some ==> {
                &&& t.data.data_offers.has((surface.0, id))
                &&& t.data.data_offers.at((surface.0, id)).source == source
                &&& t.data.data_offers.at((surface.0, id)).kind is Drag
            }
        }),
{
}

/// Making a window fullscreen raises it over the others, and maximising it does
/// not.
pub proof fn lemma_fullscreen_is_raised<S: Shell>(s: StateView, shell: S, toplevel: ClientObjectId, maximized: bool)
    requires
        s.win.xdg_toplevels.has(toplevel),
        !s.win.xdg_toplevels.at(toplevel).fullscreen,
        !s.win.xdg_toplevels.at(toplevel).maximized,
        s.surface_of_toplevel(toplevel) is Some,
        s.output_to_fill(shell, toplevel) is Some,
    ensures
        s.set_window_state(shell, toplevel, true, false).hooks == s.hooks,
        exists|raised: Seq<Hook>|
            s.set_window_state(shell, toplevel, maximized, true).hooks == #[trigger] (s.hooks + raised) && forall|i: int|
                0 <= i < raised.len() ==> #[trigger] raised[i] is Raise,
{
    let surface = s.surface_of_toplevel(toplevel)->0;
    let place = s.filling(s.output_to_fill(shell, toplevel)->0, true);
    let free = s.ungrabbed(toplevel);
    let moved = free.mark_filling(toplevel, free.place_of(surface), maximized, true).set_position(surface, place.0);
    let raised = moved.raises(moved.toplevel_family(toplevel));
    lemma_raises(moved, moved.toplevel_family(toplevel));
    assert(s.set_window_state(shell, toplevel, maximized, true).hooks == s.hooks + raised);
}

proof fn lemma_raises(s: StateView, keys: Seq<ClientObjectId>)
    ensures
        forall|i: int| 0 <= i < s.raises(keys).len() ==> #[trigger] s.raises(keys)[i] is Raise,
    decreases keys.len(),
{
    if keys.len() > 0 {
        lemma_raises(s, keys.drop_last());
    }
}

/// A surface that comes onto an output is told so on each object its client has for
/// the output, and one that leaves it is told that.
pub proof fn lemma_surface_is_told_of_an_output(s: StateView, surface: ClientObjectId, object: ClientObjectId)
    requires
        s.clients.has(surface.0),
    ensures
        says(
            s.tell_objects(surface, 0, seq![object]).clients.at(surface.0).outbox.last(),
            surface.1,
            0,
            seq![ArgView::Uint(object.1)],
        ),
        ({
            let e = Seen { surface, output: 0 };
            &&& s.enter(e) == if s.bound_output_objects(surface.0, 0).len() == 0 {
                s
            } else {
                s.tell_objects(surface, 0, s.bound_output_objects(surface.0, 0)).edit_surface(
                    surface,
                    entered(0),
                )
            }
            &&& s.depart(e) == s.tell_objects(surface, 1, s.bound_output_objects(surface.0, 0)).edit_surface(
                surface,
                departed(0),
            )
        }),
{
    assert(seq![object].last() == object);
    assert(seq![object].drop_last() =~= Seq::<ClientObjectId>::empty());
    assert(s.tell_objects(surface, 0, seq![object].drop_last()) == s);
}

/// The pointer is on what was clicked, whose client is told on every pointer that it
/// has come, if it was not there before.
pub proof fn lemma_click_enters(s: StateView, hit: HitResult)
    ensures
        s.enter_clicked(hit).input.pointer_surface == Some(hit.surface),
        s.input.pointer_surface == Some(hit.surface) ==> s.enter_clicked(hit) == s,
        s.input.pointer_surface != Some(hit.surface) ==> s.enter_clicked(hit) == s.set_pointed(
            Some(hit.surface),
        ).pointers_entered(hit, s.input.pointers.len()),
{
    lemma_entered_keeps_pointed(s.set_pointed(Some(hit.surface)), hit, s.input.pointers.len());
}

proof fn lemma_entered_keeps_pointed(s: StateView, hit: HitResult, n: nat)
    ensures
        s.pointers_entered(hit, n).input == s.input,
    decreases n,
{
    if n > 0 && n <= s.input.pointers.len() {
        lemma_entered_keeps_pointed(s, hit, (n - 1) as nat);
    }
}

/// There are thirty-four shapes a pointer can be asked to have, from one on. Any
/// other is refused. One that is quoted against an enter long past is left alone.
pub proof fn lemma_shapes_there_are(s: StateView, msg: ClientMessage, serial: u32, shape: u32)
    requires
        msg.word(0) == Some(serial),
        msg.word(1) == Some(shape),
        s.clients.has(msg.client_id),
    ensures
        shape_names(shape) is Some <==> 1 <= shape <= 34,
        !(1 <= shape <= 34) ==> s.shape_checked(msg).clients.at(msg.client_id).cancelled,
        1 <= shape <= 34 ==> s.shape_checked(msg) == s,
        s.shape_asked(msg) is Some <==> 1 <= shape <= 34 && s.input.pointer_enter_serial.has(msg.client_id)
            && s.input.pointer_enter_serial.at(msg.client_id) == serial,
{
}

} // verus!
