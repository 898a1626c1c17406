//! A client that goes leaves nothing behind.
use crate::laws::exchange::{lemma_announce_selections, same_sources};
use crate::seqs::lemma_filter_facts;
use crate::state::compositor_state::{
    ExchangeView, InputsView, LayersView, MemoryView, StateView, SurfacesView, WindowsView,
};
use crate::state::drags::DragEvent;
use crate::state::selections::Which;
use crate::state::teardown::{
    not_mine, not_owned, of_other, other_key, own_key, Owned, params_fds, plane_fds,
};
use crate::state::types::{
    Buffer, BufferParamsView, BufferView, ClientObjectId, DataControlDeviceBinding,
    DataDeviceBinding, DataOffer, DecorationState, DragView, Hook, KeyboardBinding,
    LayerSurfaceState, PendingImport, PendingPlane, PointerBinding, PrimaryDeviceBinding, Region,
    ShmPool, Surface, TouchBinding, ViewportState, XdgPopupState, XdgPositionerState,
    XdgSurfaceState, XdgToplevelState,
};
use crate::table::{Dict, lemma_set_without};
use vstd::prelude::*;

verus! {

/// Whether no entry is under a key of a client.
pub open spec fn no_keys_of<V>(d: Dict<ClientObjectId, V>, client_id: u32) -> bool {
    forall|k: ClientObjectId| #[trigger] d.has(k) ==> k.0 != client_id
}

/// Whether no object of a list is a client's.
pub open spec fn none_of(s: Seq<ClientObjectId>, client_id: u32) -> bool {
    forall|i: int| 0 <= i < s.len() ==> (#[trigger] s[i]).0 != client_id
}

/// Whether no entry belongs to a client.
pub open spec fn none_owned<V: Owned>(d: Dict<ClientObjectId, V::V>, client_id: u32) -> bool {
    forall|k: ClientObjectId| #[trigger] d.has(k) ==> V::owner_of(d.at(k)) != client_id
}

/// Whether no binding of a list belongs to a client.
pub open spec fn none_bound<T: Owned>(s: Seq<T>, client_id: u32) -> bool {
    forall|i: int| 0 <= i < s.len() ==> T::owner_of((#[trigger] s[i])@) != client_id
}

/// Whether no import was asked for by a client.
pub open spec fn none_asked(d: Dict<u64, PendingImport>, client_id: u32) -> bool {
    forall|token: u64| #[trigger] d.has(token) ==> d.at(token).client_id != client_id
}

/// Whether nothing of a client's surfaces is left.
pub open spec fn surfaces_gone(s: SurfacesView, client_id: u32) -> bool {
    &&& none_owned::<Surface>(s.surfaces, client_id)
    &&& none_owned::<Region>(s.regions, client_id)
    &&& none_owned::<ViewportState>(s.viewports, client_id)
    &&& no_keys_of(s.surface_viewport, client_id)
    &&& no_keys_of(s.subsurface_map, client_id)
    &&& no_keys_of(s.fractional_scales, client_id)
    &&& none_of(s.cursor_role_surfaces, client_id)
    &&& none_of(s.dnd_icon_surfaces, client_id)
}

/// Whether nothing of a client's windows is left.
pub open spec fn windows_gone(w: WindowsView, client_id: u32) -> bool {
    &&& none_owned::<XdgToplevelState>(w.xdg_toplevels, client_id)
    &&& none_owned::<XdgPopupState>(w.xdg_popups, client_id)
    &&& none_owned::<XdgSurfaceState>(w.xdg_surfaces, client_id)
    &&& none_owned::<XdgPositionerState>(w.xdg_positioners, client_id)
    &&& none_owned::<DecorationState>(w.decorations, client_id)
    &&& no_keys_of(w.toplevel_decoration, client_id)
    &&& none_of(w.grabbed_popups, client_id)
    &&& w.pointer_grab is Some ==> (w.pointer_grab->0).surface.0 != client_id
    &&& w.resize_anchor is Some ==> (w.resize_anchor->0).surface.0 != client_id
}

/// Whether nothing of a client's layer surfaces is left.
pub open spec fn layers_gone(l: LayersView, client_id: u32) -> bool {
    &&& none_owned::<LayerSurfaceState>(l.layer_surfaces, client_id)
    &&& no_keys_of(l.surface_layer, client_id)
}

/// Whether no input goes to a client.
pub open spec fn inputs_gone(i: InputsView, client_id: u32) -> bool {
    &&& none_bound::<PointerBinding>(i.pointers, client_id)
    &&& none_bound::<KeyboardBinding>(i.keyboards, client_id)
    &&& none_bound::<TouchBinding>(i.touches, client_id)
    &&& forall|id: i32| #[trigger] i.touch_points.has(id) ==> i.touch_points.at(id).0 != client_id
    &&& !i.pointer_enter_serial.has(client_id)
    &&& !i.last_button_serial.has(client_id)
    &&& !i.recent_input_serials.has(client_id)
    &&& i.focused_surface is Some ==> (i.focused_surface->0).0 != client_id
    &&& i.pointer_surface is Some ==> (i.pointer_surface->0).0 != client_id
}

/// Whether nothing a client offers, holds or was offered is left, with anyone.
pub open spec fn exchange_gone(e: ExchangeView, client_id: u32) -> bool {
    &&& no_keys_of(e.data_sources, client_id)
    &&& none_owned::<DataOffer>(e.data_offers, client_id)
    &&& none_bound::<DataDeviceBinding>(e.data_devices, client_id)
    &&& none_bound::<PrimaryDeviceBinding>(e.primary_devices, client_id)
    &&& none_bound::<DataControlDeviceBinding>(e.data_control_devices, client_id)
    &&& e.selection is Some ==> (e.selection->0).0 != client_id
    &&& e.primary_selection is Some ==> (e.primary_selection->0).0 != client_id
    &&& e.drag is Some ==> (e.drag->0).origin_client != client_id
    &&& e.drag is Some && (e.drag->0).focus is Some ==> ((e.drag->0).focus->0).0 != client_id
    &&& no_offer_from(e, client_id)
}

/// Whether no offer, of whichever client, draws from a source of a client.
pub open spec fn no_offer_from(e: ExchangeView, client_id: u32) -> bool {
    forall|k: ClientObjectId|
        #[trigger] e.data_offers.has(k) ==> e.data_offers.at(k).source is Some ==> (e.data_offers.at(k).source->0).0
            != client_id
}

/// Whether nothing of a client's buffers and pools, nor of what it was importing,
/// is left.
pub open spec fn buffers_gone(m: MemoryView, client_id: u32) -> bool {
    &&& none_owned::<Buffer>(m.buffers, client_id)
    &&& no_keys_of(m.buffer_guards, client_id)
    &&& no_keys_of(m.dmabuf_params, client_id)
    &&& none_asked(m.pending_dmabuf_imports, client_id)
    &&& none_of(m.releasing_buffers, client_id)
    &&& none_of(m.buffers_pending_release, client_id)
    &&& no_pools_of(m.shm_pools, client_id)
}

/// Whether no pool is under a key of a client and belongs to it.
pub open spec fn no_pools_of(d: Dict<ClientObjectId, ShmPool>, client_id: u32) -> bool {
    forall|k: ClientObjectId| #[trigger] d.has(k) ==> !(k.0 == client_id && d.at(k).client_id == client_id)
}

/// Whether nothing of a client is left anywhere.
pub open spec fn client_gone(s: StateView, client_id: u32) -> bool {
    &&& surfaces_gone(s.surf, client_id)
    &&& windows_gone(s.win, client_id)
    &&& layers_gone(s.layers, client_id)
    &&& inputs_gone(s.input, client_id)
    &&& exchange_gone(s.data, client_id)
    &&& buffers_gone(s.mem, client_id)
    &&& no_keys_of(s.out.output_bindings, client_id)
    &&& !s.cursors.cursor_surfaces.has(client_id)
    &&& !s.cursors.cursor_shapes.has(client_id)
}

/// Whether two states differ at most in what is exchanged, what clients are
/// told, and whether there is something to draw.
pub open spec fn same_outside_exchange(a: StateView, b: StateView) -> bool {
    &&& b.surf == a.surf
    &&& b.win == a.win
    &&& b.layers == a.layers
    &&& b.mem == a.mem
    &&& b.input == a.input
    &&& b.out == a.out
    &&& b.cursors == a.cursors
}

proof fn lemma_kept_owned<V: Owned>(d: Dict<ClientObjectId, V::V>, client_id: u32)
    ensures
        none_owned::<V>(d.keep(not_owned::<V>(client_id)), client_id),
{
}

proof fn lemma_kept_keys<V>(d: Dict<ClientObjectId, V>, client_id: u32)
    ensures
        no_keys_of(d.keep(other_key::<V>(client_id)), client_id),
{
}

proof fn lemma_kept_list(s: Seq<ClientObjectId>, client_id: u32)
    ensures
        none_of(s.filter(of_other(client_id)), client_id),
{
    let kept = s.filter(of_other(client_id));
    lemma_filter_facts(s, of_other(client_id));
    assert forall|i: int| 0 <= i < kept.len() implies (#[trigger] kept[i]).0 != client_id by {
        assert(kept.contains(kept[i]));
    }
}

proof fn lemma_kept_bound<T: Owned>(s: Seq<T>, client_id: u32)
    ensures
        none_bound::<T>(s.filter(not_mine::<T>(client_id)), client_id),
{
    let kept = s.filter(not_mine::<T>(client_id));
    lemma_filter_facts(s, not_mine::<T>(client_id));
    assert forall|i: int| 0 <= i < kept.len() implies T::owner_of((#[trigger] kept[i])@) != client_id by {
        assert(kept.contains(kept[i]));
    }
}

proof fn lemma_primary_outside(s: StateView, c: u32, devices: Seq<PrimaryDeviceBinding>)
    ensures
        same_outside_exchange(s, s.primary_to_devices(c, devices)),
        s.primary_to_devices(c, devices).data.drag == s.data.drag,
    decreases devices.len(),
{
    if devices.len() > 0 {
        lemma_primary_outside(s, c, devices.drop_last());
    }
}

proof fn lemma_control_outside(s: StateView, devices: Seq<DataControlDeviceBinding>, which: Which)
    ensures
        same_outside_exchange(s, s.control_to_devices(devices, which)),
        s.control_to_devices(devices, which).data.drag == s.data.drag,
    decreases devices.len(),
{
    if devices.len() > 0 {
        lemma_control_outside(s, devices.drop_last(), which);
    }
}

pub proof fn lemma_announce_outside(s: StateView, which: Which)
    ensures
        same_outside_exchange(s, s.announce(which)),
        s.announce(which).data.drag == s.data.drag,
{
    if let Some(f) = s.input.focused_surface {
        if which is Primary {
            lemma_primary_outside(s, f.0, s.data.primary_devices);
        }
    }
    let told = s.tell_focused(which);
    lemma_control_outside(told, told.data.data_control_devices, which);
}

proof fn lemma_invalidate_outside(s: StateView, offers: Seq<ClientObjectId>)
    ensures
        same_outside_exchange(s, s.invalidate_each(offers)),
        same_sources(s, s.invalidate_each(offers)),
        s.invalidate_each(offers).data.drag == s.data.drag,
    decreases offers.len(),
{
    if offers.len() > 0 {
        lemma_invalidate_outside(s, offers.drop_last());
    }
}

proof fn lemma_cancel_drag_outside(s: StateView)
    ensures
        same_outside_exchange(s, s.cancel_drag()),
        s.cancel_drag().data.drag is None,
{
    if let Some(d) = s.data.drag {
        let left = s.set_drag(None).leave_focus(d.focus);
        lemma_invalidate_outside(left, d.focus_offers);
    }
}

proof fn lemma_unwind(s: StateView, client_id: u32)
    ensures
        same_outside_exchange(s, s.unwind_exchange_of(client_id)),
        exchange_gone(s.unwind_exchange_of(client_id).data, client_id),
{
    let undragged = s.drag_loses_client(client_id);
    lemma_cancel_drag_outside(s);
    assert(same_outside_exchange(s, undragged));
    assert(undragged.data.drag is Some ==> (undragged.data.drag->0).origin_client != client_id);
    let clipped = undragged.selection_loses_client(Which::Clipboard, client_id);
    lemma_announce_outside(undragged.hold(Which::Clipboard, None), Which::Clipboard);
    lemma_announce_selections(undragged.hold(Which::Clipboard, None), Which::Clipboard);
    assert(clipped.data.selection is Some ==> (clipped.data.selection->0).0 != client_id);
    let cleared = clipped.selection_loses_client(Which::Primary, client_id);
    lemma_announce_outside(clipped.hold(Which::Primary, None), Which::Primary);
    lemma_announce_selections(clipped.hold(Which::Primary, None), Which::Primary);
    let loose = cleared.invalidate_sources_of(client_id);
    assert(no_offer_from(loose.data, client_id));
    lemma_kept_keys(loose.data.data_sources, client_id);
    lemma_kept_owned::<DataOffer>(loose.data.data_offers, client_id);
    lemma_kept_bound::<DataDeviceBinding>(loose.data.data_devices, client_id);
    lemma_kept_bound::<PrimaryDeviceBinding>(loose.data.primary_devices, client_id);
    lemma_kept_bound::<DataControlDeviceBinding>(loose.data.data_control_devices, client_id);
}

proof fn lemma_pools_outside(s: StateView, client_id: u32, keys: Seq<ClientObjectId>)
    ensures
        s.destroy_pools(client_id, keys).surf == s.surf,
        s.destroy_pools(client_id, keys).win == s.win,
        s.destroy_pools(client_id, keys).layers == s.layers,
        s.destroy_pools(client_id, keys).input == s.input,
        s.destroy_pools(client_id, keys).data == s.data,
        s.destroy_pools(client_id, keys).out == s.out,
        s.destroy_pools(client_id, keys).cursors == s.cursors,
        s.destroy_pools(client_id, keys).mem.buffers == s.mem.buffers,
        s.destroy_pools(client_id, keys).mem.buffer_guards == s.mem.buffer_guards,
        s.destroy_pools(client_id, keys).mem.dmabuf_params == s.mem.dmabuf_params,
        s.destroy_pools(client_id, keys).mem.pending_dmabuf_imports == s.mem.pending_dmabuf_imports,
        s.destroy_pools(client_id, keys).mem.releasing_buffers == s.mem.releasing_buffers,
        s.destroy_pools(client_id, keys).mem.buffers_pending_release == s.mem.buffers_pending_release,
    decreases keys.len(),
{
    if keys.len() > 0 {
        lemma_pools_outside(s, client_id, keys.drop_last());
    }
}

proof fn lemma_objects_gone(s: StateView, client_id: u32)
    ensures
        ({
            let t = s.forget_objects_of(client_id);
            &&& none_owned::<Surface>(t.surf.surfaces, client_id)
            &&& none_owned::<Region>(t.surf.regions, client_id)
            &&& none_owned::<ViewportState>(t.surf.viewports, client_id)
            &&& no_keys_of(t.surf.surface_viewport, client_id)
            &&& no_keys_of(t.surf.subsurface_map, client_id)
            &&& none_of(t.surf.cursor_role_surfaces, client_id)
            &&& windows_gone(t.win, client_id)
            &&& layers_gone(t.layers, client_id)
            &&& none_owned::<Buffer>(t.mem.buffers, client_id)
            &&& no_keys_of(t.mem.buffer_guards, client_id)
            &&& no_keys_of(t.mem.dmabuf_params, client_id)
            &&& none_asked(t.mem.pending_dmabuf_imports, client_id)
            &&& none_of(t.mem.releasing_buffers, client_id)
            &&& no_keys_of(t.out.output_bindings, client_id)
            &&& !t.cursors.cursor_surfaces.has(client_id)
            &&& !t.cursors.cursor_shapes.has(client_id)
        }),
{
    let bare = s.forget_buffers_of(client_id).forget_imports_of(client_id);
    lemma_kept_owned::<Buffer>(s.mem.buffers, client_id);
    lemma_kept_keys(s.mem.buffer_guards, client_id);
    lemma_kept_keys(s.mem.dmabuf_params, client_id);
    lemma_kept_list(s.mem.releasing_buffers, client_id);
    lemma_pools_outside(bare, client_id, bare.pools_of(client_id));
    lemma_kept_owned::<Surface>(s.surf.surfaces, client_id);
    lemma_kept_owned::<Region>(s.surf.regions, client_id);
    lemma_kept_owned::<ViewportState>(s.surf.viewports, client_id);
    lemma_kept_keys(s.surf.surface_viewport, client_id);
    lemma_kept_keys(s.surf.subsurface_map, client_id);
    lemma_kept_list(s.surf.cursor_role_surfaces, client_id);
    lemma_kept_owned::<XdgToplevelState>(s.win.xdg_toplevels, client_id);
    lemma_kept_owned::<XdgPopupState>(s.win.xdg_popups, client_id);
    lemma_kept_owned::<XdgSurfaceState>(s.win.xdg_surfaces, client_id);
    lemma_kept_owned::<XdgPositionerState>(s.win.xdg_positioners, client_id);
    lemma_kept_owned::<DecorationState>(s.win.decorations, client_id);
    lemma_kept_keys(s.win.toplevel_decoration, client_id);
    lemma_kept_list(s.win.grabbed_popups, client_id);
    lemma_kept_owned::<LayerSurfaceState>(s.layers.layer_surfaces, client_id);
    lemma_kept_keys(s.layers.surface_layer, client_id);
    lemma_kept_keys(s.out.output_bindings, client_id);
}

proof fn lemma_inputs_gone(s: StateView, client_id: u32)
    ensures
        inputs_gone(s.forget_inputs_of(client_id).focus_leaves_client(client_id).input, client_id),
{
    lemma_kept_bound::<PointerBinding>(s.input.pointers, client_id);
    lemma_kept_bound::<KeyboardBinding>(s.input.keyboards, client_id);
    lemma_kept_bound::<TouchBinding>(s.input.touches, client_id);
}

/// Once a client's resources are removed nothing of it is left: no surface,
/// window, layer surface, pool, buffer, import, input device, focus, selection, source,
/// offer, drag or cursor.
pub proof fn lemma_removed_client_is_gone(s: StateView, client_id: u32)
    requires
        s.mem.shm_pools.ok(),
    ensures
        client_gone(s.remove_client_resources(client_id), client_id),
{
    let objects = s.forget_objects_of(client_id);
    lemma_objects_gone(s, client_id);
    let waiting = objects.hook(Hook::ClientRemoved(client_id)).forget_pending_of(client_id);
    lemma_kept_list(objects.mem.buffers_pending_release, client_id);
    let unwound = waiting.unwind_exchange_of(client_id);
    lemma_unwind(waiting, client_id);
    let asked = unwound.forget_questions_of(client_id);
    lemma_kept_keys(unwound.surf.fractional_scales, client_id);
    lemma_kept_list(unwound.surf.dnd_icon_surfaces, client_id);
    let done = asked.focus_leaves_client(client_id);
    assert(done == s.remove_client_resources(client_id));
    let bare = s.forget_buffers_of(client_id).forget_imports_of(client_id);
    let pools = bare.destroy_pools(client_id, bare.pools_of(client_id));
    lemma_pools_outside(bare, client_id, bare.pools_of(client_id));
    lemma_kept_owned::<Buffer>(s.mem.buffers, client_id);
    lemma_pools_gone(bare, client_id);
    assert(done.mem.shm_pools == pools.mem.shm_pools);
    lemma_inputs_gone(s, client_id);
    assert(done.input == s.forget_inputs_of(client_id).focus_leaves_client(client_id).input);
}

/// Removing a client's resources leaves every other client's surfaces and
/// windows as they were.
pub proof fn lemma_other_clients_stay(s: StateView, client_id: u32, key: ClientObjectId)
    requires
        s.surf.surfaces.has(key),
        s.surf.surfaces.at(key).client_id != client_id,
    ensures
        s.remove_client_resources(client_id).surf.surfaces.has(key),
        s.remove_client_resources(client_id).surf.surfaces.at(key) == s.surf.surfaces.at(key),
{
    let objects = s.forget_objects_of(client_id);
    let bare = s.forget_buffers_of(client_id).forget_imports_of(client_id);
    lemma_pools_outside(bare, client_id, bare.pools_of(client_id));
    let waiting = objects.hook(Hook::ClientRemoved(client_id)).forget_pending_of(client_id);
    lemma_unwind(waiting, client_id);
}

/// Removing a client's resources takes exactly its own layer surfaces, and no
/// output.
pub proof fn lemma_other_panels_stay(s: StateView, client_id: u32)
    ensures
        s.remove_client_resources(client_id).layers.layer_surfaces == s.layers.layer_surfaces.keep(
            not_owned::<LayerSurfaceState>(client_id),
        ),
        s.remove_client_resources(client_id).out.outputs == s.out.outputs,
{
    let objects = s.forget_objects_of(client_id);
    let bare = s.forget_buffers_of(client_id).forget_imports_of(client_id);
    lemma_pools_outside(bare, client_id, bare.pools_of(client_id));
    let waiting = objects.hook(Hook::ClientRemoved(client_id)).forget_pending_of(client_id);
    lemma_unwind(waiting, client_id);
}

/// Once a surface is destroyed no input goes to it, no parent has it as a child
/// and no drag shows it.
pub proof fn lemma_destroyed_surface_is_gone(s: StateView, client_id: u32, surface_id: u32)
    requires
        s.parent_of(client_id, surface_id) is Some ==> s.parent_of(client_id, surface_id) != Some(surface_id),
    ensures
        ({
            let key = (client_id, surface_id);
            let t = s.destroy_surface(client_id, surface_id);
            &&& !t.surf.surfaces.has(key)
            &&& t.input.pointer_surface != Some(key)
            &&& t.input.focused_surface != Some(key)
            &&& forall|id: i32| #[trigger] t.input.touch_points.has(id) ==> t.input.touch_points.at(id) != key
            &&& match s.parent_of(client_id, surface_id) {
                Some(p) => t.surf.surfaces.has((client_id, p)) ==> !t.surf.surfaces.at(
                    (client_id, p),
                ).children.contains(surface_id),
                None => true,
            }
        }),
{
    let key = (client_id, surface_id);
    let loose = s.forget_surface(key).input_leaves(key).drop_child(
        client_id,
        s.parent_of(client_id, surface_id),
        surface_id,
    );
    lemma_drag_loses_outside(loose, key);
    if let Some(p) = s.parent_of(client_id, surface_id) {
        let parent = (client_id, p);
        if s.surf.surfaces.has(parent) {
            let children = s.surf.surfaces.at(parent).children;
            lemma_filter_facts(children, |x: u32| x != surface_id);
            lemma_set_without(children, surface_id, |x: u32| x != surface_id);
        }
    }
}

proof fn lemma_refuse_outside(s: StateView, offers: Seq<ClientObjectId>)
    ensures
        same_outside_exchange(s, s.refuse_each(offers)),
    decreases offers.len(),
{
    if offers.len() > 0 {
        lemma_refuse_outside(s, offers.drop_last());
    }
}

proof fn lemma_drag_loses_outside(s: StateView, key: ClientObjectId)
    ensures
        same_outside_exchange(s, s.drag_loses_surface(key)),
{
    lemma_cancel_drag_outside(s);
    if let Some(d) = s.data.drag {
        let bare = if d.icon == Some(key) {
            s.set_drag(Some(DragView { icon: None, ..d })).dirtied()
        } else {
            s
        };
        lemma_end_focus_outside(bare);
    }
}

proof fn lemma_end_focus_outside(s: StateView)
    ensures
        same_outside_exchange(s, s.end_drag_focus()),
{
    if let Some(d) = s.data.drag {
        if let Some(focus) = d.focus {
            lemma_refuse_outside(s.drag_event(focus.0, DragEvent::Leave), d.focus_offers);
        }
    }
}

proof fn lemma_pools_destroyed(s: StateView, client_id: u32, keys: Seq<ClientObjectId>, key: ClientObjectId)
    requires
        none_owned::<Buffer>(s.mem.buffers, client_id),
        key.0 == client_id,
        !s.mem.shm_pools.has(key) || keys.contains(key),
    ensures
        !s.destroy_pools(client_id, keys).mem.shm_pools.has(key),
    decreases keys.len(),
{
    if keys.len() > 0 {
        let before = s.destroy_pools(client_id, keys.drop_last());
        lemma_pools_outside(s, client_id, keys.drop_last());
        let last = (client_id, keys.last().1);
        let dead = before.mark_pool_dead(last);
        assert(!dead.pool_in_use(client_id, keys.last().1)) by {
            let p = |k: ClientObjectId, b: BufferView| b.client_id == client_id && b.in_pool(keys.last().1);
            if dead.mem.buffers.any(p) {
                let k = choose|k: ClientObjectId| dead.mem.buffers.has(k) && #[trigger] p(k, dead.mem.buffers.at(k));
                assert(s.mem.buffers.has(k));
            }
        }
        if key != last {
            if s.mem.shm_pools.has(key) {
                let i = choose|i: int| 0 <= i < keys.len() && keys[i] == key;
                assert(keys.drop_last()[i] == key);
            }
            lemma_pools_destroyed(s, client_id, keys.drop_last(), key);
        }
    }
}

proof fn lemma_pools_kept(s: StateView, client_id: u32, keys: Seq<ClientObjectId>, key: ClientObjectId)
    requires
        s.destroy_pools(client_id, keys).mem.shm_pools.has(key),
    ensures
        s.mem.shm_pools.has(key),
        s.destroy_pools(client_id, keys).mem.shm_pools.at(key).client_id == s.mem.shm_pools.at(key).client_id,
    decreases keys.len(),
{
    if keys.len() > 0 {
        lemma_pools_kept(s, client_id, keys.drop_last(), key);
    }
}

proof fn lemma_pools_gone(s: StateView, client_id: u32)
    requires
        s.mem.shm_pools.ok(),
        none_owned::<Buffer>(s.mem.buffers, client_id),
    ensures
        no_pools_of(s.destroy_pools(client_id, s.pools_of(client_id)).mem.shm_pools, client_id),
{
    let keys = s.pools_of(client_id);
    let after = s.destroy_pools(client_id, keys).mem.shm_pools;
    let p = |k: ClientObjectId, x: ShmPool| x.client_id == client_id;
    let q = |k: ClientObjectId| p(k, s.mem.shm_pools.map[k]);
    lemma_filter_facts(s.mem.shm_pools.order, q);
    assert forall|k: ClientObjectId| #[trigger] after.has(k) implies !(k.0 == client_id && after.at(k).client_id
        == client_id) by {
        lemma_pools_kept(s, client_id, keys, k);
        if k.0 == client_id && after.at(k).client_id == client_id {
            assert(s.mem.shm_pools.order.contains(k));
            assert(s.mem.shm_pools.order.filter(q).contains(k));
            assert(keys.contains(k));
            lemma_pools_destroyed(s, client_id, keys, k);
        }
    }
}

proof fn lemma_plane_among(planes: Seq<Option<PendingPlane>>, i: int)
    requires
        0 <= i < planes.len(),
        planes[i] is Some,
    ensures
        plane_fds(planes).contains((planes[i]->0).fd),
    decreases planes.len(),
{
    let fd = (planes[i]->0).fd;
    let rest = plane_fds(planes.drop_last());
    if i == planes.len() - 1 {
        assert(plane_fds(planes)[rest.len() as int] == fd);
    } else {
        assert(planes.drop_last()[i] == planes[i]);
        lemma_plane_among(planes.drop_last(), i);
        let j = choose|j: int| 0 <= j < rest.len() && rest[j] == fd;
        assert(plane_fds(planes)[j] == fd);
    }
}

proof fn lemma_params_among(params: Dict<ClientObjectId, BufferParamsView>, keys: Seq<ClientObjectId>, n: int, fd: i32)
    requires
        0 <= n < keys.len(),
        plane_fds(params.at(keys[n]).planes).contains(fd),
    ensures
        params_fds(params, keys).contains(fd),
    decreases keys.len(),
{
    let rest = params_fds(params, keys.drop_last());
    let last = plane_fds(params.at(keys.last()).planes);
    if n == keys.len() - 1 {
        let j = choose|j: int| 0 <= j < last.len() && last[j] == fd;
        assert(params_fds(params, keys)[rest.len() + j] == fd);
    } else {
        assert(keys.drop_last()[n] == keys[n]);
        lemma_params_among(params, keys.drop_last(), n, fd);
        let j = choose|j: int| 0 <= j < rest.len() && rest[j] == fd;
        assert(params_fds(params, keys)[j] == fd);
    }
}

proof fn lemma_pool_keeps_closed(s: StateView, client_id: u32, pool_id: u32, fd: i32)
    requires
        s.mem.closed_fds.contains(fd),
    ensures
        s.destroy_shm_pool(client_id, pool_id).mem.closed_fds.contains(fd),
{
    let j = choose|j: int| 0 <= j < s.mem.closed_fds.len() && s.mem.closed_fds[j] == fd;
    assert(s.destroy_shm_pool(client_id, pool_id).mem.closed_fds[j] == fd);
}

proof fn lemma_pools_keep_closed(s: StateView, client_id: u32, keys: Seq<ClientObjectId>, fd: i32)
    requires
        s.mem.closed_fds.contains(fd),
    ensures
        s.destroy_pools(client_id, keys).mem.closed_fds.contains(fd),
    decreases keys.len(),
{
    if keys.len() > 0 {
        lemma_pools_keep_closed(s, client_id, keys.drop_last(), fd);
        lemma_pool_keeps_closed(s.destroy_pools(client_id, keys.drop_last()), client_id, keys.last().1, fd);
    }
}

/// Once a client's resources are removed every descriptor of a buffer it was
/// still describing is given up for closing.
pub proof fn lemma_described_descriptors_are_closed(s: StateView, client_id: u32, params_id: u32, i: int)
    requires
        s.mem.dmabuf_params.ok(),
        s.mem.dmabuf_params.has((client_id, params_id)),
        0 <= i < s.mem.dmabuf_params.at((client_id, params_id)).planes.len(),
        s.mem.dmabuf_params.at((client_id, params_id)).planes[i] is Some,
    ensures
        s.remove_client_resources(client_id).mem.closed_fds.contains(
            (s.mem.dmabuf_params.at((client_id, params_id)).planes[i]->0).fd,
        ),
{
    let key = (client_id, params_id);
    let params = s.mem.dmabuf_params;
    let fd = (params.at(key).planes[i]->0).fd;
    let p = own_key::<BufferParamsView>(client_id);
    let keys = params.keys_where(p);
    let q = |k: ClientObjectId| p(k, params.map[k]);
    lemma_filter_facts(params.order, q);
    assert(params.order.contains(key));
    assert(keys.contains(key));
    let n = choose|n: int| 0 <= n < keys.len() && keys[n] == key;
    lemma_plane_among(params.at(key).planes, i);
    lemma_params_among(params, keys, n, fd);
    let bare = s.forget_buffers_of(client_id).forget_imports_of(client_id);
    let gone = params_fds(params, keys);
    let j = choose|j: int| 0 <= j < gone.len() && gone[j] == fd;
    assert(bare.mem.closed_fds[s.mem.closed_fds.len() + j] == fd);
    lemma_pools_keep_closed(bare, client_id, bare.pools_of(client_id), fd);
    let waiting = s.forget_objects_of(client_id).hook(Hook::ClientRemoved(client_id)).forget_pending_of(client_id);
    lemma_unwind(waiting, client_id);
}

proof fn lemma_pools_leave(s: StateView, client_id: u32, keys: Seq<ClientObjectId>, key: ClientObjectId)
    requires
        s.mem.shm_pools.has(key),
        forall|n: int| 0 <= n < keys.len() ==> (client_id, (#[trigger] keys[n]).1) != key,
    ensures
        s.destroy_pools(client_id, keys).mem.shm_pools.has(key),
        s.destroy_pools(client_id, keys).mem.shm_pools.at(key) == s.mem.shm_pools.at(key),
    decreases keys.len(),
{
    if keys.len() > 0 {
        assert forall|n: int| 0 <= n < keys.drop_last().len() implies (client_id, (#[trigger] keys.drop_last()[n]).1)
            != key by {
            assert(keys.drop_last()[n] == keys[n]);
        }
        lemma_pools_leave(s, client_id, keys.drop_last(), key);
        assert((client_id, keys[keys.len() - 1].1) != key);
    }
}

proof fn lemma_pool_closed(s: StateView, client_id: u32, pool_id: u32)
    requires
        none_owned::<Buffer>(s.mem.buffers, client_id),
        s.mem.shm_pools.has((client_id, pool_id)),
    ensures
        s.destroy_shm_pool(client_id, pool_id).mem.closed_fds.contains(s.mem.shm_pools.at((client_id, pool_id)).fd),
{
    let dead = s.mark_pool_dead((client_id, pool_id));
    let fd = s.mem.shm_pools.at((client_id, pool_id)).fd;
    assert(!dead.pool_in_use(client_id, pool_id)) by {
        let p = |k: ClientObjectId, b: BufferView| b.client_id == client_id && b.in_pool(pool_id);
        if dead.mem.buffers.any(p) {
            let k = choose|k: ClientObjectId| dead.mem.buffers.has(k) && #[trigger] p(k, dead.mem.buffers.at(k));
            assert(s.mem.buffers.has(k));
        }
    }
    let closed = s.destroy_shm_pool(client_id, pool_id).mem.closed_fds;
    assert(closed[closed.len() - 1] == fd);
}

proof fn lemma_pools_closed(s: StateView, client_id: u32, keys: Seq<ClientObjectId>, n: int)
    requires
        none_owned::<Buffer>(s.mem.buffers, client_id),
        0 <= n < keys.len(),
        s.mem.shm_pools.has((client_id, keys[n].1)),
    ensures
        s.destroy_pools(client_id, keys).mem.closed_fds.contains(s.mem.shm_pools.at((client_id, keys[n].1)).fd),
    decreases keys.len(),
{
    let key = (client_id, keys[n].1);
    let rest = keys.drop_last();
    let before = s.destroy_pools(client_id, rest);
    lemma_pools_outside(s, client_id, rest);
    if exists|m: int| 0 <= m < rest.len() && (client_id, (#[trigger] rest[m]).1) == key {
        let m = choose|m: int| 0 <= m < rest.len() && (client_id, (#[trigger] rest[m]).1) == key;
        lemma_pools_closed(s, client_id, rest, m);
        lemma_pool_keeps_closed(before, client_id, keys.last().1, s.mem.shm_pools.at(key).fd);
    } else {
        if n < rest.len() {
            assert(rest[n] == keys[n]);
        }
        lemma_pools_leave(s, client_id, rest, key);
        lemma_pool_closed(before, client_id, keys.last().1);
    }
}

/// Once a client's resources are removed the descriptor of every pool of its is
/// given up for closing.
pub proof fn lemma_pool_descriptors_are_closed(s: StateView, client_id: u32, pool_id: u32)
    requires
        s.mem.shm_pools.ok(),
        s.mem.shm_pools.has((client_id, pool_id)),
        s.mem.shm_pools.at((client_id, pool_id)).client_id == client_id,
    ensures
        s.remove_client_resources(client_id).mem.closed_fds.contains(s.mem.shm_pools.at((client_id, pool_id)).fd),
{
    let key = (client_id, pool_id);
    let bare = s.forget_buffers_of(client_id).forget_imports_of(client_id);
    let keys = bare.pools_of(client_id);
    lemma_kept_owned::<Buffer>(s.mem.buffers, client_id);
    let p = |k: ClientObjectId, x: ShmPool| x.client_id == client_id;
    let q = |k: ClientObjectId| p(k, bare.mem.shm_pools.at(k));
    lemma_filter_facts(bare.mem.shm_pools.order, q);
    assert(bare.mem.shm_pools.order.contains(key));
    assert(bare.mem.shm_pools.order.filter(q).contains(key));
    assert(keys.contains(key));
    let n = choose|n: int| 0 <= n < keys.len() && keys[n] == key;
    lemma_pools_closed(bare, client_id, keys, n);
    let waiting = s.forget_objects_of(client_id).hook(Hook::ClientRemoved(client_id)).forget_pending_of(client_id);
    lemma_unwind(waiting, client_id);
}

} // verus!
