//! Replies: configures, globals, and what subsurfaces come to when they are freed.
use crate::laws::describing::says;
use crate::laws::pasting::{introduced, lemma_new_offer_is_introduced, queued_since};
use crate::laws::requests::in_reach;
use crate::protocol::messages::{MessageView, Notice};
use crate::protocol::wire_utils::{ArgView, ClientMessage};
use crate::protocol::wl_registry::{GlobalView, registries};
use crate::protocol::zwlr_layer_surface::AdoptRequest;
use crate::seqs::lemma_filter_facts;
use crate::shell::Shell;
use crate::state::compositor_state::StateView;
use crate::state::types::{
    ClientObjectId, DataInterface, DragView, Hook, KeyboardInteractivity, OfferKind, PointerGrab,
    SurfacePendingView, SurfaceView,
};
use crate::table::lemma_set_without;
use vstd::prelude::*;

verus! {

/// A configure tells the client the serial to answer with, which is the newest one
/// that may be answered.
pub proof fn lemma_configure_says_its_serial(s: StateView, client_id: u32, xdg: u32)
    requires
        s.clients.has(client_id),
        s.win.xdg_surfaces.has((client_id, xdg)),
    ensures
        ({
            let t = s.send_configure(client_id, xdg);
            let serial = t.win.xdg_surfaces.at((client_id, xdg)).highest_configure;
            &&& says(t.clients.at(client_id).outbox.last(), xdg, 0, seq![ArgView::Uint(serial)])
            &&& t.clients.at(client_id).outbox.len() == s.clients.at(client_id).outbox.len() + 1
            &&& serial == s.next_serial
        }),
{
}

/// A panel whose size has changed is told the size, with the serial to answer with,
/// and one whose size has not is told nothing. It is where it has been put.
pub proof fn lemma_panel_is_told_its_size(s: StateView, key: ClientObjectId)
    requires
        s.clients.has(key.0),
        s.layers.layer_surfaces.has(key),
        s.layer_geometry(key) is Some,
        (s.layer_geometry(key)->0).width >= 0,
        (s.layer_geometry(key)->0).height >= 0,
        s.surf.surfaces.has((key.0, s.layers.layer_surfaces.at(key).wl_surface_id)),
    ensures
        ({
            let g = s.layer_geometry(key)->0;
            let t = s.configure_layer(key);
            let l = t.layers.layer_surfaces.at(key);
            let surface = (key.0, s.layers.layer_surfaces.at(key).wl_surface_id);
            &&& t.surf.surfaces.at(surface).position == (g.x, g.y)
            &&& l.configured_size == Some((g.width, g.height))
            &&& s.layers.layer_surfaces.at(key).configured_size == Some((g.width, g.height)) ==> t.clients == s.clients
            &&& s.layers.layer_surfaces.at(key).configured_size != Some((g.width, g.height)) ==> {
                &&& says(
                    t.clients.at(key.0).outbox.last(),
                    key.1,
                    0,
                    seq![
                        ArgView::Uint(l.highest_configure),
                        ArgView::Uint(g.width as u32),
                        ArgView::Uint(g.height as u32),
                    ],
                )
                &&& l.pending_configures.last() == l.highest_configure
            }
        }),
{
}

/// A global that appears is told on every registry of every client, by its name,
/// its interface and its version. One that goes is told by its name.
pub proof fn lemma_globals_are_told(s: StateView, name: u32, g: GlobalView, client_id: u32, i: int)
    requires
        s.clients.has(client_id),
        0 <= i < registries(s.clients.at(client_id)).len(),
    ensures
        ({
            let before = s.clients.at(client_id).outbox;
            let registry = registries(s.clients.at(client_id))[i];
            &&& says(
                s.broadcast_global(name, g).clients.at(client_id).outbox[before.len() + i],
                registry,
                0,
                seq![ArgView::Uint(name), ArgView::Str(g.interface), ArgView::Uint(g.version)],
            )
            &&& says(
                s.broadcast_global_remove(name).clients.at(client_id).outbox[before.len() + i],
                registry,
                1,
                seq![ArgView::Uint(name)],
            )
        }),
{
}

/// A device for the primary selection is told what is on it: nothing, or a new
/// offer of it.
pub proof fn lemma_device_hears_of_the_primary_selection(s: StateView, client_id: u32, device: u32)
    requires
        s.clients.has(client_id),
        s.clients.at(client_id).next_server_id < u32::MAX,
        s.data.primary_selection is Some ==> s.data.data_sources.has(s.data.primary_selection->0),
    ensures
        ({
            let t = s.primary_to_device(client_id, device);
            let held = s.data.primary_selection;
            let id = s.clients.at(client_id).next_server_id;
            let news = queued_since(s, t, client_id);
            &&& held is None ==> news.len() == 1 && says(news[0], device, 1, seq![ArgView::Object(None)])
            &&& held is Some ==> {
                &&& introduced(
                    news.drop_last(),
                    DataInterface::PrimarySelection,
                    device,
                    id,
                    s.data.data_sources.at(held->0).mime_types,
                )
                &&& says(news.last(), device, 1, seq![ArgView::Object(Some(id))])
                &&& t.data.data_offers.at((client_id, id)).source == held
            }
        }),
{
    let t = s.primary_to_device(client_id, device);
    let held = s.data.primary_selection;
    let before = s.clients.at(client_id).outbox;
    if held is Some {
        lemma_new_offer_is_introduced(
            s,
            client_id,
            device,
            held->0,
            DataInterface::PrimarySelection,
            OfferKind::Selection,
        );
        let made = s.create_offer(client_id, device, held->0, DataInterface::PrimarySelection, OfferKind::Selection);
        let a = made.clients.at(client_id).outbox;
        let b = t.clients.at(client_id).outbox;
        assert(b == a.push(b.last()));
        assert(queued_since(s, made, client_id).len() == 1 + s.data.data_sources.at(held->0).mime_types.len());
        assert(a.len() >= before.len());
        assert(queued_since(s, t, client_id).drop_last() =~= queued_since(s, made, client_id));
    } else {
        assert(queued_since(s, t, client_id) =~= seq![t.clients.at(client_id).outbox.last()]);
    }
}

/// Applying a commit to a surface with nothing on it touches nothing else.
proof fn lemma_applied_alone(s: StateView, key: ClientObjectId, p: SurfacePendingView)
    requires
        s.surf.surfaces.has(key),
        s.surf.surfaces.at(key).children.len() == 0,
    ensures
        s.apply_surface_state(key, p) == s.apply_one(key, p),
{
    let entries = seq![(key, p)];
    let none = Seq::<(ClientObjectId, SurfacePendingView)>::empty();
    let applied = s.apply_one(key, p);
    assert(entries.drop_last() =~= none);
    assert(s.apply_entries(none) == s);
    assert(s.entries_caches(none) == none);
    let under = applied.synced_children(key);
    assert(under =~= Seq::<ClientObjectId>::empty()) by {
        let all = applied.surf.surfaces.at(key).children.map_values(|c: u32| (key.0, c));
        assert(all =~= Seq::<ClientObjectId>::empty());
        reveal(Seq::filter);
    }
    assert(applied.uncache_each(under) == applied);
    assert(applied.caches(under).len() == 0);
    assert(s.apply_entry((key, p)) == applied);
    assert(s.apply_entries(entries) == applied);
    assert(s.entries_caches(entries).len() == 0);
}

/// A subsurface set free shows what it had been keeping back, is no subsurface any
/// more, and is on nothing.
pub proof fn lemma_freed_subsurface_shows_what_it_kept(s: StateView, msg: ClientMessage, id: u32)
    requires
        msg.op_code == 0,
        s.surf.subsurface_map.has((msg.client_id, msg.object_id)),
        s.surf.subsurface_map.at((msg.client_id, msg.object_id)) == id,
        s.surf.surfaces.has((msg.client_id, id)),
        s.surf.surfaces.at((msg.client_id, id)).children.len() == 0,
        s.surf.surfaces.at((msg.client_id, id)).parent is Some,
        s.surf.surfaces.at((msg.client_id, id)).parent != Some(id),
        s.surf.surfaces.has((msg.client_id, s.surf.surfaces.at((msg.client_id, id)).parent->0)),
    ensures
        ({
            let key = (msg.client_id, id);
            let before = s.surf.surfaces.at(key);
            let parent = (msg.client_id, before.parent->0);
            let t = s.subsurface_request(msg);
            let after = t.surf.surfaces.at(key);
            &&& after == (SurfaceView {
                parent: None,
                is_subsurface: false,
                subsurface_sync: false,
                cached: None,
                position: after.position,
                ..before.committed(s.cached_of(key))
            })
            &&& !t.surf.surfaces.at(parent).children.contains(id)
            &&& !t.surf.subsurface_map.has((msg.client_id, msg.object_id))
            &&& t.dirty
        }),
{
    let key = (msg.client_id, id);
    let before = s.surf.surfaces.at(key);
    let parent = (msg.client_id, before.parent->0);
    let loose = s.unparent(key).drop_child(msg.client_id, before.parent, id).drop_subsurface(
        (msg.client_id, msg.object_id),
    );
    lemma_filter_facts(s.surf.surfaces.at(parent).children, |x: u32| x != id);
    lemma_set_without(s.surf.surfaces.at(parent).children, id, |x: u32| x != id);
    assert(loose.cached_of(key) == s.cached_of(key));
    lemma_applied_alone(loose.uncache(key), key, loose.cached_of(key));
}

/// A subsurface that no longer waits shows what it had been keeping back, at once.
pub proof fn lemma_unsynchronised_shows_what_it_kept(s: StateView, msg: ClientMessage, id: u32)
    requires
        msg.op_code == 5,
        s.surf.subsurface_map.has((msg.client_id, msg.object_id)),
        s.surf.subsurface_map.at((msg.client_id, msg.object_id)) == id,
        s.surf.surfaces.has((msg.client_id, id)),
        s.surf.surfaces.at((msg.client_id, id)).children.len() == 0,
        s.surf.surfaces.at((msg.client_id, id)).is_subsurface,
        s.surf.surfaces.at((msg.client_id, id)).parent is Some,
        s.surf.surfaces.at((msg.client_id, id)).parent != Some(id),
        s.surf.surfaces.has((msg.client_id, s.surf.surfaces.at((msg.client_id, id)).parent->0)),
        !s.surf.surfaces.at((msg.client_id, s.surf.surfaces.at((msg.client_id, id)).parent->0)).is_subsurface,
    ensures
        ({
            let key = (msg.client_id, id);
            let before = s.surf.surfaces.at(key);
            let after = s.subsurface_request(msg).surf.surfaces.at(key);
            after == (SurfaceView {
                subsurface_sync: false,
                cached: None,
                position: after.position,
                ..before.committed(s.cached_of(key))
            })
        }),
{
    let key = (msg.client_id, id);
    let set = s.set_sync(key, false);
    reveal_with_fuel(StateView::synced_within, 3);
    assert(!set.effectively_synced(key));
    assert(set.cached_of(key) == s.cached_of(key));
    lemma_applied_alone(set.uncache(key), key, set.cached_of(key));
}

/// A subsurface that is to wait keeps what it has, and shows nothing new.
pub proof fn lemma_synchronised_waits(s: StateView, msg: ClientMessage, id: u32)
    requires
        msg.op_code == 4,
        s.surf.subsurface_map.has((msg.client_id, msg.object_id)),
        s.surf.subsurface_map.at((msg.client_id, msg.object_id)) == id,
        s.surf.surfaces.has((msg.client_id, id)),
    ensures
        s.subsurface_request(msg).surf.surfaces.at((msg.client_id, id)) == (SurfaceView {
            subsurface_sync: true,
            ..s.surf.surfaces.at((msg.client_id, id))
        }),
{
}

/// The shell is told which output a window is moved over: the one the pointer is
/// on.
pub proof fn lemma_shell_hears_where_a_window_goes(s: StateView, g: PointerGrab, travel: (i32, i32))
    requires
        s.win.pointer_grab == Some(g),
        g.kind is Move,
    ensures
        ({
            let c = s.input.cursor;
            match s.output_at(c.0 as int, c.1 as int) {
                Some(id) => s.update_grab(travel).hooks == s.hooks.push(Hook::ToplevelDraggedToOutput(g.surface, id)),
                None => s.update_grab(travel).hooks == s.hooks,
            }
        }),
{
}

/// A click gives the focus to any window, and to a panel only if it wants keys.
pub proof fn lemma_panel_without_keys_takes_no_focus(s: StateView, surface: ClientObjectId)
    ensures
        !s.layers.surface_layer.has(surface) ==> s.accepts_click_focus(surface),
        s.layers.surface_layer.has(surface) && s.layers.layer_surfaces.has(
            (surface.0, s.layers.surface_layer.at(surface)),
        ) ==> s.accepts_click_focus(surface) == (s.layers.layer_surfaces.at(
            (surface.0, s.layers.surface_layer.at(surface)),
        ).current.keyboard_interactivity != KeyboardInteractivity::Never),
{
}

/// A popup that a panel takes in is on top of what is on the panel already. Once it
/// is known where it goes it is there, and its client is told.
pub proof fn lemma_adopted_popup_is_on_its_panel(s: StateView, q: AdoptRequest, at: (i32, i32, i32, i32))
    requires
        s.clients.has(q.client_id),
        s.surf.surfaces.has((q.client_id, q.popup_wl)),
        s.surf.surfaces.has((q.client_id, q.layer_wl)),
        q.popup_wl != q.layer_wl,
        s.win.xdg_popups.has((q.client_id, q.popup_id)),
    ensures
        ({
            let (popup, panel) = ((q.client_id, q.popup_wl), (q.client_id, q.layer_wl));
            let linked = s.adopt_popup(q);
            let t = linked.finish_adopt(q, at);
            let n = s.clients.at(q.client_id).outbox.len() as int;
            &&& linked.surf.surfaces.at(popup).parent == Some(q.layer_wl)
            &&& linked.surf.surfaces.at(panel).children == s.surf.surfaces.at(panel).children.push(q.popup_wl)
            &&& t.surf.surfaces.at(popup).subsurface_position.0 == in_reach(at.0 as int)
            &&& t.surf.surfaces.at(popup).subsurface_position.1 == in_reach(at.1 as int)
            &&& t.win.xdg_popups.at((q.client_id, q.popup_id)).x == at.0
            &&& t.win.xdg_popups.at((q.client_id, q.popup_id)).y == at.1
            &&& t.win.xdg_popups.at((q.client_id, q.popup_id)).width == at.2
            &&& t.win.xdg_popups.at((q.client_id, q.popup_id)).height == at.3
            &&& t.clients.at(q.client_id).outbox[n] == MessageView::Notice(
                Notice::PopupConfigure { popup: q.popup_id, x: at.0, y: at.1, width: at.2, height: at.3 },
            )
            &&& t.dirty
        }),
{
}

/// A window says which part of it is the window proper.
pub proof fn lemma_window_geometry_is_as_said(s: StateView, msg: ClientMessage, x: i32, y: i32, w: i32, h: i32)
    requires
        msg.number(0) == Some(x),
        msg.number(1) == Some(y),
        msg.number(2) == Some(w),
        msg.number(3) == Some(h),
        s.win.xdg_surfaces.has((msg.client_id, msg.object_id)),
    ensures
        s.xdg_set_window_geometry(msg).win.xdg_surfaces.at((msg.client_id, msg.object_id)).geometry == Some((x, y, w, h)),
        s.xdg_set_window_geometry(msg).clients == s.clients,
{
}

/// A drag that comes over a surface is over it from then on, and its client's data
/// device is told of it there.
pub proof fn lemma_drag_comes_over_a_surface<S: Shell>(s: StateView, shell: S, time: u32, d: DragView, device: u32)
    requires
        s.data.drag == Some(d),
        d.focus is None,
        d.source is None,
        s.hit_test(shell, s.input.cursor) is Some,
        (s.hit_test(shell, s.input.cursor)->0).surface.0 == d.origin_client,
        s.clients.has(d.origin_client),
        s.devices_of(d.origin_client) == seq![device],
    ensures
        ({
            let hit = s.hit_test(shell, s.input.cursor)->0;
            let t = s.update_drag(shell, time);
            &&& t.data.drag is Some
            &&& (t.data.drag->0).focus == Some(hit.surface)
            &&& (t.data.drag->0).origin_client == d.origin_client
            &&& match t.clients.at(d.origin_client).outbox.last() {
                MessageView::Notice(Notice::DragEnter { serial, device: on, surface, x, y, offer }) => on == device
                    && surface == hit.surface.1 && x == hit.surface_x && y == hit.surface_y && offer is None,
                _ => false,
            }
        }),
{
    let hit = s.hit_test(shell, s.input.cursor)->0;
    let dirty = s.dirtied();
    assert(dirty.end_drag_focus() == dirty);
    let at = (hit.surface_x, hit.surface_y);
    let devices = seq![device];
    assert(dirty.devices_of(d.origin_client) == devices);
    assert(devices.drop_last() =~= Seq::<u32>::empty());
    assert(devices.last() == device);
    assert(dirty.enter_devices(hit.surface, at, None, 0, devices.drop_last()) == dirty);
    let entered = dirty.enter_devices(hit.surface, at, None, 0, devices);
    assert(entered == dirty.enter_device(hit.surface, at, None, 0, device));
    let offers = dirty.offers_made(hit.surface, at, None, 0, devices);
    assert(dirty.offers_made(hit.surface, at, None, 0, devices.drop_last()) =~= Seq::<ClientObjectId>::empty());
    assert(offers =~= Seq::<ClientObjectId>::empty());
    let focused = entered.focus_drag(hit.surface, offers);
    assert(focused.resolve_each(offers) == focused);
    assert(s.update_drag(shell, time) == focused);
}

} // verus!
