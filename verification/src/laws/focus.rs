//! Focus, and who hears of the pointer.
use crate::protocol::messages::{event, MessageView, Notice};
use crate::protocol::wire_utils::ArgView;
use crate::protocol::xdg_surface::XDG_CONFIGURE;
use crate::seqs::lemma_filter_push;
use crate::shell::Shell;
use crate::state::compositor_state::StateView;
use crate::state::drags::DragEvent;
use crate::state::offers::{offer_events, offer_intro};
use crate::state::types::{
    ClientObjectId, DataInterface, GrabKind, OfferKind, PointerGrab, PrimaryDeviceBinding,
};
use vstd::prelude::*;

verus! {

proof fn lemma_left_keeps(s: StateView, surface: ClientObjectId, n: nat)
    ensures
        s.keyboards_left(surface, n).input == s.input,
    decreases n,
{
    if n != 0 && n <= s.input.keyboards.len() {
        lemma_left_keeps(s, surface, (n - 1) as nat);
    }
}

proof fn lemma_entered_keeps(s: StateView, surface: ClientObjectId, n: nat)
    ensures
        s.keyboards_entered(surface, n).input == s.input,
    decreases n,
{
    if n != 0 && n <= s.input.keyboards.len() {
        lemma_entered_keeps(s, surface, (n - 1) as nat);
    }
}

proof fn lemma_primary_keeps_input(s: StateView, client_id: u32, devices: Seq<PrimaryDeviceBinding>)
    ensures
        s.primary_to_devices(client_id, devices).input == s.input,
    decreases devices.len(),
{
    if devices.len() > 0 {
        lemma_primary_keeps_input(s, client_id, devices.drop_last());
    }
}

/// Focus is where it was last put, and nowhere once it is cleared.
pub proof fn lemma_focus_moves(s: StateView, key: ClientObjectId)
    ensures
        s.switch_focus(key).input.focused_surface == Some(key),
        s.clear_focus().input.focused_surface is None,
        s.switch_focus(key).input.pointer_surface == s.input.pointer_surface,
        s.switch_focus(key).switch_focus(key) == s.switch_focus(key),
{
    if let Some(f) = s.input.focused_surface {
        lemma_left_keeps(s.set_focused(None), f, s.input.keyboards.len());
    }
    if s.input.focused_surface != Some(key) {
        let focused = s.clear_focus().set_focused(Some(key));
        lemma_entered_keeps(focused, key, s.input.keyboards.len());
        let told = focused.keyboards_entered(key, s.input.keyboards.len()).notice(
            key.0,
            Notice::ToplevelActivated { surface: key.1, activated: true },
        ).notice(key.0, Notice::Clipboard);
        lemma_primary_keeps_input(told, key.0, told.data.primary_devices);
    }
}

/// Whether a message is a `wl_pointer` event.
pub open spec fn about_pointer(m: MessageView) -> bool {
    match m {
        MessageView::Notice(n) => n is PointerEnter || n is PointerLeave || n is PointerMotion || n is PointerButton
            || n is PointerFrame || n is PointerAxisSource || n is PointerAxisSteps || n is PointerAxis
            || n is PointerAxisStop,
        _ => false,
    }
}

/// The `wl_pointer` events queued for a client.
pub open spec fn pointer_events(s: StateView, client_id: u32) -> Seq<MessageView> {
    if s.clients.has(client_id) {
        s.clients.at(client_id).outbox.filter(|m: MessageView| about_pointer(m))
    } else {
        Seq::empty()
    }
}

/// Whether the second of two states has the same `wl_pointer` events queued.
pub open spec fn quiet(a: StateView, b: StateView) -> bool {
    forall|c: u32| #[trigger] pointer_events(b, c) == pointer_events(a, c)
}

proof fn lemma_tell_quiet(s: StateView, client_id: u32, m: MessageView)
    requires
        !about_pointer(m),
    ensures
        quiet(s, s.tell(client_id, m)),
{
    let p = |m: MessageView| about_pointer(m);
    assert forall|c: u32| #[trigger] pointer_events(s.tell(client_id, m), c) == pointer_events(s, c) by {
        if s.clients.has(client_id) {
            lemma_filter_push(s.clients.at(client_id).outbox, m, p);
        }
    }
}

proof fn lemma_append_quiet(a: Seq<MessageView>, ms: Seq<MessageView>)
    requires
        forall|i: int| 0 <= i < ms.len() ==> !about_pointer(#[trigger] ms[i]),
    ensures
        (a + ms).filter(|m: MessageView| about_pointer(m)) == a.filter(|m: MessageView| about_pointer(m)),
    decreases ms.len(),
{
    let p = |m: MessageView| about_pointer(m);
    if ms.len() == 0 {
        assert(a + ms =~= a);
    } else {
        lemma_append_quiet(a, ms.drop_last());
        assert(a + ms =~= (a + ms.drop_last()).push(ms.last()));
        lemma_filter_push(a + ms.drop_last(), ms.last(), p);
    }
}

proof fn lemma_tell_all_quiet(s: StateView, client_id: u32, ms: Seq<MessageView>)
    requires
        forall|i: int| 0 <= i < ms.len() ==> !about_pointer(#[trigger] ms[i]),
    ensures
        quiet(s, s.tell_all(client_id, ms)),
{
    assert forall|c: u32| #[trigger] pointer_events(s.tell_all(client_id, ms), c) == pointer_events(s, c) by {
        if s.clients.has(client_id) {
            lemma_append_quiet(s.clients.at(client_id).outbox, ms);
        }
    }
}

proof fn lemma_quiet_twice(a: StateView, b: StateView, c: StateView)
    requires
        quiet(a, b),
        quiet(b, c),
    ensures
        quiet(a, c),
{
    assert forall|x: u32| #[trigger] pointer_events(c, x) == pointer_events(a, x) by {
        assert(pointer_events(b, x) == pointer_events(a, x));
    }
}

proof fn lemma_drag_event_quiet(s: StateView, client_id: u32, e: DragEvent)
    ensures
        quiet(s, s.drag_event(client_id, e)),
{
    lemma_tell_all_quiet(s, client_id, e.notices_for(s.devices_of(client_id)));
}

proof fn lemma_invalidate_quiet(s: StateView, offers: Seq<ClientObjectId>)
    ensures
        quiet(s, s.refuse_each(offers)),
    decreases offers.len(),
{
    if offers.len() > 0 {
        let before = s.refuse_each(offers.drop_last());
        lemma_invalidate_quiet(s, offers.drop_last());
        let m = MessageView::Notice(Notice::AcceptanceCleared { offer: offers.last().1 });
        lemma_tell_quiet(before, offers.last().0, m);
        let told = before.tell(offers.last().0, m);
        assert(s.refuse_each(offers).clients == told.clients);
        lemma_same_clients_quiet(told, s.refuse_each(offers));
        lemma_quiet_twice(before, told, s.refuse_each(offers));
        lemma_quiet_twice(s, before, s.refuse_each(offers));
    }
}

proof fn lemma_same_clients_quiet(a: StateView, b: StateView)
    requires
        a.clients == b.clients,
    ensures
        quiet(a, b),
{
}

proof fn lemma_end_focus_quiet(s: StateView)
    ensures
        quiet(s, s.end_drag_focus()),
{
    if let Some(d) = s.data.drag {
        if let Some(f) = d.focus {
            let left = s.drag_event(f.0, DragEvent::Leave);
            lemma_drag_event_quiet(s, f.0, DragEvent::Leave);
            let refused = left.refuse_each(d.focus_offers);
            lemma_invalidate_quiet(left, d.focus_offers);
            lemma_quiet_twice(s, left, refused);
            lemma_same_clients_quiet(refused, s.end_drag_focus());
            lemma_quiet_twice(s, refused, s.end_drag_focus());
        }
    }
}

proof fn lemma_name_offer_quiet(s: StateView, client_id: u32, device: u32, interface: DataInterface)
    ensures
        quiet(s, s.name_offer(client_id, device, interface)),
{
}

proof fn lemma_create_offer_quiet(
    s: StateView,
    client_id: u32,
    device: u32,
    source: ClientObjectId,
    interface: DataInterface,
    kind: OfferKind,
)
    ensures
        quiet(s, s.create_offer(client_id, device, source, interface, kind)),
{
    if s.can_offer(client_id) {
        let offer = s.next_offer(client_id);
        let named = s.name_offer(client_id, device, interface);
        lemma_name_offer_quiet(s, client_id, device, interface);
        let put = named.put_offer(offer, source, kind);
        lemma_same_clients_quiet(named, put);
        lemma_quiet_twice(s, named, put);
        let intro = put.tell(client_id, offer_intro(interface, device, offer.1));
        lemma_tell_quiet(put, client_id, offer_intro(interface, device, offer.1));
        lemma_quiet_twice(s, put, intro);
        let ms = offer_events(offer.1, s.mime_types_of(source));
        lemma_tell_all_quiet(intro, client_id, ms);
        lemma_quiet_twice(s, intro, intro.tell_all(client_id, ms));
    }
}

proof fn lemma_enter_device_quiet(
    s: StateView,
    surface: ClientObjectId,
    at: (i32, i32),
    source: Option<ClientObjectId>,
    actions: u32,
    device: u32,
)
    ensures
        quiet(s, s.enter_device(surface, at, source, actions, device)),
{
    let c = surface.0;
    let offer = s.drag_offer(c, source);
    let offered = match (source, offer) {
        (Some(x), Some(o)) => s.create_offer(c, device, x, DataInterface::WlData, OfferKind::Drag).notice(
            c,
            Notice::OfferSourceActions { offer: o.1, actions },
        ),
        _ => s,
    };
    if let (Some(x), Some(o)) = (source, offer) {
        lemma_create_offer_quiet(s, c, device, x, DataInterface::WlData, OfferKind::Drag);
        let made = s.create_offer(c, device, x, DataInterface::WlData, OfferKind::Drag);
        lemma_tell_quiet(made, c, MessageView::Notice(Notice::OfferSourceActions { offer: o.1, actions }));
        lemma_quiet_twice(s, made, offered);
    }
    let taken = offered.serial_taken();
    lemma_same_clients_quiet(offered, taken);
    lemma_quiet_twice(s, offered, taken);
    let m = MessageView::Notice(
        Notice::DragEnter {
            serial: offered.next_serial,
            device,
            surface: surface.1,
            x: at.0,
            y: at.1,
            offer: match offer {
                Some(o) => Some(o.1),
                None => None,
            },
        },
    );
    lemma_tell_quiet(taken, c, m);
    lemma_quiet_twice(s, taken, taken.tell(c, m));
}

proof fn lemma_enter_devices_quiet(
    s: StateView,
    surface: ClientObjectId,
    at: (i32, i32),
    source: Option<ClientObjectId>,
    actions: u32,
    devices: Seq<u32>,
)
    ensures
        quiet(s, s.enter_devices(surface, at, source, actions, devices)),
    decreases devices.len(),
{
    if devices.len() > 0 {
        let before = s.enter_devices(surface, at, source, actions, devices.drop_last());
        lemma_enter_devices_quiet(s, surface, at, source, actions, devices.drop_last());
        lemma_enter_device_quiet(before, surface, at, source, actions, devices.last());
        lemma_quiet_twice(s, before, s.enter_devices(surface, at, source, actions, devices));
    }
}

proof fn lemma_resolve_quiet(s: StateView, offers: Seq<ClientObjectId>)
    ensures
        quiet(s, s.resolve_each(offers)),
    decreases offers.len(),
{
    if offers.len() > 0 {
        let before = s.resolve_each(offers.drop_last());
        lemma_resolve_quiet(s, offers.drop_last());
        let offer = offers.last();
        if let Some(source) = before.negotiates_with(offer) {
            let action = before.action_between(offer, source);
            if before.data.data_offers.at(offer).resolved_action != action {
                let set = before.set_resolved(offer, action);
                lemma_same_clients_quiet(before, set);
                lemma_quiet_twice(s, before, set);
                let m = MessageView::Notice(Notice::OfferAction { offer: offer.1, action });
                let told = set.tell(offer.0, m);
                lemma_tell_quiet(set, offer.0, m);
                lemma_quiet_twice(s, set, told);
                let n = MessageView::Notice(Notice::SourceAction { source: source.1, action });
                lemma_tell_quiet(told, source.0, n);
                lemma_quiet_twice(s, told, told.tell(source.0, n));
            }
        }
    }
}

proof fn lemma_enter_surface_quiet(s: StateView, surface: ClientObjectId, at: (i32, i32))
    ensures
        quiet(s, s.enter_drag_surface(surface, at)),
{
    if let Some(d) = s.data.drag {
        let devices = s.devices_of(surface.0);
        let actions = s.actions_of(d.source);
        let offers = s.offers_made(surface, at, d.source, actions, devices);
        let entered = s.enter_devices(surface, at, d.source, actions, devices);
        lemma_enter_devices_quiet(s, surface, at, d.source, actions, devices);
        let focused = entered.focus_drag(surface, offers);
        lemma_same_clients_quiet(entered, focused);
        lemma_quiet_twice(s, entered, focused);
        lemma_resolve_quiet(focused, offers);
        lemma_quiet_twice(s, focused, focused.resolve_each(offers));
    }
}

/// For the duration of a drag no `wl_pointer` event reaches anyone, however the
/// pointer moves.
pub proof fn lemma_drag_silences_the_pointer<S: Shell>(s: StateView, shell: S, time: u32, travel: (i32, i32), client_id: u32)
    requires
        s.data.drag is Some,
        s.win.pointer_grab is None,
    ensures
        pointer_events(s.pointer_motion(shell, time, travel), client_id) == pointer_events(s, client_id),
{
    let moved = StateView { cursor_dirty: true, ..s };
    let d = s.data.drag->0;
    lemma_same_clients_quiet(s, moved);
    let dirty = moved.dirtied();
    lemma_same_clients_quiet(s, dirty);
    let after = moved.update_drag(shell, time);
    match moved.drag_hit(shell, d) {
        Some(h) => {
            if d.focus == Some(h.surface) {
                lemma_drag_event_quiet(dirty, h.surface.0, DragEvent::Motion { time, x: h.surface_x, y: h.surface_y });
                lemma_quiet_twice(s, dirty, after);
            } else {
                let left = dirty.end_drag_focus();
                lemma_end_focus_quiet(dirty);
                lemma_quiet_twice(s, dirty, left);
                lemma_enter_surface_quiet(left, h.surface, (h.surface_x, h.surface_y));
                lemma_quiet_twice(s, left, after);
            }
        },
        None => {
            if d.focus is Some {
                lemma_end_focus_quiet(dirty);
                lemma_quiet_twice(s, dirty, after);
            }
        },
    }
    assert(quiet(s, after));
}

/// While a window is being moved or resized no `wl_pointer` event reaches
/// anyone either.
pub proof fn lemma_grab_silences_the_pointer<S: Shell>(s: StateView, shell: S, time: u32, travel: (i32, i32), client_id: u32)
    requires
        s.win.pointer_grab is Some,
    ensures
        pointer_events(s.pointer_motion(shell, time, travel), client_id) == pointer_events(s, client_id),
{
    let moved = StateView { cursor_dirty: true, ..s };
    let g = s.win.pointer_grab->0;
    let after = moved.update_grab(travel);
    lemma_same_clients_quiet(s, moved);
    match g.kind {
        GrabKind::Move { offset_x, offset_y } => {
            assert(after.clients == s.clients);
            lemma_same_clients_quiet(s, after);
        },
        GrabKind::Resize { edges, start_size, last_sent } => {
            let size = moved.resized(g.surface, edges, start_size, travel);
            if size != last_sent {
                let grabbed = moved.set_grab(
                    Some(
                        PointerGrab { kind: GrabKind::Resize { edges, start_size, last_sent: size }, ..g },
                    ),
                );
                lemma_same_clients_quiet(s, grabbed);
                let m = MessageView::Notice(
                    Notice::ToplevelResize {
                        toplevel: g.toplevel.1,
                        width: size.0,
                        height: size.1,
                        resizing: true,
                    },
                );
                let asked = grabbed.tell(g.toplevel.0, m);
                lemma_tell_quiet(grabbed, g.toplevel.0, m);
                lemma_quiet_twice(s, grabbed, asked);
                if grabbed.win.xdg_toplevels.has(g.toplevel) {
                    let xdg = grabbed.win.xdg_toplevels.at(g.toplevel).xdg_surface_id;
                    let noted = asked.serial_taken().record_configure((g.toplevel.0, xdg), asked.next_serial);
                    lemma_same_clients_quiet(asked, noted);
                    lemma_quiet_twice(s, asked, noted);
                    let e = event(xdg, XDG_CONFIGURE, seq![ArgView::Uint(asked.next_serial)]);
                    lemma_tell_quiet(noted, g.toplevel.0, e);
                    lemma_quiet_twice(s, noted, noted.tell(g.toplevel.0, e));
                    lemma_same_clients_quiet(noted.tell(g.toplevel.0, e), after);
                    lemma_quiet_twice(s, noted.tell(g.toplevel.0, e), after);
                } else {
                    lemma_same_clients_quiet(asked, after);
                    lemma_quiet_twice(s, asked, after);
                }
            } else {
                lemma_same_clients_quiet(s, after);
            }
        },
    }
    assert(quiet(s, after));
}

} // verus!
