//! Dialogue: what is said in answer to requests, presses and changes of hand.
use crate::input::frames::Presentation;
use crate::keys::{character_key, KeyCombo, Modifier, Modifiers, MouseButton, MouseCombo};
use crate::laws::describing::says;
use crate::laws::focus::lemma_focus_moves;
use crate::protocol::ObjectType;
use crate::protocol::dispatch::{fd_count, fds_among};
use crate::protocol::messages::{MessageView, Notice};
use crate::protocol::signature::ArgType;
use crate::protocol::wire_utils::{ArgView, ClientMessage};
use crate::protocol::wp_fractional_scale_manager::asks_about;
use crate::protocol::xdg_surface::ToplevelRequest;
use crate::run::buttons::{ButtonStep, PressStep};
use crate::run::keyboard::KeyStep;
use crate::seqs::{lemma_filter_facts, lemma_filter_push};
use crate::shell::Shell;
use crate::state::actions::settled_action;
use crate::state::compositor_state::StateView;
use crate::state::types::{ClientObjectId, Hook, ModifierState, XdgRole};
use crate::table::lemma_set_without;
use vstd::prelude::*;

verus! {

/// A client that did something wrong is told on which object, which fault it was
/// and in words, and is then to be disconnected.
pub proof fn lemma_fault_is_told(s: StateView, client_id: u32, object_id: u32, code: u32, text: Seq<char>)
    requires
        s.clients.has(client_id),
    ensures
        ({
            let c = s.fail(client_id, object_id, code, text).clients.at(client_id);
            &&& says(
                c.outbox.last(),
                1,
                0,
                seq![ArgView::Uint(object_id), ArgView::Uint(code), ArgView::Str(text)],
            )
            &&& c.cancelled
        }),
{
}

/// What two sides that both know of actions settle on: what the target would
/// rather have if both allow it, and otherwise of what both allow a copy before a
/// move before asking, or nothing.
pub proof fn lemma_copy_before_move_before_ask(source: u32, target: u32, preferred: u32, old: u32, new: u32)
    requires
        old < 3,
        new >= 3,
    ensures
        ({
            let both = source & target;
            let a = settled_action(source, new, target, preferred, new);
            &&& preferred & both != 0 ==> a == preferred
            &&& preferred & both == 0 && both & 1 != 0 ==> a == 1
            &&& preferred & both == 0 && both & 1 == 0 && both & 2 != 0 ==> a == 2
            &&& preferred & both == 0 && both & 1 == 0 && both & 2 == 0 && both & 4 != 0 ==> a == 4
            &&& both == 0 ==> a == 0
        }),
        settled_action(source, old, target, preferred, old) == 1,
        source & 1 != 0 ==> settled_action(source, new, target, preferred, old) == 1,
        source & 1 == 0 && source & 2 != 0 ==> settled_action(source, new, target, preferred, old) == 2,
        target & 1 != 0 && preferred & 1 == 0 ==> settled_action(source, old, target, preferred, new) == 1,
        target & 1 == 0 ==> settled_action(source, old, target, preferred, new) == 0,
{
    let both = source & target;
    assert(both == 0 ==> preferred & both == 0) by (bit_vector);
    assert(preferred & both != 0 ==> both != 0) by (bit_vector);
    assert(both & 1 != 0 || both & 2 != 0 || both & 4 != 0 ==> both != 0) by (bit_vector);
    assert(1u32 & 1u32 == 1) by (bit_vector);
    assert(source & source == source) by (bit_vector);
    assert(1u32 & source == source & 1u32) by (bit_vector);
    assert(source & 1u32 != 0 || source & 2u32 != 0 ==> source != 0) by (bit_vector);
    assert(target & 1u32 != 0 ==> 1u32 & target == 1) by (bit_vector);
    assert(target & 1u32 == 0 ==> 1u32 & target == 0) by (bit_vector);
}

/// Settling the action of a drag tells the target and then the source, if it is
/// another than before, and nobody if it is not.
pub proof fn lemma_settled_action_is_told(s: StateView, offer: ClientObjectId, source: ClientObjectId)
    requires
        s.data.data_offers.has(offer),
        !(s.data.data_offers.at(offer).kind is Selection),
        s.data.data_offers.at(offer).source == Some(source),
        s.data.data_sources.has(source),
        s.clients.has(offer.0),
        s.clients.has(source.0),
        offer.0 != source.0,
    ensures
        ({
            let t = s.resolve_offer_action(offer);
            let o = s.data.data_offers.at(offer);
            let action = settled_action(
                s.data.data_sources.at(source).actions,
                s.object_version(source),
                o.actions,
                o.preferred_action,
                s.object_version(offer),
            );
            &&& t.data.data_offers.at(offer).resolved_action == action
            &&& o.resolved_action == action ==> t.clients == s.clients
            &&& o.resolved_action != action ==> {
                &&& t.clients.at(offer.0).outbox == s.clients.at(offer.0).outbox.push(
                    MessageView::Notice(Notice::OfferAction { offer: offer.1, action }),
                )
                &&& t.clients.at(source.0).outbox == s.clients.at(source.0).outbox.push(
                    MessageView::Notice(Notice::SourceAction { source: source.1, action }),
                )
            }
        }),
{
}

/// A press outside the topmost popup dismisses it: it is out of the stack and its
/// client is told. A press on it dismisses nothing.
pub proof fn lemma_press_outside_dismisses(s: StateView, popup: ClientObjectId, surface: ClientObjectId)
    requires
        s.win.grabbed_popups.len() > 0,
        s.win.grabbed_popups.last() == popup,
        s.win.xdg_popups.has(popup),
        s.win.xdg_surfaces.has((popup.0, s.win.xdg_popups.at(popup).xdg_surface_id)),
        surface == (popup.0, s.win.xdg_surfaces.at((popup.0, s.win.xdg_popups.at(popup).xdg_surface_id)).wl_surface_id),
        s.clients.has(popup.0),
    ensures
        ({
            let (at, size, c) = (s.global_position(surface), s.surface_size(surface), s.input.cursor);
            let on = at.0 <= c.0 < at.0 + size.0 && at.1 <= c.1 < at.1 + size.1;
            let t = s.dismiss_popups();
            &&& s.dismisses_popups() == !on
            &&& on ==> t == s
            &&& !on ==> {
                &&& t.win.grabbed_popups.len() < s.win.grabbed_popups.len()
                &&& t.clients.has(popup.0)
                &&& t.clients.at(popup.0).outbox.len() > s.clients.at(popup.0).outbox.len()
                &&& t.clients.at(popup.0).outbox[s.clients.at(popup.0).outbox.len() as int] == MessageView::Notice(
                    Notice::PopupDone { popup: popup.1 },
                )
            }
        }),
{
    let next = s.pop_popup().notice(popup.0, Notice::PopupDone { popup: popup.1 });
    lemma_dismissing_only_adds(next, popup.0);
    lemma_dismissing_only_adds(s, popup.0);
}

proof fn lemma_dismissing_only_adds(s: StateView, client_id: u32)
    ensures
        s.dismiss_popups().win.grabbed_popups.len() <= s.win.grabbed_popups.len(),
        s.clients.has(client_id) ==> {
            let (before, after) = (s.clients.at(client_id).outbox, s.dismiss_popups().clients.at(client_id).outbox);
            &&& s.dismiss_popups().clients.has(client_id)
            &&& after.len() >= before.len()
            &&& forall|i: int| 0 <= i < before.len() ==> #[trigger] after[i] == before[i]
        },
    decreases s.win.grabbed_popups.len(),
{
    if s.win.grabbed_popups.len() > 0 {
        let popup = s.win.grabbed_popups.last();
        match s.popup_surface(popup) {
            None => lemma_dismissing_only_adds(s.pop_popup(), client_id),
            Some(x) => if !s.surface_covers(x, s.input.cursor) {
                lemma_dismissing_only_adds(
                    s.pop_popup().notice(popup.0, Notice::PopupDone { popup: popup.1 }),
                    client_id,
                );
            },
        }
    }
}

/// A client that asks at what scale to draw a surface is answered at once.
pub proof fn lemma_scale_is_answered_at_once(s: StateView, msg: ClientMessage, id: u32, surface: u32)
    requires
        msg.op_code == 1,
        msg.word(0) == Some(id),
        msg.word(1) == Some(surface),
        s.clients.has(msg.client_id),
        s.may_register(msg.client_id, id),
        s.surf.surfaces.has((msg.client_id, surface)),
        forall|k: ClientObjectId| #[trigger]
            s.surf.fractional_scales.has(k) ==> k.0 != msg.client_id || s.surf.fractional_scales.at(k).surface_id
                != surface,
    ensures
        ({
            let t = s.fractional_manager_request(msg);
            let object = (msg.client_id, id);
            let scale = t.surf.fractional_scales.at(object).sent->0;
            &&& t.surf.fractional_scales.has(object)
            &&& t.surf.fractional_scales.at(object).surface_id == surface
            &&& t.surf.fractional_scales.at(object).sent is Some
            &&& says(t.clients.at(msg.client_id).outbox.last(), id, 0, seq![ArgView::Uint(scale)])
            &&& scale == s.put_scale(object, surface).preferred_scale((msg.client_id, surface))
        }),
{
    let c = msg.client_id;
    let p = asks_about(c, surface);
    assert(!s.surf.fractional_scales.any(p)) by {
        if s.surf.fractional_scales.any(p) {
            let k = choose|k: ClientObjectId|
                s.surf.fractional_scales.has(k) && #[trigger] p(k, s.surf.fractional_scales.at(k));
            assert(s.surf.fractional_scales.has(k));
        }
    }
    let asked = s.register(c, id, ObjectType::WpFractionalScale).put_scale((c, id), surface);
    lemma_scale_depends(asked, s.put_scale((c, id), surface), (c, surface));
}

proof fn lemma_outputs_same(a: StateView, b: StateView, id: u32, n: nat)
    requires
        a.out == b.out,
    ensures
        a.output_among(id, n) == b.output_among(id, n),
    decreases n,
{
    if n > 0 && n <= a.out.outputs.len() {
        lemma_outputs_same(a, b, id, (n - 1) as nat);
    }
}

proof fn lemma_highest_same(a: StateView, b: StateView, on: Seq<u32>)
    requires
        a.out == b.out,
    ensures
        a.highest_scale(on) == b.highest_scale(on),
    decreases on.len(),
{
    if on.len() > 0 {
        lemma_highest_same(a, b, on.drop_last());
        lemma_outputs_same(a, b, on.last(), a.out.outputs.len());
    }
}

proof fn lemma_at_same(a: StateView, b: StateView, x: int, y: int, n: nat)
    requires
        a.out == b.out,
    ensures
        a.output_at_among(x, y, n) == b.output_at_among(x, y, n),
    decreases n,
{
    if n > 0 && n <= a.out.outputs.len() {
        lemma_at_same(a, b, x, y, (n - 1) as nat);
    }
}

proof fn lemma_scale_depends(a: StateView, b: StateView, key: ClientObjectId)
    requires
        a.out == b.out,
        a.surf == b.surf,
        a.input == b.input,
    ensures
        a.preferred_scale(key) == b.preferred_scale(key),
{
    let on = a.surf.surfaces.at(key).visible_on;
    lemma_highest_same(a, b, on);
    assert forall|i: int| 0 <= i < on.len() implies a.output(#[trigger] on[i]) == b.output(on[i]) by {
        lemma_outputs_same(a, b, on[i], a.out.outputs.len());
    }
    assert(a.on_any(on) == b.on_any(on)) by {
        if a.on_any(on) {
            let i = choose|i: int| 0 <= i < on.len() && a.output(#[trigger] on[i]) is Some;
            assert(b.output(on[i]) is Some);
        }
        if b.on_any(on) {
            let i = choose|i: int| 0 <= i < on.len() && b.output(#[trigger] on[i]) is Some;
            assert(a.output(on[i]) is Some);
        }
    }
    let c = a.input.cursor;
    lemma_at_same(a, b, c.0 as int, c.1 as int, a.out.outputs.len());
    if let Some(id) = a.output_for_new_window() {
        lemma_outputs_same(a, b, id, a.out.outputs.len());
    }
    let none = Seq::<u32>::empty();
    assert(!a.on_any(none) && !b.on_any(none));
}

/// A new window fills nothing, has no limits and no parent, and its surface is the
/// one it draws into.
pub proof fn lemma_new_window_is_plain(s: StateView, client_id: u32, toplevel_id: u32, xdg: u32)
    requires
        s.win.xdg_surfaces.has((client_id, xdg)),
    ensures
        ({
            let t = s.create_xdg_toplevel(client_id, toplevel_id, xdg);
            let w = t.win.xdg_toplevels.at((client_id, toplevel_id));
            &&& t.win.xdg_toplevels.has((client_id, toplevel_id))
            &&& !w.maximized && !w.fullscreen
            &&& w.min_size == (0i32, 0i32) && w.max_size == (0i32, 0i32)
            &&& w.parent is None && w.restore is None
            &&& w.xdg_surface_id == xdg
            &&& t.win.xdg_surfaces.at((client_id, xdg)).role == Some(XdgRole::Toplevel(toplevel_id))
            &&& t.surface_of_toplevel((client_id, toplevel_id)) == Some(
                (client_id, s.win.xdg_surfaces.at((client_id, xdg)).wl_surface_id),
            )
            &&& t.dirty
        }),
{
}

/// A window that has been made is told what the compositor can do and then asked to
/// take the size it likes, before the focus moves to it.
pub proof fn lemma_made_window_is_asked_what_it_likes(s: StateView, q: ToplevelRequest)
    requires
        s.clients.has(q.client_id),
        !s.win.xdg_surfaces.has((q.client_id, q.xdg_surface_id)),
    ensures
        s.finish_toplevel(q).clients.at(q.client_id).outbox == s.clients.at(q.client_id).outbox.push(
            MessageView::Notice(Notice::ToplevelCapabilities { toplevel: q.toplevel_id }),
        ).push(MessageView::Notice(Notice::ToplevelConfigure { toplevel: q.toplevel_id, width: 0, height: 0 })),
{
}

/// The focus of a window that has been made goes to its surface.
pub proof fn lemma_made_window_is_focused(s: StateView, q: ToplevelRequest)
    requires
        s.win.xdg_surfaces.has((q.client_id, q.xdg_surface_id)),
    ensures
        s.finish_toplevel(q).input.focused_surface == Some(
            (q.client_id, s.win.xdg_surfaces.at((q.client_id, q.xdg_surface_id)).wl_surface_id),
        ),
{
    let told = s.notice(q.client_id, Notice::ToplevelCapabilities { toplevel: q.toplevel_id }).ask_size(
        (q.client_id, q.toplevel_id),
        (0, 0),
    );
    let surface = (q.client_id, s.win.xdg_surfaces.at((q.client_id, q.xdg_surface_id)).wl_surface_id);
    lemma_focus_moves(told, surface);
}

/// A window that goes takes its decoration with it, has no focus and holds no edge,
/// and the shell is to be told.
pub proof fn lemma_window_goes_with_all_its_own(s: StateView, key: ClientObjectId, surface: ClientObjectId)
    requires
        s.win.xdg_toplevels.has(key),
        s.win.xdg_surfaces.has((key.0, s.win.xdg_toplevels.at(key).xdg_surface_id)),
        surface == (key.0, s.win.xdg_surfaces.at((key.0, s.win.xdg_toplevels.at(key).xdg_surface_id)).wl_surface_id),
    ensures
        ({
            let t = s.destroy_xdg_toplevel(key.0, key.1);
            &&& !t.win.xdg_toplevels.has(key)
            &&& !t.win.toplevel_decoration.has(key)
            &&& s.win.toplevel_decoration.has(key) ==> !t.win.decorations.has(
                (key.0, s.win.toplevel_decoration.at(key)),
            )
            &&& t.input.focused_surface != Some(surface)
            &&& s.input.focused_surface != Some(surface) ==> t.input.focused_surface == s.input.focused_surface
            &&& t.win.resize_anchor is Some ==> (t.win.resize_anchor->0).surface != surface
            &&& t.hooks == s.hooks.push(Hook::ToplevelDestroyed(surface))
            &&& t.dirty
        }),
{
}

/// A button is held from its press to its release. While a window or content is
/// being dragged nobody hears of any, and the first release ends it.
pub proof fn lemma_button_is_held_until_released<S: Shell>(s: StateView, shell: S, button: u32, pressed: bool)
    ensures
        ({
            let t = s.note_button(button, pressed);
            let u = s.start_button(button, pressed);
            &&& t.input.pressed_buttons.contains(button) == pressed
            &&& s.win.pointer_grab is Some || s.data.drag is Some ==> s.button_step(shell, button, pressed)
                == ButtonStep::Done
            &&& s.win.pointer_grab is None && s.data.drag is None && !pressed ==> s.button_step(shell, button, pressed)
                == ButtonStep::Deliver
            &&& s.win.pointer_grab is None && s.data.drag is None && pressed ==> s.button_step(shell, button, pressed)
                == ButtonStep::Ask(t.hit_test(shell, s.input.cursor))
            &&& pressed ==> u == t
            &&& !pressed && s.win.pointer_grab is Some ==> u.win.pointer_grab is None
            &&& !pressed && s.win.pointer_grab is None && s.data.drag is Some ==> u == t.finish_drag()
        }),
{
    let was = s.input.pressed_buttons;
    lemma_filter_facts(was, |b: u32| b != button);
    lemma_set_without(was, button, |b: u32| b != button);
    if pressed && !was.contains(button) {
        assert(s.note_button(button, pressed).input.pressed_buttons[was.len() as int] == button);
    }
}

/// A press that dismisses a popup goes no further. Otherwise a press on a window
/// without the focus is a click the shell hears of, and any other goes to the
/// client.
pub proof fn lemma_where_a_press_goes<S: Shell>(s: StateView, shell: S)
    ensures
        s.dismisses_popups() ==> s.press_step(shell) == PressStep::Dismissed,
        !s.dismisses_popups() ==> {
            let left = s.dismiss_popups();
            match left.hit_test(shell, left.input.cursor) {
                Some(h) => if left.input.focused_surface == Some(h.toplevel) {
                    s.press_step(shell) == PressStep::Deliver
                } else {
                    s.press_step(shell) == PressStep::Clicked(h)
                },
                None => s.press_step(shell) == PressStep::Deliver,
            }
        },
{
}

/// A key is held from its press to its release, and the modifiers are what they
/// have become. Escape ends a drag, and nobody hears of that press. Of any other
/// press the shell is asked first.
pub proof fn lemma_key_is_held_until_released(
    s: StateView,
    consumed: Seq<u32>,
    key: u32,
    pressed: bool,
    modifiers: ModifierState,
)
    ensures
        ({
            let t = s.note_key(key, pressed, modifiers);
            let escape = pressed && key == 1 && s.data.drag is Some;
            &&& t.input.pressed_keys.contains(key) == pressed
            &&& t.input.modifiers == modifiers
            &&& escape ==> s.key_step(consumed, key, pressed) == KeyStep::Done && s.start_key(key, pressed, modifiers)
                == t.cancel_drag() && s.consumed_after(consumed, key, pressed).contains(key)
            &&& !escape ==> s.start_key(key, pressed, modifiers) == t
            &&& !escape && pressed ==> s.key_step(consumed, key, pressed) == KeyStep::Ask
        }),
{
    let was = s.input.pressed_keys;
    lemma_filter_facts(was, |b: u32| b != key);
    lemma_set_without(was, key, |b: u32| b != key);
    if pressed && !was.contains(key) {
        assert(s.note_key(key, pressed, modifiers).input.pressed_keys[was.len() as int] == key);
    }
    if !consumed.contains(key) && pressed && key == 1 && s.data.drag is Some {
        assert(s.consumed_after(consumed, key, pressed)[consumed.len() as int] == key);
    }
}

/// A combination is satisfied by its own key or button and no other, while every
/// modifier it names is held, on whichever side of the keyboard.
pub proof fn lemma_combination_is_satisfied(combo: KeyCombo, click: MouseCombo, key: u32, button: MouseButton, held: Seq<u32>)
    ensures
        ({
            let down = |left: u32, right: u32| held.contains(left) || held.contains(right);
            let k = combo.modifiers;
            let m = click.modifiers;
            &&& combo.satisfied(key, held) <==> key == combo.key && (k.shift ==> down(42, 54)) && (k.ctrl ==> down(29, 97))
                && (k.alt ==> down(56, 100)) && (k.logo ==> down(125, 126))
            &&& click.satisfied(button, held) <==> button == click.button && (m.shift ==> down(42, 54)) && (m.ctrl
                ==> down(29, 97)) && (m.alt ==> down(56, 100)) && (m.logo ==> down(125, 126))
        }),
{
    lemma_all_down(combo.modifiers, held);
    lemma_all_down(click.modifiers, held);
}

proof fn lemma_all_down(mods: Modifiers, held: Seq<u32>)
    ensures
        mods.all_down(held) <==> (mods.shift ==> held.contains(42) || held.contains(54)) && (mods.ctrl ==> held.contains(29)
            || held.contains(97)) && (mods.alt ==> held.contains(56) || held.contains(100)) && (mods.logo
            ==> held.contains(125) || held.contains(126)),
{
    assert(Modifier::Shift.down(held) == (held.contains(42) || held.contains(54)));
    assert(Modifier::Ctrl.down(held) == (held.contains(29) || held.contains(97)));
    assert(Modifier::Alt.down(held) == (held.contains(56) || held.contains(100)));
    assert(Modifier::Super.down(held) == (held.contains(125) || held.contains(126)));
    assert(mods.has(Modifier::Shift) == mods.shift && mods.has(Modifier::Ctrl) == mods.ctrl);
    assert(mods.has(Modifier::Alt) == mods.alt && mods.has(Modifier::Super) == mods.logo);
    if (mods.shift ==> Modifier::Shift.down(held)) && (mods.ctrl ==> Modifier::Ctrl.down(held)) && (mods.alt
        ==> Modifier::Alt.down(held)) && (mods.logo ==> Modifier::Super.down(held)) {
        assert forall|m: Modifier| mods.has(m) implies #[trigger] m.down(held) by {
            match m {
                Modifier::Shift => {},
                Modifier::Ctrl => {},
                Modifier::Alt => {},
                Modifier::Super => {},
            }
        }
    }
}

/// The keys of a row follow one another: the digits from one to nought, and the
/// letters as they stand on the keyboard.
pub proof fn lemma_keys_stand_in_rows()
    ensures
        ({
            let digits = seq!['1', '2', '3', '4', '5', '6', '7', '8', '9', '0'];
            let top = seq!['Q', 'W', 'E', 'R', 'T', 'Y', 'U', 'I', 'O', 'P'];
            let home = seq!['A', 'S', 'D', 'F', 'G', 'H', 'J', 'K', 'L'];
            let bottom = seq!['Z', 'X', 'C', 'V', 'B', 'N', 'M'];
            &&& forall|i: int| 0 <= i < 10 ==> character_key(#[trigger] digits[i]) == Some((2 + i) as u32)
            &&& forall|i: int| 0 <= i < 10 ==> character_key(#[trigger] top[i]) == Some((16 + i) as u32)
            &&& forall|i: int| 0 <= i < 9 ==> character_key(#[trigger] home[i]) == Some((30 + i) as u32)
            &&& forall|i: int| 0 <= i < 7 ==> character_key(#[trigger] bottom[i]) == Some((44 + i) as u32)
        }),
{
}

proof fn lemma_two_args(a: ArgType, b: ArgType)
    ensures
        fds_among(seq![a, b]) == (if a == ArgType::Fd { 1int } else { 0 }) + (if b == ArgType::Fd { 1int } else { 0 }),
{
    let p = |x: ArgType| x == ArgType::Fd;
    let none = Seq::<ArgType>::empty();
    lemma_filter_facts(none, p);
    lemma_filter_push(none, a, p);
    lemma_filter_push(none.push(a), b, p);
    assert(seq![a, b] =~= none.push(a).push(b));
}

proof fn lemma_more_args(s: Seq<ArgType>, a: ArgType)
    ensures
        fds_among(s.push(a)) == fds_among(s) + (if a == ArgType::Fd { 1int } else { 0 }),
{
    lemma_filter_push(s, a, |x: ArgType| x == ArgType::Fd);
}

/// Making a pool and receiving content each take one descriptor.
pub proof fn lemma_who_brings_a_descriptor()
    ensures
        fd_count(ObjectType::WlShm, 0) == 1,
        fd_count(ObjectType::WlDataOffer, 1) == 1,
        fd_count(ObjectType::ZwpPrimarySelectionOffer, 0) == 1,
        fd_count(ObjectType::ZwlrDataControlOffer, 0) == 1,
{
    lemma_two_args(ArgType::NewId, ArgType::Fd);
    lemma_more_args(seq![ArgType::NewId, ArgType::Fd], ArgType::Int);
    assert(seq![ArgType::NewId, ArgType::Fd].push(ArgType::Int) =~= seq![ArgType::NewId, ArgType::Fd, ArgType::Int]);
    lemma_two_args(ArgType::String, ArgType::Fd);
}

/// Descriptors that come with a client's data wait in the order they came, unless
/// more than two hundred and fifty-six would be waiting: then all are closed, and
/// the client is to be disconnected.
pub proof fn lemma_descriptors_wait_in_order(s: StateView, client_id: u32, fds: Seq<i32>)
    requires
        s.clients.has(client_id),
    ensures
        ({
            let t = s.fds_received(client_id, fds);
            let (before, after) = (s.clients.at(client_id), t.clients.at(client_id));
            &&& before.fd_queue.len() + fds.len() <= 256 ==> after.fd_queue == before.fd_queue + fds && t.mem.closed_fds
                == s.mem.closed_fds && after.cancelled == before.cancelled
            &&& before.fd_queue.len() + fds.len() > 256 ==> after.fd_queue.len() == 0 && after.cancelled
                && t.mem.closed_fds == s.mem.closed_fds + (before.fd_queue + fds)
        }),
{
}

/// A feedback is told how its frame was presented, or that it never was, and is
/// gone.
pub proof fn lemma_feedback_is_told(s: StateView, key: ClientObjectId, presented: Option<Presentation>)
    requires
        s.clients.has(key.0),
        key.1 < 0xff00_0000,
    ensures
        ({
            let t = s.settle_feedbacks(seq![key], presented);
            let n = s.clients.at(key.0).outbox.len() as int;
            let after = t.clients.at(key.0);
            &&& after.outbox.len() > n
            &&& presented is Some ==> says(after.outbox[n], key.1, 1, (presented->0).told())
            &&& presented is None ==> says(after.outbox[n], key.1, 2, Seq::empty())
            &&& !after.objects.has(key.1)
        }),
{
    let keys = seq![key];
    assert(keys.drop_last() =~= Seq::<ClientObjectId>::empty());
    let (op, args) = match presented {
        Some(p) => (1u16, p.told()),
        None => (2u16, Seq::<ArgView>::empty()),
    };
    assert(s.settle(keys.drop_last(), op, args) == s);
}

} // verus!
