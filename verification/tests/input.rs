//! Input: hits, pointers, touches, scrolls, keys and buttons.
use tokio_way_core::input::focus::{accepts_click_focus, clear_focus, switch_focus};
use tokio_way_core::input::hit::{hit_test, is_visible, HitResult};
use tokio_way_core::input::pointer::deliver_pointer_motion;
use tokio_way_core::input::popups::dismiss_popups_outside_click;
use tokio_way_core::input::scroll::{deliver_scroll, deliver_scroll_end, scroll_reversed, ScrollAxis};
use tokio_way_core::input::touch::{finish_touch_down, touch_cancel, touch_down, touch_motion, touch_up};
use tokio_way_core::protocol::messages::{Message, Notice, ScrollSource};
use tokio_way_core::run::buttons::{
    deliver_button, enter_clicked, start_button, start_press, ButtonStep, PressStep,
};
use tokio_way_core::run::clients::client_connected;
use tokio_way_core::run::housekeeping::housekeep;
use tokio_way_core::run::keyboard::{deliver_key, evdev_key, finish_key, start_key, KeyStep, KEY_ESC};
use tokio_way_core::run::pacer::FramePacer;
use tokio_way_core::shell::ShellAnswers;
use tokio_way_core::state::compositor_state::CompositorState;
use tokio_way_core::state::keyboard::{needs_plain_keymap, Keyboard};
use tokio_way_core::state::types::{
    KeyboardBinding, ModifierState, Output, OutputGeometry, OutputMode, PointerBinding, RegionOp, RegionRect,
    Scale, TouchBinding, XdgPopupState,
};
use tokio_way_core::table::KeySet;

fn desk() -> (CompositorState, ShellAnswers) {
    let mut state = CompositorState::new();
    state.out.outputs.push(Output {
        id: 1,
        geometry: OutputGeometry {
            x: 0,
            y: 0,
            subpixel: 0,
            make: String::new(),
            model: String::new(),
            transform: 0,
        },
        modes: vec![OutputMode { flags: 1, width: 500, height: 500, refresh_mhz: 0 }],
        scale: Scale(120),
        name: String::new(),
        description: String::new(),
        width: 500,
        height: 500,
    });
    let mut shell = ShellAnswers::new();
    let mut stack = Vec::new();
    for (client, x) in [(3, 0), (4, 50)] {
        client_connected(&mut state, client);
        state.register_shm_pool(client, 20, 9, 100_000, true);
        state.register_buffer(client, 21, 20, 0, 100, 100, 400, 0);
        state.create_surface(client, 10);
        let s = state.surf.surfaces.get_mut((client, 10)).unwrap();
        s.buffer_id = Some(21);
        s.position = (x, 0);
        stack.push((client, 10));
        state.input.pointers.push(PointerBinding { client_id: client, object_id: 70 });
        state.input.keyboards.push(KeyboardBinding { client_id: client, object_id: 71 });
        state.input.touches.push(TouchBinding { client_id: client, object_id: 72 });
        shell.visible.insert((client, 10));
    }
    shell.stacks.insert(1, stack);
    (state, shell)
}

fn outbox(state: &mut CompositorState, client_id: u32) -> Vec<Notice> {
    let mut notices = Vec::new();
    for m in state.clients.get(client_id).unwrap().take_outbox() {
        if let Message::Notice(n) = m {
            notices.push(n);
        }
    }
    notices
}

#[test]
fn the_topmost_window_is_hit() {
    let (state, shell) = desk();
    assert_eq!(
        hit_test(&state, &shell, 60, 10),
        Some(HitResult { toplevel: (4, 10), surface: (4, 10), surface_x: 50, surface_y: 0 })
    );
    assert_eq!(hit_test(&state, &shell, 49, 10).unwrap().surface, (3, 10));
    assert_eq!(hit_test(&state, &shell, 150, 10), None);
    assert!(is_visible(&state, &shell, (3, 10)));
    assert!(!is_visible(&state, &shell, (3, 11)));
}

#[test]
fn an_input_region_lets_clicks_through() {
    let (mut state, shell) = desk();
    state.surf.surfaces.get_mut((4, 10)).unwrap().input_region =
        Some(vec![RegionRect { op: RegionOp::Add, x: 0, y: 50, width: 100, height: 50 }]);
    assert_eq!(hit_test(&state, &shell, 60, 10).unwrap().surface, (3, 10));
    assert_eq!(hit_test(&state, &shell, 60, 60).unwrap().surface, (4, 10));
}

#[test]
fn a_subsurface_is_hit_before_its_parent() {
    let (mut state, shell) = desk();
    state.create_surface(4, 11);
    {
        let s = state.surf.surfaces.get_mut((4, 11)).unwrap();
        s.buffer_id = Some(21);
        s.parent = Some(10);
        s.subsurface_position = (90, 90);
    }
    state.surf.surfaces.get_mut((4, 10)).unwrap().children.push(11);
    let hit = hit_test(&state, &shell, 145, 95).unwrap();
    assert_eq!((hit.toplevel, hit.surface, hit.surface_x, hit.surface_y), ((4, 10), (4, 11), 140, 90));
    assert_eq!(hit_test(&state, &shell, 200, 150).unwrap().surface, (4, 11));
}

#[test]
fn the_pointer_enters_and_leaves() {
    let (mut state, shell) = desk();
    state.input.focused_surface = Some((3, 10));
    state.input.cursor = (10, 10);
    deliver_pointer_motion(&mut state, &shell, 5, (0, 0));
    assert!(state.cursor_dirty);
    let told = outbox(&mut state, 3);
    assert!(matches!(told[0], Notice::PointerEnter { pointer: 70, surface: 10, x: 0, y: 0, .. }));
    assert!(matches!(told[1], Notice::PointerFrame { pointer: 70 }));
    assert!(matches!(told[2], Notice::PointerMotion { time: 5, pointer: 70, .. }));
    assert_eq!(told.len(), 4);
    deliver_pointer_motion(&mut state, &shell, 6, (0, 0));
    assert_eq!(outbox(&mut state, 3).len(), 2);
    state.input.cursor = (120, 10);
    deliver_pointer_motion(&mut state, &shell, 7, (0, 0));
    assert!(matches!(outbox(&mut state, 3)[0], Notice::PointerLeave { surface: 10, .. }));
    assert!(matches!(outbox(&mut state, 4)[0], Notice::PointerEnter { surface: 10, x: 50, .. }));
    state.input.cursor = (400, 400);
    deliver_pointer_motion(&mut state, &shell, 8, (0, 0));
    assert_eq!(state.input.pointer_surface, None);
}

#[test]
fn something_is_focused_if_nothing_is() {
    let (mut state, shell) = desk();
    state.input.cursor = (400, 400);
    deliver_pointer_motion(&mut state, &shell, 5, (0, 0));
    assert_eq!(state.input.focused_surface, Some((4, 10)));
}

#[test]
fn focus_is_told_to_both_sides() {
    let (mut state, _) = desk();
    switch_focus(&mut state, (3, 10));
    let told = outbox(&mut state, 3);
    assert!(matches!(told[0], Notice::KeyboardEnter { keyboard: 71, surface: 10, .. }));
    assert!(matches!(told[1], Notice::KeyboardModifiers { keyboard: 71, .. }));
    assert!(matches!(told[2], Notice::ToplevelActivated { surface: 10, activated: true }));
    assert!(matches!(told[3], Notice::Clipboard));
    switch_focus(&mut state, (3, 10));
    assert_eq!(outbox(&mut state, 3).len(), 0);
    switch_focus(&mut state, (4, 10));
    let left = outbox(&mut state, 3);
    assert!(matches!(left[0], Notice::KeyboardLeave { surface: 10, .. }));
    assert!(matches!(left[1], Notice::ToplevelActivated { activated: false, .. }));
    clear_focus(&mut state);
    assert_eq!(state.input.focused_surface, None);
    assert!(accepts_click_focus(&state, (3, 10)));
}

#[test]
fn a_finger_stays_with_its_surface() {
    let (mut state, shell) = desk();
    state.dirty = false;
    let hit = touch_down(&mut state, &shell, 10, 10).unwrap();
    assert_eq!(hit.surface, (3, 10));
    assert!(state.dirty);
    assert_eq!(state.input.touch_points.get(9), None);
    assert_eq!(outbox(&mut state, 3).len(), 0);
    finish_touch_down(&mut state, hit, 1, 9);
    assert_eq!(state.input.touch_points.get(9), Some(&(3, 10)));
    assert!(matches!(
        outbox(&mut state, 3)[0],
        Notice::TouchDown { touch: 72, id: 9, surface: 10, x: 0, y: 0, .. }
    ));
    state.surf.surfaces.get_mut((3, 10)).unwrap().position = (7, 8);
    touch_motion(&mut state, 2, 9);
    assert!(matches!(outbox(&mut state, 3)[0], Notice::TouchMotion { x: 7, y: 8, id: 9, .. }));
    assert_eq!(outbox(&mut state, 4).len(), 0);
    touch_up(&mut state, 3, 9);
    assert!(matches!(outbox(&mut state, 3)[0], Notice::TouchUp { id: 9, .. }));
    touch_up(&mut state, 4, 9);
    assert_eq!(outbox(&mut state, 3).len(), 0);
}

#[test]
fn every_client_with_a_finger_hears_of_a_cancel() {
    let (mut state, shell) = desk();
    for (id, x) in [(1, 10), (2, 20)] {
        let hit = touch_down(&mut state, &shell, x, 10).unwrap();
        finish_touch_down(&mut state, hit, 1, id);
    }
    outbox(&mut state, 3);
    touch_cancel(&mut state);
    assert_eq!(outbox(&mut state, 3), vec![Notice::TouchCancel { touch: 72 }]);
    assert_eq!(outbox(&mut state, 4), vec![]);
    assert_eq!(state.input.touch_points.len(), 0);
}

fn axis(distance: i32, v120: i32) -> ScrollAxis {
    ScrollAxis { moved: distance != 0, distance, v120 }
}

#[test]
fn a_scroll_is_told_in_order() {
    let (mut state, _) = desk();
    deliver_scroll(&mut state, 1, axis(0, 0), axis(256, 120), ScrollSource::Wheel);
    assert_eq!(outbox(&mut state, 3), vec![]);
    state.input.pointer_surface = Some((3, 10));
    deliver_scroll(&mut state, 1, axis(512, 60), axis(256, 120), ScrollSource::Wheel);
    assert_eq!(
        outbox(&mut state, 3),
        vec![
            Notice::PointerAxisSource { pointer: 70, source: ScrollSource::Wheel },
            Notice::PointerAxisSteps { pointer: 70, vertical: true, v120: 120 },
            Notice::PointerAxis { time: 1, pointer: 70, vertical: true, distance: 256 },
            Notice::PointerAxisSteps { pointer: 70, vertical: false, v120: 60 },
            Notice::PointerAxis { time: 1, pointer: 70, vertical: false, distance: 512 },
            Notice::PointerFrame { pointer: 70 },
        ]
    );
    deliver_scroll_end(&mut state, 2);
    assert_eq!(outbox(&mut state, 3), vec![]);
}

#[test]
fn only_axes_that_moved_stop() {
    let (mut state, _) = desk();
    state.settings.natural_scrolling = false;
    state.input.pointer_surface = Some((3, 10));
    assert!(scroll_reversed(&state, ScrollSource::Finger));
    assert!(!scroll_reversed(&state, ScrollSource::Wheel));
    deliver_scroll(&mut state, 1, axis(0, 0), axis(-256, 30), ScrollSource::Finger);
    assert!(outbox(&mut state, 3)
        .contains(&Notice::PointerAxisSteps { pointer: 70, vertical: true, v120: -30 }));
    deliver_scroll_end(&mut state, 2);
    assert_eq!(
        outbox(&mut state, 3),
        vec![
            Notice::PointerAxisSource { pointer: 70, source: ScrollSource::Finger },
            Notice::PointerAxisStop { time: 2, pointer: 70, vertical: true },
            Notice::PointerFrame { pointer: 70 },
        ]
    );
}

const NO_MODIFIERS: ModifierState = ModifierState { depressed: 0, latched: 0, locked: 0, group: 0 };
const SHIFTED: ModifierState = ModifierState { depressed: 1, latched: 0, locked: 0, group: 0 };

#[test]
fn keycodes_are_eight_above_evdev() {
    assert_eq!(evdev_key(38), 30);
    assert_eq!(evdev_key(3), 0);
}

#[test]
fn a_key_goes_to_the_focused_client() {
    let (mut state, _) = desk();
    let mut consumed: KeySet<u32> = KeySet::new();
    state.input.focused_surface = Some((4, 10));
    let (step, changed) = start_key(&mut state, &mut consumed, 42, true, SHIFTED);
    assert_eq!((step, changed), (KeyStep::Ask, true));
    assert!(state.input.pressed_keys.contains(42));
    finish_key(&mut state, &mut consumed, 5, 42, changed, false);
    let told = outbox(&mut state, 4);
    assert!(matches!(told[0], Notice::KeyboardModifiers { keyboard: 71, .. }));
    assert!(matches!(told[1], Notice::KeyboardKey { time: 5, keyboard: 71, key: 42, pressed: true, .. }));
    let (step, changed) = start_key(&mut state, &mut consumed, 42, false, NO_MODIFIERS);
    assert_eq!((step, changed), (KeyStep::Deliver, true));
    assert!(!state.input.pressed_keys.contains(42));
    deliver_key(&mut state, 6, 42, false, false);
    assert!(matches!(outbox(&mut state, 4)[0], Notice::KeyboardKey { pressed: false, .. }));
}

#[test]
fn a_taken_press_takes_its_release() {
    let (mut state, _) = desk();
    let mut consumed: KeySet<u32> = KeySet::new();
    state.input.focused_surface = Some((4, 10));
    start_key(&mut state, &mut consumed, 30, true, NO_MODIFIERS);
    finish_key(&mut state, &mut consumed, 5, 30, false, true);
    assert_eq!(outbox(&mut state, 4), vec![]);
    assert_eq!(start_key(&mut state, &mut consumed, 30, false, NO_MODIFIERS).0, KeyStep::Done);
    assert_eq!(start_key(&mut state, &mut consumed, 30, false, NO_MODIFIERS).0, KeyStep::Deliver);
}

#[test]
fn escape_ends_a_drag() {
    let (mut state, _) = desk();
    let mut consumed: KeySet<u32> = KeySet::new();
    assert_eq!(start_key(&mut state, &mut consumed, KEY_ESC, true, NO_MODIFIERS).0, KeyStep::Ask);
    state.start_drag(None, 3, (3, 10), None);
    assert_eq!(start_key(&mut state, &mut consumed, KEY_ESC, true, NO_MODIFIERS).0, KeyStep::Done);
    assert!(state.data.drag.is_none());
    assert!(consumed.contains(KEY_ESC));
}

#[test]
fn a_press_is_asked_of_the_shell_first() {
    let (mut state, shell) = desk();
    state.input.cursor = (10, 10);
    match start_button(&mut state, &shell, 0x110, true) {
        ButtonStep::Ask(Some(hit)) => assert_eq!(hit.surface, (3, 10)),
        _ => panic!("the shell is not asked"),
    }
    assert!(state.input.pressed_buttons.contains(0x110));
    state.input.focused_surface = Some((4, 10));
    let hit = match start_press(&mut state, &shell) {
        PressStep::Clicked(hit) => hit,
        _ => panic!("not a click"),
    };
    enter_clicked(&mut state, hit);
    assert_eq!(state.input.pointer_surface, Some((3, 10)));
    deliver_button(&mut state, 9, 0x110, true);
    let told = outbox(&mut state, 3);
    assert!(matches!(told[0], Notice::PointerEnter { .. }));
    let serial = match told[2] {
        Notice::PointerButton { serial, time: 9, pointer: 70, button: 0x110, pressed: true } => serial,
        _ => panic!("no button"),
    };
    assert_eq!(state.input.last_button_serial.get(3), Some(&serial));
    assert_eq!(start_button(&mut state, &shell, 0x110, false), ButtonStep::Deliver);
}

#[test]
fn a_grab_takes_every_button() {
    let (mut state, shell) = desk();
    state.create_xdg_surface(3, 11, 10);
    state.create_xdg_toplevel(3, 12, 11);
    state.start_move_grab((3, 10));
    assert_eq!(start_button(&mut state, &shell, 0x111, true), ButtonStep::Done);
    assert!(state.win.pointer_grab.is_some());
    assert_eq!(start_button(&mut state, &shell, 0x111, false), ButtonStep::Done);
    assert!(state.win.pointer_grab.is_none());
}

#[test]
fn popups_are_dismissed_down_to_the_pointer() {
    let (mut state, shell) = desk();
    for (client, popup) in [(3, 30), (4, 31)] {
        state.create_xdg_surface(client, 11, 10);
        state.create_xdg_popup(
            client,
            popup,
            XdgPopupState {
                client_id: client,
                xdg_surface_id: 11,
                parent_xdg_surface_id: 0,
                positioner: 0,
                x: 0,
                y: 0,
                width: 100,
                height: 100,
            },
        );
        state.win.grabbed_popups.push((client, popup));
    }
    state.win.grabbed_popups.push((9, 9));
    state.input.cursor = (10, 10);
    assert_eq!(start_press(&mut state, &shell), PressStep::Dismissed);
    assert_eq!(state.win.grabbed_popups, vec![(3, 30)]);
    assert_eq!(outbox(&mut state, 4), vec![Notice::PopupDone { popup: 31 }]);
    assert!(!dismiss_popups_outside_click(&mut state));
}

#[test]
fn a_keymap_that_says_nothing_is_none() {
    assert_eq!(Keyboard::new(None).keymap_string(), None);
    assert_eq!(Keyboard::new(Some(String::new())).keymap_string(), None);
    assert_eq!(Keyboard::new(Some("xkb_keymap".to_string())).keymap_string(), Some("xkb_keymap"));
    assert_eq!(Keyboard::update_key(None), NO_MODIFIERS);
    assert_eq!(Keyboard::update_key(Some(SHIFTED)), SHIFTED);
    assert!(needs_plain_keymap(false, Some("caps:nonsense")));
    assert!(!needs_plain_keymap(true, Some("caps:escape")));
    assert!(!needs_plain_keymap(false, None));
}

#[test]
fn buffers_are_given_back_when_nothing_reads_them() {
    let (mut state, _) = desk();
    let mut pacer = FramePacer::new();
    state.register_buffer(3, 22, 20, 0, 10, 10, 40, 0);
    state.mem.buffers_pending_release.push((3, 21));
    state.mem.buffers_pending_release.push((3, 22));
    housekeep(&mut state, &mut pacer, 0, 0, &vec![(3, 22)]);
    assert!(state.mem.releasing_buffers.contains((3, 22)));
    assert!(!state.mem.releasing_buffers.contains((3, 21)));
    assert_eq!(state.clients.get(3).unwrap().take_outbox().len(), 0);
    housekeep(&mut state, &mut pacer, 0, 0, &vec![]);
    let out = state.clients.get(3).unwrap().take_outbox();
    assert!(matches!(&out[0], Message::Event(e) if e.object_id == 22 && e.op_code == 0));
    assert_eq!(out.len(), 1);
}
