//! Windows, popups, decorations and layer surfaces.
use tokio_way_core::input::grab::{edges_for_point, end_grab, resize_limits, update_grab};
use tokio_way_core::layer::{arrange, geometry, keys_in_band, ordered_for_output, place, usable_area, Rect};
use tokio_way_core::protocol::dispatch::{handle_message, Followup};
use tokio_way_core::protocol::messages::{Message, Notice};
use tokio_way_core::protocol::wire_utils::{encode_args, Arg, ClientMessage};
use tokio_way_core::protocol::xdg_surface::{finish_get_popup, finish_get_toplevel, send_configure};
use tokio_way_core::protocol::zwlr_layer_surface::finish_adopt_popup;
use tokio_way_core::protocol::ObjectType;
use tokio_way_core::run::clients::{client_connected, client_disconnected};
use tokio_way_core::run::displays::output_changed;
use tokio_way_core::shell::{NoShell, ShellAnswers};
use tokio_way_core::state::compositor_state::CompositorState;
use tokio_way_core::state::types::{
    Anchor, GrabKind, Hook, KeyboardInteractivity, LayerKind, LayerSurfaceState, LayerSurfaceStatePending, Output,
    OutputGeometry, OutputMode, ResizeEdges, Scale,
};

fn request(object_id: u32, op_code: u16, args: Vec<Arg>) -> ClientMessage {
    ClientMessage { client_id: 3, object_id, op_code, args: encode_args(&args) }
}

fn send(state: &mut CompositorState, object_id: u32, op_code: u16, args: Vec<Arg>) {
    assert!(handle_message(state, &NoShell, &request(object_id, op_code, args)).is_none());
}

fn output(id: u32, x: i32) -> Output {
    Output {
        id,
        geometry: OutputGeometry {
            x,
            y: 0,
            subpixel: 0,
            make: String::new(),
            model: String::new(),
            transform: 0,
        },
        modes: vec![OutputMode { flags: 1, width: 1000, height: 800, refresh_mhz: 0 }],
        scale: Scale(120),
        name: String::new(),
        description: String::new(),
        width: 1000,
        height: 800,
    }
}

fn state_with_window() -> CompositorState {
    let mut state = CompositorState::new();
    client_connected(&mut state, 3);
    state.out.outputs.push(output(1, 0));
    state.register(3, 10, ObjectType::WlSurface);
    state.create_surface(3, 10);
    state.register_shm_pool(3, 20, 9, 1_000_000, true);
    state.register_buffer(3, 21, 20, 0, 300, 200, 1200, 0);
    state.register(3, 11, ObjectType::XdgSurface);
    state.create_xdg_surface(3, 11, 10);
    match handle_message(&mut state, &NoShell, &request(11, 1, vec![Arg::Uint(12)])) {
        Some(Followup::TellShell(q)) => {
            assert_eq!(q.surface, Some((3, 10)));
            assert_eq!(state.toplevel_for_surface((3, 10)), Some((3, 12)));
            assert_eq!(state.input.focused_surface, None);
            assert_eq!(state.clients.peek(3).unwrap().outbox.len(), 0);
            finish_get_toplevel(&mut state, &q);
        }
        _ => panic!("the shell was not to be told"),
    }
    state
}

fn outbox(state: &mut CompositorState) -> Vec<Message> {
    state.clients.get(3).unwrap().take_outbox()
}

fn show(state: &mut CompositorState) {
    send_configure(state, 3, 11);
    let serial = state.win.xdg_surfaces.get((3, 11)).unwrap().highest_configure;
    send(state, 11, 4, vec![Arg::Uint(serial)]);
    send(state, 10, 1, vec![Arg::Uint(21), Arg::Int(0), Arg::Int(0)]);
    send(state, 10, 6, vec![]);
}

fn desk() -> ShellAnswers {
    let mut shell = ShellAnswers::new();
    shell.placed.insert((3, 10), 1);
    shell.stacks.insert(1, vec![(3, 10)]);
    shell.visible.insert((3, 10));
    shell
}

#[test]
fn a_window_is_made_and_focused() {
    let state = state_with_window();
    assert_eq!(state.toplevel_for_surface((3, 10)), Some((3, 12)));
    assert_eq!(state.surface_of_toplevel((3, 12)), Some((3, 10)));
    assert_eq!(state.input.focused_surface, Some((3, 10)));
    assert!(state.hooks.is_empty());
    assert!(state.has_role((3, 10)));
}

#[test]
fn a_buffer_before_a_configure_is_fatal() {
    let mut state = state_with_window();
    send(&mut state, 10, 1, vec![Arg::Uint(21), Arg::Int(0), Arg::Int(0)]);
    send(&mut state, 10, 6, vec![]);
    assert!(state.clients.peek(3).unwrap().cancelled);
    assert_eq!(state.surf.surfaces.get((3, 10)).unwrap().buffer_id, None);
}

#[test]
fn a_configure_is_acknowledged_with_those_before_it() {
    let mut state = state_with_window();
    for _ in 0..3 {
        send_configure(&mut state, 3, 11);
    }
    let serials = state.win.xdg_surfaces.get((3, 11)).unwrap().pending_configures.clone();
    let n = serials.len();
    send(&mut state, 11, 4, vec![Arg::Uint(serials[n - 2])]);
    let x = state.win.xdg_surfaces.get((3, 11)).unwrap();
    assert!(x.configured);
    assert_eq!(x.pending_configures, vec![serials[n - 1]]);
    send(&mut state, 11, 4, vec![Arg::Uint(serials[0])]);
    assert!(!state.clients.peek(3).unwrap().cancelled);
    send(&mut state, 11, 4, vec![Arg::Uint(serials[n - 1] + 1)]);
    assert!(state.clients.peek(3).unwrap().cancelled);
}

#[test]
fn configures_that_wait_are_bounded() {
    let mut state = state_with_window();
    for _ in 0..300 {
        send_configure(&mut state, 3, 11);
    }
    assert_eq!(state.win.xdg_surfaces.get((3, 11)).unwrap().pending_configures.len(), 256);
}

#[test]
fn a_maximized_window_goes_back_where_it_was() {
    let mut state = state_with_window();
    show(&mut state);
    state.set_position((3, 10), (40, 50));
    assert!(state.set_window_state(&desk(), (3, 12), true, false));
    assert!(state.is_window_state_locked((3, 10)));
    assert_eq!(state.surf.surfaces.get((3, 10)).unwrap().position, (0, 0));
    outbox(&mut state);
    assert!(state.set_window_state(&desk(), (3, 12), false, false));
    assert_eq!(state.surf.surfaces.get((3, 10)).unwrap().position, (40, 50));
    let out = outbox(&mut state);
    assert!(matches!(
        out[0],
        Message::Notice(Notice::ToplevelConfigure { toplevel: 12, width: 300, height: 200 })
    ));
}

#[test]
fn a_window_is_moved_with_the_pointer() {
    let mut state = state_with_window();
    show(&mut state);
    state.set_position((3, 10), (40, 50));
    state.input.cursor = (60, 70);
    state.start_move_grab((3, 10));
    assert!(matches!(
        state.win.pointer_grab.unwrap().kind,
        GrabKind::Move { offset_x: -20, offset_y: -20 }
    ));
    state.input.cursor = (500, 400);
    assert!(update_grab(&mut state, (0, 0)));
    assert_eq!(state.surf.surfaces.get((3, 10)).unwrap().position, (480, 380));
    assert_eq!(*state.hooks.last().unwrap(), Hook::ToplevelDraggedToOutput((3, 10), 1));
    end_grab(&mut state);
    assert!(!update_grab(&mut state, (0, 0)));
}

#[test]
fn a_window_is_resized_within_its_limits() {
    let mut state = state_with_window();
    show(&mut state);
    assert_eq!(resize_limits(&state, (3, 10)), ((120, 80), (i32::MAX, i32::MAX)));
    {
        let t = state.win.xdg_toplevels.get_mut((3, 12)).unwrap();
        t.min_size = (200, 10);
        t.max_size = (400, 60);
    }
    assert_eq!(resize_limits(&state, (3, 10)), ((200, 80), (400, 80)));
    state.start_resize_grab((3, 10), ResizeEdges(ResizeEdges::LEFT));
    outbox(&mut state);
    assert!(update_grab(&mut state, (-1000, 5)));
    let out = outbox(&mut state);
    assert!(matches!(
        out[0],
        Message::Notice(Notice::ToplevelResize { toplevel: 12, width: 400, height: 200, resizing: true })
    ));
    assert!(update_grab(&mut state, (-2000, 5)));
    assert_eq!(outbox(&mut state).len(), 0);
    end_grab(&mut state);
    assert!(matches!(
        outbox(&mut state)[0],
        Message::Notice(Notice::ToplevelResize { resizing: false, width: 400, .. })
    ));
}

#[test]
fn edges_are_those_nearest_the_point() {
    let mut state = state_with_window();
    show(&mut state);
    state.set_position((3, 10), (100, 100));
    assert_eq!(edges_for_point(&state, (3, 10), 101, 101).0, ResizeEdges::LEFT + ResizeEdges::TOP);
    assert_eq!(edges_for_point(&state, (3, 10), 399, 101).0, ResizeEdges::RIGHT + ResizeEdges::TOP);
    assert_eq!(edges_for_point(&state, (3, 10), 250, 200).0, ResizeEdges::RIGHT + ResizeEdges::BOTTOM);
    assert_eq!(edges_for_point(&state, (9, 9), 0, 0).0, ResizeEdges::RIGHT + ResizeEdges::BOTTOM);
}

#[test]
fn a_toplevel_has_one_decoration() {
    let mut state = state_with_window();
    state.register(3, 5, ObjectType::ZxdgDecorationManager);
    send(&mut state, 5, 1, vec![Arg::Uint(60), Arg::Uint(12)]);
    assert!(!state.clients.peek(3).unwrap().cancelled);
    let out = outbox(&mut state);
    assert!(matches!(
        out.last().unwrap(),
        Message::Event(e) if e.object_id == 60 && matches!(e.args[0], Arg::Uint(1))
    ));
    send(&mut state, 5, 1, vec![Arg::Uint(61), Arg::Uint(12)]);
    assert!(state.clients.peek(3).unwrap().cancelled);
}

#[test]
fn a_popup_is_linked_and_configured() {
    let mut state = state_with_window();
    state.register(3, 30, ObjectType::WlSurface);
    state.create_surface(3, 30);
    state.register(3, 31, ObjectType::XdgSurface);
    state.create_xdg_surface(3, 31, 30);
    state.create_xdg_positioner(3, 33);
    let followup = handle_message(
        &mut state,
        &desk(),
        &request(31, 2, vec![Arg::Uint(32), Arg::Uint(11), Arg::Uint(33)]),
    );
    match followup {
        Some(Followup::PlacePopup { request, room, .. }) => {
            assert!(room.is_some());
            finish_get_popup(&mut state, &request, (5, 6, 70, 80));
        }
        _ => panic!("no popup to place"),
    }
    let s = state.surf.surfaces.get((3, 30)).unwrap();
    assert_eq!((s.parent, s.subsurface_position), (Some(10), (5, 6)));
    assert_eq!(state.win.xdg_popups.get((3, 32)).unwrap().width, 70);
    let out = outbox(&mut state);
    assert!(out.iter().any(|m| matches!(
        m,
        Message::Notice(Notice::PopupConfigure { popup: 32, x: 5, y: 6, width: 70, height: 80 })
    )));
}

#[test]
fn a_popup_without_a_parent_is_refused() {
    let mut state = state_with_window();
    state.register(3, 30, ObjectType::WlSurface);
    state.create_surface(3, 30);
    state.register(3, 31, ObjectType::XdgSurface);
    state.create_xdg_surface(3, 31, 30);
    send(&mut state, 31, 2, vec![Arg::Uint(32), Arg::Uint(99), Arg::Uint(33)]);
    assert!(state.clients.peek(3).unwrap().cancelled);
}

fn layer(anchor: u32, size: (i32, i32), exclusive_zone: i32) -> LayerSurfaceStatePending {
    LayerSurfaceStatePending {
        size,
        anchor: Anchor(anchor),
        exclusive_zone,
        margin: (0, 0, 0, 0),
        keyboard_interactivity: KeyboardInteractivity::Never,
        layer: LayerKind::Top,
    }
}

const TOP: u32 = 1;
const BOTTOM: u32 = 2;
const LEFT: u32 = 4;
const RIGHT: u32 = 8;

#[test]
fn anchors_and_margins_place_a_layer() {
    let area = Rect { x: 0, y: 0, width: 1000, height: 800 };
    let bar = layer(TOP + LEFT + RIGHT, (0, 30), 30);
    assert_eq!(place(area, &bar), Rect { x: 0, y: 0, width: 1000, height: 30 });
    let mut corner = layer(BOTTOM + RIGHT, (100, 50), 0);
    corner.margin = (1, 2, 3, 4);
    assert_eq!(place(area, &corner), Rect { x: 898, y: 747, width: 100, height: 50 });
    let centred = layer(0, (100, 50), 0);
    assert_eq!(place(area, &centred), Rect { x: 450, y: 375, width: 100, height: 50 });
    let all = layer(TOP + BOTTOM + LEFT + RIGHT, (0, 0), -1);
    assert_eq!(place(area, &all), area);
}

#[test]
fn room_is_taken_from_the_edge_a_panel_is_on() {
    let area = Rect { x: 0, y: 0, width: 1000, height: 800 };
    assert_eq!(area.shrink(Anchor(TOP + LEFT + RIGHT), 30), Rect { x: 0, y: 30, width: 1000, height: 770 });
    assert_eq!(area.shrink(Anchor(BOTTOM + LEFT + RIGHT), 30), Rect { x: 0, y: 0, width: 1000, height: 770 });
    assert_eq!(area.shrink(Anchor(LEFT + TOP + BOTTOM), 30), Rect { x: 30, y: 0, width: 970, height: 800 });
    assert_eq!(area.shrink(Anchor(TOP + LEFT), 30), area);
    assert_eq!(area.shrink(Anchor(TOP + LEFT + RIGHT), -5), area);
}

fn make_layer(state: &mut CompositorState, id: u32, surface: u32, kind: u32) {
    state.register(3, surface, ObjectType::WlSurface);
    state.create_surface(3, surface);
    send(
        state,
        6,
        0,
        vec![Arg::Uint(id), Arg::Uint(surface), Arg::Uint(0), Arg::Uint(kind), Arg::Str("panel".to_string())],
    );
}

fn state_with_panel() -> CompositorState {
    let mut state = state_with_window();
    state.register(3, 6, ObjectType::ZwlrLayerShell);
    make_layer(&mut state, 40, 41, 2);
    send(&mut state, 40, 0, vec![Arg::Uint(0), Arg::Uint(30)]);
    send(&mut state, 40, 1, vec![Arg::Uint(TOP + LEFT + RIGHT)]);
    send(&mut state, 40, 2, vec![Arg::Int(30)]);
    send(&mut state, 41, 6, vec![]);
    state
}

#[test]
fn a_panel_reserves_room() {
    let mut state = state_with_panel();
    assert_eq!(geometry(&state, (3, 40)), Some(Rect { x: 0, y: 0, width: 1000, height: 30 }));
    assert_eq!(usable_area(&state, 1), Rect { x: 0, y: 30, width: 1000, height: 770 });
    assert_eq!(keys_in_band(&state, 1, true), vec![(3, 41)]);
    assert_eq!(keys_in_band(&state, 1, false), vec![]);
    make_layer(&mut state, 50, 51, 3);
    send(&mut state, 50, 1, vec![Arg::Uint(TOP + BOTTOM + LEFT + RIGHT)]);
    send(&mut state, 51, 6, vec![]);
    let a = arrange(&state, 1);
    assert_eq!(a.placements.len(), 2);
    assert_eq!(a.placement((3, 50)), Some(Rect { x: 0, y: 30, width: 1000, height: 770 }));
    send(&mut state, 50, 2, vec![Arg::Int(-1)]);
    send(&mut state, 51, 6, vec![]);
    assert_eq!(arrange(&state, 1).placement((3, 50)), Some(Rect { x: 0, y: 0, width: 1000, height: 800 }));
}

#[test]
fn a_panel_that_goes_gives_its_room_back() {
    let mut state = state_with_panel();
    send(&mut state, 40, 7, vec![]);
    assert_eq!(usable_area(&state, 1), Rect { x: 0, y: 0, width: 1000, height: 800 });
    assert!(!state.has_role((3, 41)));
}

fn told(state: &CompositorState, key: (u32, u32)) -> (Option<(i32, i32)>, usize) {
    let l = state.layers.layer_surfaces.get(key).unwrap();
    (l.configured_size, l.pending_configures.len())
}

#[test]
fn panels_are_told_when_their_room_changes() {
    let mut state = state_with_panel();
    make_layer(&mut state, 50, 51, 2);
    send(&mut state, 50, 1, vec![Arg::Uint(TOP + BOTTOM + LEFT + RIGHT)]);
    send(&mut state, 51, 6, vec![]);
    make_layer(&mut state, 60, 61, 2);
    assert_eq!(told(&state, (3, 40)), (Some((1000, 30)), 1));
    assert_eq!(told(&state, (3, 50)), (Some((1000, 770)), 1));
    assert_eq!(told(&state, (3, 60)), (None, 0));

    let mut wider = output(1, 0);
    wider.width = 1200;
    output_changed(&mut state, wider);
    assert_eq!(told(&state, (3, 40)), (Some((1200, 30)), 2));
    assert_eq!(told(&state, (3, 50)), (Some((1200, 770)), 2));
    assert_eq!(told(&state, (3, 60)), (None, 0));
    output_changed(&mut state, state_with_panel().out.outputs.remove(0));
    assert_eq!(told(&state, (3, 50)), (Some((1000, 770)), 3));

    send(&mut state, 40, 7, vec![]);
    assert_eq!(told(&state, (3, 50)), (Some((1000, 800)), 4));
}

#[test]
fn panels_of_others_take_the_room_of_a_client_that_goes() {
    let mut state = state_with_panel();
    client_connected(&mut state, 4);
    state.create_surface(4, 41);
    let all = layer(TOP + BOTTOM + LEFT + RIGHT, (0, 0), 0);
    state.layers.layer_surfaces.insert(
        (4, 40),
        LayerSurfaceState {
            client_id: 4,
            wl_surface_id: 41,
            output: Some(1),
            pending: all,
            current: all,
            namespace: String::new(),
            configured: true,
            pending_configures: Vec::new(),
            highest_configure: 0,
            configured_size: Some((1000, 770)),
        },
    );
    client_disconnected(&mut state, 3);
    assert_eq!(told(&state, (4, 40)), (Some((1000, 800)), 1));
    assert_eq!(state.clients.get(4).unwrap().take_outbox().len(), 1);
}

#[test]
fn a_surface_has_one_role() {
    let mut state = state_with_panel();
    send(
        &mut state,
        6,
        0,
        vec![Arg::Uint(70), Arg::Uint(10), Arg::Uint(0), Arg::Uint(1), Arg::Str("x".to_string())],
    );
    assert!(state.clients.peek(3).unwrap().cancelled);
    assert!(!state.layers.layer_surfaces.contains((3, 70)));
}

#[test]
fn a_layer_that_is_none_is_fatal() {
    let mut state = state_with_window();
    state.register(3, 6, ObjectType::ZwlrLayerShell);
    make_layer(&mut state, 40, 41, 4);
    assert!(state.clients.peek(3).unwrap().cancelled);
}

#[test]
fn a_layer_takes_a_popup_in() {
    let mut state = state_with_panel();
    state.register(3, 30, ObjectType::WlSurface);
    state.create_surface(3, 30);
    state.register(3, 31, ObjectType::XdgSurface);
    state.create_xdg_surface(3, 31, 30);
    state.create_xdg_positioner(3, 33);
    send(&mut state, 31, 2, vec![Arg::Uint(32), Arg::Uint(0), Arg::Uint(33)]);
    assert_eq!(state.surf.surfaces.get((3, 30)).unwrap().parent, None);
    match handle_message(&mut state, &desk(), &request(40, 5, vec![Arg::Uint(32)])) {
        Some(Followup::AdoptPopup { request, .. }) => finish_adopt_popup(&mut state, &request, (7, 8, 9, 10)),
        _ => panic!("no popup to take in"),
    }
    let s = state.surf.surfaces.get((3, 30)).unwrap();
    assert_eq!((s.parent, s.subsurface_position), (Some(41), (7, 8)));
}

#[test]
fn a_dialog_is_raised_with_its_window() {
    let mut state = state_with_window();
    state.create_surface(3, 80);
    state.create_xdg_surface(3, 81, 80);
    state.create_xdg_toplevel(3, 82, 81);
    state.win.xdg_toplevels.get_mut((3, 82)).unwrap().parent = Some(12);
    state.hooks.clear();
    assert_eq!(state.toplevel_family((3, 12)), vec![(3, 12), (3, 82)]);
    state.raise_with_children((3, 12));
    assert_eq!(state.hooks, vec![Hook::Raise((3, 10)), Hook::Raise((3, 80))]);
}

#[test]
fn a_window_on_nothing_is_finished_at_once() {
    let mut state = CompositorState::new();
    client_connected(&mut state, 3);
    state.register(3, 11, ObjectType::XdgSurface);
    send(&mut state, 11, 1, vec![Arg::Uint(12)]);
    let told = outbox(&mut state);
    assert!(matches!(told[0], Message::Notice(Notice::ToplevelCapabilities { toplevel: 12 })));
    assert!(matches!(told[1], Message::Notice(Notice::ToplevelConfigure { toplevel: 12, width: 0, height: 0 })));
    assert_eq!(state.input.focused_surface, None);
}

#[test]
fn the_bands_are_all_of_an_output() {
    let mut state = CompositorState::new();
    let layers = [LayerKind::Overlay, LayerKind::Background, LayerKind::Top, LayerKind::Bottom, LayerKind::Top];
    for (i, layer) in layers.into_iter().enumerate() {
        let id = 40 + i as u32;
        state.layers.layer_surfaces.insert(
            (3, id),
            LayerSurfaceState {
                client_id: 3,
                wl_surface_id: 10 + i as u32,
                output: Some(1),
                pending: LayerSurfaceStatePending::on_layer(layer),
                current: LayerSurfaceStatePending::on_layer(layer),
                namespace: String::new(),
                configured: false,
                pending_configures: vec![],
                highest_configure: 0,
                configured_size: None,
            },
        );
    }
    assert_eq!(keys_in_band(&state, 1, false), vec![(3, 11), (3, 13)]);
    assert_eq!(keys_in_band(&state, 1, true), vec![(3, 12), (3, 14), (3, 10)]);
    assert_eq!(ordered_for_output(&state, 1), vec![(3, 41), (3, 43), (3, 42), (3, 44), (3, 40)]);
    assert!(keys_in_band(&state, 2, true).is_empty());
}
