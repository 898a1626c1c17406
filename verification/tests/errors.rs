//! What clients that do wrong are told, and what that leaves alone.
use tokio_way_core::protocol::dispatch::{handle_message, Followup};
use tokio_way_core::protocol::messages::{Message, Notice};
use tokio_way_core::protocol::wire_utils::{encode_args, Arg, ClientMessage};
use tokio_way_core::protocol::wl_shm_pool::{check_geometry, finish_resize};
use tokio_way_core::protocol::wp_cursor_shape_device::finish_set_shape;
use tokio_way_core::protocol::signature::{requests, ArgType};
use tokio_way_core::protocol::zwp_primary_selection_offer::send_offer;
use tokio_way_core::protocol::ObjectType;
use tokio_way_core::input::drag::update_drag;
use tokio_way_core::input::pointer::deliver_pointer_motion;
use tokio_way_core::layer::{arrange, Rect};
use tokio_way_core::run::clients::client_connected;
use tokio_way_core::shell::NoShell;
use tokio_way_core::state::compositor_state::CompositorState;
use tokio_way_core::state::types::{
    Anchor, DataInterface, DataSource, DefaultCursor, KeyboardInteractivity, LayerKind, LayerSurfaceState,
    LayerSurfaceStatePending, Output, OutputGeometry, OutputMode, PointerBinding, ResizeAnchor, ResizeEdges, Scale,
};

fn request(object_id: u32, op_code: u16, args: Vec<Arg>) -> ClientMessage {
    ClientMessage { client_id: 3, object_id, op_code, args: encode_args(&args) }
}

fn state() -> CompositorState {
    let mut state = CompositorState::new();
    client_connected(&mut state, 3);
    client_connected(&mut state, 4);
    state.register(3, 10, ObjectType::WlSurface);
    state.create_surface(3, 10);
    state
}

fn refused(state: &mut CompositorState, object_id: u32, op_code: u16, args: Vec<Arg>) -> (u32, u32, String) {
    state.clients.get(3).unwrap().take_outbox();
    assert!(handle_message(state, &NoShell, &request(object_id, op_code, args)).is_none());
    error_of(state)
}

fn error_of(state: &mut CompositorState) -> (u32, u32, String) {
    assert!(state.clients.peek(3).unwrap().cancelled);
    assert!(!state.clients.peek(4).unwrap().cancelled);
    assert_eq!(state.clients.peek(4).unwrap().outbox.len(), 0);
    let out = state.clients.get(3).unwrap().take_outbox();
    assert_eq!(out.len(), 1);
    match &out[0] {
        Message::Event(e) => {
            assert_eq!((e.object_id, e.op_code), (1, 0));
            match (&e.args[0], &e.args[1], &e.args[2]) {
                (Arg::Uint(o), Arg::Uint(c), Arg::Str(t)) => (*o, *c, t.clone()),
                _ => panic!("not an error"),
            }
        }
        _ => panic!("not an event"),
    }
}

#[test]
fn malformed_arguments_are_named() {
    let mut s = state();
    let (object, code, text) = refused(&mut s, 10, 1, vec![Arg::Uint(1)]);
    assert_eq!((object, code), (10, 1));
    assert_eq!(text, "malformed arguments for wl_surface.attach");
    assert!(s.surf.surfaces.contains((3, 10)));
}

#[test]
fn an_unknown_opcode_is_named() {
    let mut s = state();
    assert_eq!(refused(&mut s, 10, 42, vec![]), (10, 1, "wl_surface has no request 42".to_string()));
}

#[test]
fn a_missing_object_is_named() {
    let mut s = state();
    assert_eq!(refused(&mut s, 77, 0, vec![]), (77, 0, "invalid object 77".to_string()));
}

#[test]
fn a_missing_descriptor_is_fatal() {
    let mut s = state();
    s.register(3, 8, ObjectType::WlShm);
    let (object, code, text) = refused(&mut s, 8, 0, vec![Arg::Uint(9), Arg::Int(64)]);
    assert_eq!((object, code), (8, 1));
    assert_eq!(text, "request is missing its file descriptor");
}

#[test]
fn a_transform_that_is_none_is_fatal() {
    let mut s = state();
    assert_eq!(
        refused(&mut s, 10, 7, vec![Arg::Int(8)]).2,
        "wl_surface.set_buffer_transform: not a transform the protocol defines"
    );
}

#[test]
fn a_cursor_is_no_subsurface() {
    let mut s = state();
    s.register(3, 5, ObjectType::WlSubcompositor);
    s.surf.cursor_role_surfaces.insert((3, 10));
    assert_eq!(
        refused(&mut s, 5, 1, vec![Arg::Uint(30), Arg::Uint(10), Arg::Uint(11)]).2,
        "wl_subcompositor.get_subsurface: surface already has cursor role"
    );
}

#[test]
fn a_drag_icon_is_no_subsurface() {
    let mut s = state();
    s.register(3, 5, ObjectType::WlSubcompositor);
    s.surf.dnd_icon_surfaces.insert((3, 10));
    assert_eq!(
        refused(&mut s, 5, 1, vec![Arg::Uint(30), Arg::Uint(10), Arg::Uint(11)]).2,
        "wl_subcompositor.get_subsurface: surface already has drag icon role"
    );
}

#[test]
fn a_surface_is_not_its_own_parent() {
    let mut s = state();
    s.register(3, 5, ObjectType::WlSubcompositor);
    let (_, code, text) = refused(&mut s, 5, 1, vec![Arg::Uint(30), Arg::Uint(10), Arg::Uint(10)]);
    assert_eq!(code, 1);
    assert_eq!(text, "wl_subcompositor.get_subsurface: parent is a descendant of the surface");
}

fn with_layer() -> CompositorState {
    let mut s = state();
    s.register(3, 40, ObjectType::ZwlrLayerSurface);
    s.layers.layer_surfaces.insert(
        (3, 40),
        LayerSurfaceState {
            client_id: 3,
            wl_surface_id: 10,
            output: Some(1),
            pending: LayerSurfaceStatePending::on_layer(LayerKind::Top),
            current: LayerSurfaceStatePending::on_layer(LayerKind::Top),
            namespace: String::new(),
            configured: false,
            pending_configures: vec![],
            highest_configure: 0,
            configured_size: None,
        },
    );
    s.layers.surface_layer.insert((3, 10), 40);
    s
}

#[test]
fn layer_requests_are_checked() {
    let (_, code, text) = refused(&mut with_layer(), 40, 0, vec![Arg::Uint(0x8000_0000), Arg::Uint(1)]);
    assert_eq!((code, text.as_str()), (1, "zwlr_layer_surface_v1.set_size: that is not a size"));
    let (_, code, text) = refused(&mut with_layer(), 40, 1, vec![Arg::Uint(0x1f)]);
    assert_eq!((code, text.as_str()), (2, "zwlr_layer_surface_v1.set_anchor: 0x1f has bits that are not edges"));
    let (_, code, text) = refused(&mut with_layer(), 40, 4, vec![Arg::Uint(3)]);
    assert_eq!(
        (code, text.as_str()),
        (3, "zwlr_layer_surface_v1.set_keyboard_interactivity: 3 is not one")
    );
    assert_eq!(
        refused(&mut with_layer(), 40, 8, vec![Arg::Uint(9)]).2,
        "zwlr_layer_surface_v1.set_layer: 9 is not a layer"
    );
    assert_eq!(
        refused(&mut with_layer(), 40, 6, vec![Arg::Uint(12)]).2,
        "zwlr_layer_surface_v1.ack_configure: 12 was never sent"
    );
}

#[test]
fn a_pool_must_grow_and_be_backed() {
    let mut s = state();
    s.register(3, 20, ObjectType::WlShmPool);
    s.register_shm_pool(3, 20, 9, 4096, true);
    let (_, code, text) = refused(&mut s, 20, 2, vec![Arg::Int(4095)]);
    assert_eq!((code, text.as_str()), (2, "wl_shm_pool.resize: 4095 does not grow a pool of 4096 bytes"));
    let mut s = state();
    s.register(3, 20, ObjectType::WlShmPool);
    s.register_shm_pool(3, 20, 9, 4096, true);
    match handle_message(&mut s, &NoShell, &request(20, 2, vec![Arg::Int(8192)])) {
        Some(Followup::Remap(q)) => finish_resize(&mut s, &q, false),
        _ => panic!("nothing to map"),
    }
    assert_eq!(error_of(&mut s).2, "wl_shm_pool.resize: pool file is smaller than the new size");
}

#[test]
fn geometry_errors_have_their_codes() {
    assert_eq!(check_geometry(4096, 0, 8, 8, 32, 9).unwrap_err().0, 0);
    assert_eq!(check_geometry(4096, 0, 8, 8, 31, 0).unwrap_err().0, 1);
    assert_eq!(check_geometry(4096, 0, 8, -8, 32, 0).unwrap_err().0, 1);
    assert_eq!(check_geometry(200, 0, 8, 8, 32, 0).unwrap_err().0, 1);
}

#[test]
fn a_shape_that_is_none_is_fatal() {
    let mut s = state();
    s.register(3, 60, ObjectType::WpCursorShapeDevice);
    let (_, code, text) = refused(&mut s, 60, 1, vec![Arg::Uint(5), Arg::Uint(35)]);
    assert_eq!((code, text.as_str()), (1, "wp_cursor_shape_device_v1.set_shape: 35 is not a shape"));
}

#[test]
fn a_stale_shape_is_ignored_and_a_current_one_shown() {
    let mut s = state();
    s.register(3, 60, ObjectType::WpCursorShapeDevice);
    s.input.pointer_enter_serial.insert(3, 6);
    s.cursors.cursor_surfaces.insert(3, None);
    assert!(handle_message(&mut s, &NoShell, &request(60, 1, vec![Arg::Uint(5), Arg::Uint(4)])).is_none());
    assert!(!s.cursors.cursor_shapes.contains(3));
    match handle_message(&mut s, &NoShell, &request(60, 1, vec![Arg::Uint(6), Arg::Uint(4)])) {
        Some(Followup::LoadShape(q)) => {
            let image = DefaultCursor { pixels: vec![0], width: 1, height: 1, hotspot_x: 0, hotspot_y: 0 };
            finish_set_shape(&mut s, &q, Some(image));
        }
        _ => panic!("nothing to load"),
    }
    assert_eq!(s.cursors.cursor_shapes.get(3), Some(&4));
    assert!(!s.cursors.cursor_surfaces.contains(3));
    assert!(s.cursor_dirty);
    assert!(handle_message(&mut s, &NoShell, &request(60, 1, vec![Arg::Uint(6), Arg::Uint(4)])).is_none());
}

#[test]
fn a_cancelled_control_source_offers_nothing() {
    let mut s = state();
    s.register(3, 50, ObjectType::ZwlrDataControlSource);
    let mut source = DataSource::new(DataInterface::DataControl);
    source.cancelled = true;
    s.data.data_sources.insert((3, 50), source);
    let (_, code, text) = refused(&mut s, 50, 0, vec![Arg::Str("a".to_string())]);
    assert_eq!(
        (code, text.as_str()),
        (1, "zwlr_data_control_source_v1.offer: this source has been cancelled")
    );
}

#[test]
fn a_drag_keeps_grabs_and_pointers_away() {
    let mut s = state();
    s.input.pointers.push(PointerBinding { client_id: 3, object_id: 70 });
    s.create_xdg_surface(3, 11, 10);
    s.create_xdg_toplevel(3, 12, 11);
    s.start_drag(None, 3, (3, 10), None);
    s.start_move_grab((3, 10));
    assert!(s.win.pointer_grab.is_none());
    s.clients.get(3).unwrap().take_outbox();
    deliver_pointer_motion(&mut s, &NoShell, 1, (0, 0));
    assert!(!s
        .clients
        .get(3)
        .unwrap()
        .take_outbox()
        .iter()
        .any(|m| matches!(m, Message::Notice(Notice::PointerMotion { .. }))));
    assert!(update_drag(&mut s, &NoShell, 2));
}

#[test]
fn a_grab_keeps_drags_away() {
    let mut s = state();
    s.create_xdg_surface(3, 11, 10);
    s.create_xdg_toplevel(3, 12, 11);
    s.start_move_grab((3, 10));
    assert!(s.win.pointer_grab.is_some());
    s.start_drag(None, 3, (3, 10), None);
    assert!(s.data.drag.is_none());
    s.win.pointer_grab = None;
    s.start_drag(None, 3, (3, 10), None);
    assert!(s.data.drag.is_some());
}

#[test]
fn the_far_edge_of_a_resize_stays() {
    let mut s = state();
    s.register_shm_pool(3, 20, 9, 100_000, true);
    s.register_buffer(3, 21, 20, 0, 50, 40, 200, 0);
    {
        let surface = s.surf.surfaces.get_mut((3, 10)).unwrap();
        surface.buffer_id = Some(21);
        surface.position = (7, 9);
    }
    s.win.resize_anchor = Some(ResizeAnchor {
        surface: (3, 10),
        edges: ResizeEdges(ResizeEdges::LEFT),
        right: 200,
        bottom: 300,
    });
    s.apply_resize_anchor((3, 10));
    assert_eq!(s.surf.surfaces.get((3, 10)).unwrap().position, (150, 9));
    assert!(s.win.resize_anchor.is_none());
}

#[test]
fn a_panel_is_not_moved_by_its_own_room() {
    let mut s = with_layer();
    s.out.outputs.push(Output {
        id: 1,
        geometry: OutputGeometry {
            x: 0,
            y: 0,
            subpixel: 0,
            make: String::new(),
            model: String::new(),
            transform: 0,
        },
        modes: vec![OutputMode { flags: 1, width: 100, height: 100, refresh_mhz: 0 }],
        scale: Scale(120),
        name: String::new(),
        description: String::new(),
        width: 100,
        height: 100,
    });
    for zone in [0, 10, 50] {
        s.layers.layer_surfaces.get_mut((3, 40)).unwrap().current = LayerSurfaceStatePending {
            size: (0, 10),
            anchor: Anchor(13),
            exclusive_zone: zone,
            margin: (0, 0, 0, 0),
            keyboard_interactivity: KeyboardInteractivity::Never,
            layer: LayerKind::Top,
        };
        let a = arrange(&s, 1);
        assert_eq!(a.placement((3, 40)), Some(Rect { x: 0, y: 0, width: 100, height: 10 }));
        assert_eq!(a.usable, Rect { x: 0, y: zone, width: 100, height: 100 - zone });
    }
}

const HANDLED: [ObjectType; 25] = [
    ObjectType::WlRegistry,
    ObjectType::WlCallback,
    ObjectType::WlSurface,
    ObjectType::WlSubcompositor,
    ObjectType::WlSubsurface,
    ObjectType::WlShmPool,
    ObjectType::WlOutput,
    ObjectType::XdgSurface,
    ObjectType::ZwpPrimarySelectionDeviceManager,
    ObjectType::ZwpPrimarySelectionDevice,
    ObjectType::ZwpPrimarySelectionSource,
    ObjectType::ZwpPrimarySelectionOffer,
    ObjectType::ZwlrDataControlManager,
    ObjectType::ZwlrDataControlDevice,
    ObjectType::ZwlrDataControlSource,
    ObjectType::ZwlrDataControlOffer,
    ObjectType::WpCursorShapeManager,
    ObjectType::WpCursorShapeDevice,
    ObjectType::WpFractionalScaleManager,
    ObjectType::WpFractionalScale,
    ObjectType::WpPresentationFeedback,
    ObjectType::ZxdgDecorationManager,
    ObjectType::ZxdgToplevelDecoration,
    ObjectType::ZwlrLayerShell,
    ObjectType::ZwlrLayerSurface,
];

#[test]
fn no_interface_has_more_requests_than_its_own() {
    for t in HANDLED {
        let mut s = state();
        s.register(3, 90, t);
        let n = requests(t).len() as u16;
        let (object, code, text) = refused(&mut s, 90, n, vec![]);
        assert_eq!((object, code), (90, 1));
        assert!(text.ends_with(&format!(" has no request {n}")), "{text}");
        assert!(!text.starts_with(' '));
    }
}

#[test]
fn no_request_goes_through_without_its_arguments() {
    let mut tried = 0;
    for t in HANDLED {
        for (op, q) in requests(t).iter().enumerate() {
            if q.args.is_empty() || q.args.contains(&ArgType::Fd) {
                continue;
            }
            if q.name == "set_buffer_scale" || (t == ObjectType::ZxdgToplevelDecoration && q.name == "set_mode") {
                continue;
            }
            let mut s = state();
            s.register(3, 90, t);
            let (object, _, text) = refused(&mut s, 90, op as u16, vec![Arg::Uint(1); q.args.len() - 1]);
            assert_eq!(object, 90);
            assert!(text.contains("malformed arg"), "{text}");
            tried += 1;
        }
    }
    assert_eq!(tried, 42);
}

#[test]
fn an_unmapped_buffer_is_idle() {
    let mut s = state();
    s.register_shm_pool(3, 20, 9, 100_000, true);
    s.register_buffer(3, 21, 20, 0, 50, 40, 200, 0);
    assert!(s.buffer_is_being_read((3, 21), &vec![(3, 21)]));
    assert!(!s.buffer_is_being_read((3, 21), &vec![(3, 22)]));
    assert!(!s.buffer_is_being_read((3, 22), &vec![(3, 22)]));
}

#[test]
fn an_offer_names_its_type() {
    let mut s = state();
    send_offer(&mut s, (3, 0xff00_0000), "text/plain");
    match &s.clients.get(3).unwrap().take_outbox()[0] {
        Message::Event(e) => {
            assert_eq!((e.object_id, e.op_code), (0xff00_0000, 0));
            assert!(matches!(&e.args[0], Arg::Str(t) if t == "text/plain"));
        }
        _ => panic!("not an event"),
    }
}

#[test]
fn a_surface_with_a_role_is_no_subsurface() {
    let text = "wl_subcompositor.get_subsurface: surface already has another role";
    let ask = |s: &mut CompositorState| {
        s.register(3, 5, ObjectType::WlSubcompositor);
        s.create_surface(3, 13);
        let answer = refused(s, 5, 1, vec![Arg::Uint(30), Arg::Uint(10), Arg::Uint(13)]);
        assert_eq!(answer, (5, 0, text.to_string()));
        assert!(s.surf.surfaces.get((3, 13)).unwrap().children.is_empty());
        assert!(!s.surf.subsurface_map.contains((3, 30)));
        assert_eq!(s.type_of(3, 30), None);
    };
    let mut s = state();
    s.create_xdg_surface(3, 11, 10);
    ask(&mut s);
    assert_eq!(s.surf.surfaces.get((3, 10)).unwrap().parent, None);
    ask(&mut with_layer());
    let mut s = state();
    s.register(3, 5, ObjectType::WlSubcompositor);
    s.create_surface(3, 12);
    let first = request(5, 1, vec![Arg::Uint(29), Arg::Uint(10), Arg::Uint(12)]);
    assert!(handle_message(&mut s, &NoShell, &first).is_none());
    assert_eq!(s.surf.surfaces.get((3, 10)).unwrap().parent, Some(12));
    ask(&mut s);
    assert_eq!(s.surf.surfaces.get((3, 10)).unwrap().parent, Some(12));
}
