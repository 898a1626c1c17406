//! Globals, and what binding them gives.
use tokio_way_core::protocol::dispatch::{handle_message, request_fd_count, Followup};
use tokio_way_core::protocol::messages::{Message, Notice};
use tokio_way_core::protocol::wire_utils::{encode_args, Arg, ClientMessage};
use tokio_way_core::protocol::wl_registry::{
    advertise_globals, advertised_interface, broadcast_global_remove, global_at, static_object_type,
};
use tokio_way_core::protocol::ObjectType;
use tokio_way_core::run::clients::client_connected;
use tokio_way_core::run::displays::{dmabuf_support, output_added, output_removed, outputs_listed, seat_capabilities};
use tokio_way_core::shell::NoShell;
use tokio_way_core::state::compositor_state::CompositorState;
use tokio_way_core::state::types::{Hook, Output, OutputGeometry, OutputMode, Scale};
use tokio_way_core::table::Table;

fn request(object_id: u32, op_code: u16, args: Vec<Arg>) -> ClientMessage {
    ClientMessage { client_id: 3, object_id, op_code, args: encode_args(&args) }
}

fn bind(name: u32, interface: &str, version: u32, id: u32) -> ClientMessage {
    request(2, 0, vec![Arg::Uint(name), Arg::Str(interface.to_string()), Arg::Uint(version), Arg::Uint(id)])
}

fn state_with_registry() -> CompositorState {
    let mut state = CompositorState::new();
    client_connected(&mut state, 3);
    assert!(state.register(3, 2, ObjectType::WlRegistry));
    state
}

fn output(id: u32) -> Output {
    Output {
        id,
        geometry: OutputGeometry {
            x: 0,
            y: 0,
            subpixel: 0,
            make: "make".to_string(),
            model: "model".to_string(),
            transform: 0,
        },
        modes: vec![OutputMode { flags: 1, width: 640, height: 480, refresh_mhz: 60000 }],
        scale: Scale(150),
        name: "DP-1".to_string(),
        description: "a display".to_string(),
        width: 512,
        height: 384,
    }
}

fn outbox(state: &mut CompositorState) -> Vec<Message> {
    state.clients.get(3).unwrap().take_outbox()
}

fn failure(state: &mut CompositorState) -> (u32, u32, String) {
    for m in outbox(state) {
        if let Message::Event(e) = m {
            if e.object_id == 1 && e.op_code == 0 {
                if let (Arg::Uint(o), Arg::Uint(c), Arg::Str(t)) = (&e.args[0], &e.args[1], &e.args[2]) {
                    return (*o, *c, t.clone());
                }
            }
        }
    }
    panic!("no error was sent");
}

#[test]
fn every_static_global_has_a_type() {
    for name in 0..16 {
        let g = global_at(name).unwrap();
        assert!(static_object_type(g.interface).is_some());
        assert!(g.version >= 1);
    }
    assert!(global_at(16).is_none());
    assert!(static_object_type("wl_nonsense").is_none());
}

#[test]
fn names_mean_what_they_were_announced_as() {
    let mut outputs: Table<u32, u32> = Table::new();
    outputs.insert(1, 17);
    assert_eq!(advertised_interface(5, None, &outputs), Some("wl_shm"));
    assert_eq!(advertised_interface(17, None, &outputs), Some("wl_output"));
    assert_eq!(advertised_interface(16, Some(16), &outputs), Some("zwp_linux_dmabuf_v1"));
    assert_eq!(advertised_interface(16, None, &outputs), None);
}

#[test]
fn a_global_is_bound_at_the_lower_version() {
    let mut state = state_with_registry();
    assert!(handle_message(&mut state, &NoShell, &bind(6, "wl_seat", 99, 8)).is_none());
    assert_eq!(state.type_of(3, 8), Some(ObjectType::WlSeat));
    assert_eq!(state.object_version((3, 8)), 8);
    let out = outbox(&mut state);
    assert!(matches!(out[0], Message::Notice(Notice::SeatCapabilities { seat: 8 })));
    assert!(handle_message(&mut state, &NoShell, &bind(6, "wl_seat", 2, 9)).is_none());
    assert_eq!(state.object_version((3, 9)), 2);
}

#[test]
fn a_global_bound_as_something_else_is_fatal() {
    let mut state = state_with_registry();
    handle_message(&mut state, &NoShell, &bind(6, "wl_shm", 1, 8));
    assert_eq!(state.type_of(3, 8), None);
    let (object, code, text) = failure(&mut state);
    assert_eq!((object, code), (2, 0));
    assert_eq!(text, "wl_registry.bind: global 6 is not \"wl_shm\" version 1");
}

#[test]
fn version_zero_cannot_be_bound() {
    let mut state = state_with_registry();
    handle_message(&mut state, &NoShell, &bind(6, "wl_seat", 0, 8));
    assert_eq!(failure(&mut state).2, "wl_registry.bind: global 6 is not \"wl_seat\" version 0");
    assert!(state.clients.peek(3).unwrap().cancelled);
}

#[test]
fn a_bind_that_does_not_decode_is_fatal() {
    let mut state = state_with_registry();
    handle_message(&mut state, &NoShell, &request(2, 0, vec![Arg::Uint(6)]));
    assert_eq!(failure(&mut state).2, "wl_registry.bind: malformed args");
}

#[test]
fn an_unknown_request_is_fatal() {
    let mut state = state_with_registry();
    handle_message(&mut state, &NoShell, &request(2, 7, vec![]));
    let (object, code, text) = failure(&mut state);
    assert_eq!((object, code), (2, 1));
    assert_eq!(text, "wl_registry has no request 7");
}

#[test]
fn a_request_on_nothing_is_fatal() {
    let mut state = state_with_registry();
    assert!(handle_message(&mut state, &NoShell, &request(99, 0, vec![])).is_none());
    assert!(state.clients.peek(3).unwrap().cancelled);
}

#[test]
fn a_registry_hears_of_everything_there_is() {
    let mut state = state_with_registry();
    output_added(&mut state, output(4));
    dmabuf_support(&mut state, true);
    outbox(&mut state);
    advertise_globals(&mut state, 3, 2);
    let out = outbox(&mut state);
    assert_eq!(out.len(), 18);
}

#[test]
fn an_output_is_announced_bound_and_withdrawn() {
    let mut state = state_with_registry();
    output_added(&mut state, output(4));
    assert_eq!(state.hooks, vec![Hook::OutputsChanged]);
    let name = *state.out.output_global_names.get(4).unwrap();
    assert_eq!(name, 16);
    assert_eq!(outbox(&mut state).len(), 1);
    handle_message(&mut state, &NoShell, &bind(name, "wl_output", 4, 30));
    assert_eq!(state.type_of(3, 30), Some(ObjectType::WlOutput));
    assert_eq!(*state.out.output_bindings.get((3, 30)).unwrap(), 4);
    let told = outbox(&mut state);
    assert_eq!(told.len(), 6);
    output_removed(&mut state, 4);
    assert_eq!(state.out.outputs.len(), 0);
    assert!(!state.out.output_bindings.contains((3, 30)));
    let out = outbox(&mut state);
    match &out[0] {
        Message::Event(e) => {
            assert_eq!((e.object_id, e.op_code), (2, 1));
            assert!(matches!(e.args[0], Arg::Uint(16)));
        }
        _ => panic!("not an event"),
    }
}

#[test]
fn a_listing_is_the_whole_truth() {
    let mut state = state_with_registry();
    outputs_listed(&mut state, vec![output(1), output(2)]);
    assert_eq!(state.out.outputs.len(), 2);
    let mut changed = output(2);
    changed.name = "other".to_string();
    changed.description = "changed".to_string();
    changed.width = 100;
    outputs_listed(&mut state, vec![changed, output(3)]);
    let ids: Vec<u32> = state.out.outputs.iter().map(|o| o.id).collect();
    assert_eq!(ids, vec![2, 3]);
    assert_eq!(state.out.outputs[0].name, "DP-1");
    assert_eq!(state.out.outputs[0].description, "changed");
    assert_eq!(state.out.outputs[0].width, 100);
    assert!(!state.out.output_global_names.contains(1));
}

#[test]
fn the_settings_scale_wins() {
    let mut state = CompositorState::new();
    state.settings.output_scale = Some(Scale(240));
    output_added(&mut state, output(1));
    assert_eq!(state.out.outputs[0].scale, Scale(240));
}

#[test]
fn dmabuf_is_announced_once() {
    let mut state = state_with_registry();
    dmabuf_support(&mut state, false);
    assert_eq!(state.out.dmabuf_global_name, None);
    dmabuf_support(&mut state, true);
    assert_eq!(state.out.dmabuf_global_name, Some(16));
    assert_eq!(outbox(&mut state).len(), 1);
    dmabuf_support(&mut state, true);
    assert_eq!(outbox(&mut state).len(), 0);
    broadcast_global_remove(&mut state, 16);
    assert_eq!(outbox(&mut state).len(), 1);
}

#[test]
fn seats_hear_of_new_devices_only() {
    let mut state = state_with_registry();
    handle_message(&mut state, &NoShell, &bind(6, "wl_seat", 1, 8));
    outbox(&mut state);
    seat_capabilities(&mut state, true, true, false);
    assert_eq!(outbox(&mut state).len(), 1);
    seat_capabilities(&mut state, true, true, false);
    assert_eq!(outbox(&mut state).len(), 0);
}

#[test]
fn requests_of_other_interfaces_are_handed_on() {
    let mut state = state_with_registry();
    handle_message(&mut state, &NoShell, &bind(5, "wl_shm", 1, 8));
    assert_eq!(request_fd_count(ObjectType::WlShm, 0), 1);
    assert!(state.clients.get(3).unwrap().queue_fds(vec![40, 41]).is_ok());
    match handle_message(&mut state, &NoShell, &request(8, 0, vec![Arg::Uint(9), Arg::Int(100)])) {
        Some(Followup::Forward { object_type, fds }) => {
            assert_eq!(object_type, ObjectType::WlShm);
            assert_eq!(fds, vec![40]);
        }
        _ => panic!("not handed on"),
    }
    assert_eq!(state.clients.peek(3).unwrap().fd_queue, vec![41]);
}
