//! Pools and buffers.
use tokio_way_core::protocol::dispatch::{handle_message, Followup};
use tokio_way_core::protocol::wire_utils::{encode_args, Arg, ClientMessage};
use tokio_way_core::protocol::wl_shm_pool::{check_geometry, finish_resize, FORMAT_ARGB8888};
use tokio_way_core::protocol::wp_cursor_shape_device::names_for;
use tokio_way_core::protocol::ObjectType;
use tokio_way_core::run::clients::client_connected;
use tokio_way_core::shell::NoShell;
use tokio_way_core::state::compositor_state::CompositorState;
use tokio_way_core::state::types::{BufferKind, BufferParams, PendingImport, PendingPlane, TextureRect};

fn request(object_id: u32, op_code: u16, args: Vec<Arg>) -> ClientMessage {
    ClientMessage { client_id: 3, object_id, op_code, args: encode_args(&args) }
}

fn state_with_pool() -> CompositorState {
    let mut state = CompositorState::new();
    client_connected(&mut state, 3);
    state.register(3, 20, ObjectType::WlShmPool);
    state.register_shm_pool(3, 20, 9, 4096, true);
    state
}

fn damage(state: &CompositorState) -> Option<Vec<TextureRect>> {
    match &state.mem.buffers.get((3, 21)).unwrap().kind {
        BufferKind::Shm(shm) => shm.damage.clone(),
        _ => panic!("not in a pool"),
    }
}

#[test]
fn a_buffer_must_fit_its_pool() {
    assert!(check_geometry(4096, 0, 32, 32, 128, FORMAT_ARGB8888).is_ok());
    assert!(check_geometry(4095, 0, 32, 32, 128, FORMAT_ARGB8888).is_err());
    assert!(check_geometry(4096, -1, 32, 32, 128, FORMAT_ARGB8888).is_err());
    assert!(check_geometry(4096, 0, 0, 32, 128, FORMAT_ARGB8888).is_err());
    assert!(check_geometry(4096, 0, 33, 31, 128, FORMAT_ARGB8888).is_err());
    assert!(check_geometry(4096, 0, 32, 32, 128, 7).is_err());
}

#[test]
fn a_pool_outlives_its_destruction_while_in_use() {
    let mut state = state_with_pool();
    assert!(handle_message(
        &mut state,
        &NoShell,
        &request(
            20,
            0,
            vec![Arg::Uint(21), Arg::Int(0), Arg::Int(8), Arg::Int(8), Arg::Int(32), Arg::Uint(0)],
        ),
    )
    .is_none());
    assert!(state.mem.buffers.contains((3, 21)));
    assert_eq!(state.type_of(3, 21), Some(ObjectType::WlBuffer));
    handle_message(&mut state, &NoShell, &request(20, 1, vec![]));
    assert!(state.mem.shm_pools.get((3, 20)).unwrap().dead);
    assert!(state.mem.closed_fds.is_empty());
    state.destroy_buffer(3, 21);
    assert!(!state.mem.shm_pools.contains((3, 20)));
    assert_eq!(state.mem.closed_fds, vec![9]);
}

#[test]
fn a_pool_grows_and_never_shrinks() {
    let mut state = state_with_pool();
    match handle_message(&mut state, &NoShell, &request(20, 2, vec![Arg::Int(8192)])) {
        Some(Followup::Remap(q)) => finish_resize(&mut state, &q, true),
        _ => panic!("nothing to map"),
    }
    assert_eq!(state.mem.shm_pools.get((3, 20)).unwrap().size, 8192);
    assert!(handle_message(&mut state, &NoShell, &request(20, 2, vec![Arg::Int(100)])).is_none());
    assert!(state.clients.peek(3).unwrap().cancelled);
}

#[test]
fn a_buffer_keeps_the_mapping_it_was_made_with() {
    let mut state = state_with_pool();
    state.register_buffer(3, 21, 20, 0, 8, 8, 32, 0);
    assert!(state.resize_shm_pool(3, 20, 8192, true));
    assert_eq!(state.mem.buffer_guards.get((3, 21)), Some(&4096));
    state.register_buffer(3, 22, 20, 0, 8, 8, 32, 0);
    assert_eq!(state.mem.buffer_guards.get((3, 22)), Some(&8192));
}

#[test]
fn damage_adds_up_until_it_is_drawn() {
    let mut state = state_with_pool();
    state.register_buffer(3, 21, 20, 0, 8, 8, 32, 0);
    let (a, b) = (
        TextureRect { x: 0, y: 0, width: 1, height: 1 },
        TextureRect { x: 2, y: 2, width: 1, height: 1 },
    );
    assert_eq!(damage(&state), None);
    state.mark_buffer_damaged(3, 21, &vec![a]);
    assert_eq!(damage(&state), None);
    state.clear_buffer_damage();
    state.mark_buffer_damaged(3, 21, &vec![a]);
    state.mark_buffer_damaged(3, 21, &vec![b]);
    assert_eq!(damage(&state), Some(vec![a, b]));
    state.mark_buffer_damaged(3, 21, &vec![]);
    assert_eq!(damage(&state), None);
}

#[test]
fn content_serials_rise() {
    let mut state = state_with_pool();
    state.register_buffer(3, 21, 20, 0, 8, 8, 32, 0);
    let before = state.mem.buffers.get((3, 21)).unwrap().content_serial;
    state.mark_buffer_damaged(3, 21, &vec![]);
    assert!(state.mem.buffers.get((3, 21)).unwrap().content_serial > before);
}

#[test]
fn shapes_have_names() {
    assert_eq!(names_for(1), Some(vec!["default", "left_ptr"]));
    assert!(names_for(0).is_none());
    assert!(names_for(34).is_some());
    assert!(names_for(35).is_none());
}

#[test]
fn a_client_that_goes_gives_up_what_it_described() {
    let mut state = CompositorState::new();
    for (client, params, fd) in [(3, 50, 70), (4, 50, 80), (3, 51, 90)] {
        let mut p = BufferParams::default();
        assert!(!p.used && p.planes.iter().all(|plane| plane.is_none()));
        p.planes[0] = Some(PendingPlane { fd, offset: 0, stride: 4, modifier: 0 });
        p.planes[3] = Some(PendingPlane { fd: fd + 1, offset: 0, stride: 4, modifier: 0 });
        state.mem.dmabuf_params.insert((client, params), p);
    }
    for (token, client_id) in [(1, 3), (2, 4)] {
        let import = PendingImport { client_id, params_id: 50, immediate: None, width: 1, height: 1 };
        state.mem.pending_dmabuf_imports.insert(token, import);
    }
    state.register_shm_pool(3, 20, 9, 4096, true);
    state.remove_client_resources(3);
    assert_eq!(state.mem.closed_fds, vec![70, 71, 90, 91, 9]);
    assert!(!state.mem.dmabuf_params.contains((3, 50)));
    assert!(!state.mem.dmabuf_params.contains((3, 51)));
    assert!(state.mem.dmabuf_params.contains((4, 50)));
    assert!(!state.mem.pending_dmabuf_imports.contains(1));
    assert!(state.mem.pending_dmabuf_imports.contains(2));
}
