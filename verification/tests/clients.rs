//! Clients: their ids, their descriptors and what is queued for them.
use tokio_way_core::protocol::messages::{Message, Notice};
use tokio_way_core::protocol::wire_utils::Arg;
use tokio_way_core::protocol::ObjectType;
use tokio_way_core::run::clients::{client_connected, client_disconnected, fds_received};
use tokio_way_core::state::client_state::{is_server_id, ClientState, MAX_PENDING_FDS, SERVER_ID_BASE};
use tokio_way_core::state::compositor_state::CompositorState;
use tokio_way_core::state::types::Hook;

fn error_text(m: &Message) -> Option<(u32, u32, String)> {
    match m {
        Message::Event(e) if e.object_id == 1 && e.op_code == 0 => match (&e.args[0], &e.args[1], &e.args[2]) {
            (Arg::Uint(object), Arg::Uint(code), Arg::Str(text)) => Some((*object, *code, text.clone())),
            _ => None,
        },
        _ => None,
    }
}

#[test]
fn a_new_client_has_a_display() {
    let c = ClientState::new();
    assert_eq!(c.objects.len(), 1);
    assert!(matches!(c.objects.get(1), Some(ObjectType::WlDisplay)));
    assert!(!c.cancelled);
}

#[test]
fn the_id_space_has_two_halves() {
    assert!(!is_server_id(0xfeff_ffff));
    assert!(is_server_id(0xff00_0000));
    let mut c = ClientState::new();
    assert_eq!(c.register_server_object(ObjectType::WlDataOffer), Some(SERVER_ID_BASE));
    assert_eq!(c.register_server_object_with_version(ObjectType::WlDataOffer, 3), Some(SERVER_ID_BASE + 1));
    assert_eq!(c.version(SERVER_ID_BASE + 1), 3);
    assert_eq!(c.version(SERVER_ID_BASE), 1);
}

#[test]
fn a_server_id_is_never_given_twice() {
    let mut c = ClientState::new();
    let first = c.register_server_object(ObjectType::WlDataOffer).unwrap();
    c.unregister(first);
    assert_eq!(c.outbox.len(), 0);
    let second = c.register_server_object(ObjectType::WlDataOffer).unwrap();
    assert!(second > first);
}

#[test]
fn an_id_outside_the_clients_half_is_fatal() {
    let mut c = ClientState::new();
    assert!(c.register_client_object(0, ObjectType::WlSurface).is_err());
    assert!(c.cancelled);
    let (object, code, text) = error_text(&c.outbox[0]).unwrap();
    assert_eq!((object, code), (0, 0));
    assert_eq!(text, "object id 0 is outside the client id space");
    let mut c = ClientState::new();
    assert!(c.register_client_object(SERVER_ID_BASE, ObjectType::WlSurface).is_err());
    assert!(c.cancelled);
}

#[test]
fn an_id_in_use_is_fatal() {
    let mut c = ClientState::new();
    assert!(c.register_client_object(5, ObjectType::WlSurface).is_ok());
    assert!(c.register_client_object(5, ObjectType::WlRegion).is_err());
    assert!(matches!(c.objects.get(5), Some(ObjectType::WlSurface)));
    assert_eq!(error_text(&c.outbox[0]).unwrap().2, "object id 5 is already in use");
}

#[test]
fn a_freed_id_is_told_and_can_be_used_again() {
    let mut c = ClientState::new();
    assert!(c.register_client_object_with_version(5, ObjectType::WlSurface, 4).is_ok());
    assert_eq!(c.version(5), 4);
    c.unregister(5);
    match &c.outbox[0] {
        Message::Event(e) => {
            assert_eq!((e.object_id, e.op_code), (1, 1));
            assert!(matches!(e.args[0], Arg::Uint(5)));
        }
        _ => panic!("not an event"),
    }
    assert_eq!(c.version(5), 1);
    assert!(c.register_client_object(5, ObjectType::WlRegion).is_ok());
}

#[test]
fn an_outbox_is_taken_whole() {
    let mut c = ClientState::new();
    c.send(Message::Notice(Notice::Clipboard));
    c.send_error(7, 3, "bad".to_string());
    let out = c.take_outbox();
    assert_eq!(out.len(), 2);
    assert_eq!(error_text(&out[1]).unwrap(), (7, 3, "bad".to_string()));
    assert_eq!(c.outbox.len(), 0);
    assert!(c.cancelled);
}

#[test]
fn descriptors_wait_up_to_a_limit() {
    let mut c = ClientState::new();
    assert!(c.queue_fds((0..MAX_PENDING_FDS as i32).collect()).is_ok());
    assert_eq!(c.fd_queue.len(), MAX_PENDING_FDS);
    let refused = c.queue_fds(vec![1000]).unwrap_err();
    assert_eq!(refused.len(), MAX_PENDING_FDS + 1);
    assert_eq!(refused[MAX_PENDING_FDS], 1000);
    assert_eq!(c.fd_queue.len(), 0);
    assert!(c.cancelled);
}

#[test]
fn too_many_descriptors_are_closed() {
    let mut state = CompositorState::new();
    client_connected(&mut state, 4);
    assert!(fds_received(&mut state, 4, vec![1, 2]));
    assert!(!fds_received(&mut state, 4, (0..MAX_PENDING_FDS as i32).collect()));
    assert_eq!(state.mem.closed_fds.len(), MAX_PENDING_FDS + 2);
    assert!(state.clients.peek(4).unwrap().cancelled);
    assert!(fds_received(&mut state, 9, vec![77]));
    assert_eq!(state.mem.closed_fds[MAX_PENDING_FDS + 2], 77);
}

#[test]
fn a_client_that_goes_leaves_nothing() {
    let mut state = CompositorState::new();
    client_connected(&mut state, 4);
    client_connected(&mut state, 5);
    state.create_surface(4, 10);
    state.create_surface(5, 10);
    state.register_shm_pool(4, 20, 33, 4096, true);
    state.register_buffer(4, 21, 20, 0, 16, 16, 64, 0);
    state.input.focused_surface = Some((4, 10));
    assert!(fds_received(&mut state, 4, vec![55]));
    client_disconnected(&mut state, 4);
    assert!(state.clients.peek(4).is_none());
    assert!(!state.surf.surfaces.contains((4, 10)));
    assert!(state.surf.surfaces.contains((5, 10)));
    assert!(!state.mem.buffers.contains((4, 21)));
    assert!(!state.mem.shm_pools.contains((4, 20)));
    assert_eq!(state.mem.closed_fds, vec![33, 55]);
    assert_eq!(state.input.focused_surface, None);
    assert!(state.dirty);
    assert_eq!(state.hooks, vec![Hook::ClientRemoved(4), Hook::Refocus]);
}

#[test]
fn a_client_without_focus_leaves_it_alone() {
    let mut state = CompositorState::new();
    client_connected(&mut state, 4);
    client_connected(&mut state, 5);
    state.input.focused_surface = Some((5, 10));
    client_disconnected(&mut state, 4);
    assert_eq!(state.input.focused_surface, Some((5, 10)));
    assert_eq!(state.hooks, vec![Hook::ClientRemoved(4)]);
}
