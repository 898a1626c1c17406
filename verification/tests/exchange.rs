//! Selections, offers and drags.
use tokio_way_core::input::drag::{enter_drag_surface, finish_drag, update_drag};
use tokio_way_core::protocol::dispatch::handle_message;
use tokio_way_core::protocol::messages::{Message, Notice};
use tokio_way_core::protocol::wire_utils::{encode_args, Arg, ClientMessage};
use tokio_way_core::protocol::ObjectType;
use tokio_way_core::run::clients::client_connected;
use tokio_way_core::shell::{NoShell, ShellAnswers};
use tokio_way_core::state::actions::{resolve_action, DND_ACTION_ASK, DND_ACTION_COPY, DND_ACTION_MOVE};
use tokio_way_core::state::compositor_state::CompositorState;
use tokio_way_core::state::types::{
    DataDeviceBinding, DataInterface, DataSource, OfferKind, Output, OutputGeometry, OutputMode,
    PrimaryDeviceBinding, Scale,
};

fn send(state: &mut CompositorState, client_id: u32, object_id: u32, op_code: u16, args: Vec<Arg>) {
    let msg = ClientMessage { client_id, object_id, op_code, args: encode_args(&args) };
    assert!(handle_message(state, &NoShell, &msg).is_none());
}

fn outbox(state: &mut CompositorState, client_id: u32) -> Vec<Message> {
    state.clients.get(client_id).unwrap().take_outbox()
}

fn source(state: &mut CompositorState, key: (u32, u32), interface: DataInterface, mime: &str) {
    let mut s = DataSource::new(interface);
    s.mime_types.push(mime.to_string());
    s.actions = DND_ACTION_COPY + DND_ACTION_MOVE;
    state.data.data_sources.insert(key, s);
}

fn two_clients() -> CompositorState {
    let mut state = CompositorState::new();
    client_connected(&mut state, 3);
    client_connected(&mut state, 4);
    state
}

#[test]
fn a_selection_passes_from_source_to_source() {
    let mut state = two_clients();
    source(&mut state, (3, 50), DataInterface::PrimarySelection, "text/plain");
    source(&mut state, (4, 60), DataInterface::PrimarySelection, "text/html");
    state.data.primary_devices.push(PrimaryDeviceBinding { client_id: 4, object_id: 8 });
    state.input.focused_surface = Some((4, 1));
    state.set_primary_selection(Some((3, 50)));
    let told = outbox(&mut state, 4);
    assert_eq!(told.len(), 3);
    match &told[1] {
        Message::Event(e) => assert!(matches!(&e.args[0], Arg::Str(s) if s == "text/plain")),
        _ => panic!("not an event"),
    }
    let offer = state.data.data_offers.key_at(0);
    assert_eq!(state.data.data_offers.get(offer).unwrap().source, Some((3, 50)));
    state.set_primary_selection(Some((4, 60)));
    assert_eq!(state.data.primary_selection, Some((4, 60)));
    assert!(state.data.data_sources.get((3, 50)).unwrap().cancelled);
    assert_eq!(state.data.data_offers.get(offer).unwrap().source, None);
    assert!(matches!(&outbox(&mut state, 3)[0], Message::Event(e) if e.object_id == 50 && e.op_code == 1));
}

#[test]
fn the_two_selections_are_apart() {
    let mut state = two_clients();
    source(&mut state, (3, 50), DataInterface::WlData, "a");
    source(&mut state, (3, 51), DataInterface::PrimarySelection, "b");
    state.set_selection(Some((3, 50)));
    state.set_primary_selection(Some((3, 51)));
    assert_eq!(state.data.selection, Some((3, 50)));
    state.set_selection(None);
    assert_eq!(state.data.primary_selection, Some((3, 51)));
    assert!(matches!(
        outbox(&mut state, 3)[0],
        Message::Notice(Notice::SourceCancelled { source: 50 })
    ));
}

#[test]
fn a_source_that_goes_clears_what_it_held() {
    let mut state = two_clients();
    source(&mut state, (3, 50), DataInterface::WlData, "a");
    state.set_selection(Some((3, 50)));
    state.retire_data_source((3, 50), false);
    assert_eq!(state.data.selection, None);
    assert!(!state.data.data_sources.contains((3, 50)));
}

#[test]
fn a_read_from_a_dead_offer_closes_the_pipe() {
    let mut state = two_clients();
    source(&mut state, (3, 50), DataInterface::PrimarySelection, "text/plain");
    let offer = state
        .create_offer(4, 8, (3, 50), DataInterface::PrimarySelection, OfferKind::Selection)
        .unwrap();
    state.clients.get(4).unwrap().queue_fds(vec![30, 31]).unwrap();
    send(&mut state, 4, offer.1, 0, vec![Arg::Str("text/plain".to_string())]);
    let asked = outbox(&mut state, 3);
    match &asked[0] {
        Message::Event(e) => {
            assert_eq!((e.object_id, e.op_code), (50, 0));
            assert_eq!(e.fds, vec![30]);
        }
        _ => panic!("not an event"),
    }
    state.invalidate_offers_from((3, 50));
    send(&mut state, 4, offer.1, 0, vec![Arg::Str("text/plain".to_string())]);
    assert_eq!(state.mem.closed_fds, vec![31]);
    assert_eq!(outbox(&mut state, 3).len(), 0);
}

#[test]
fn a_mime_type_that_is_not_offered_is_not_read() {
    let mut state = two_clients();
    source(&mut state, (3, 50), DataInterface::DataControl, "text/plain");
    let offer = state
        .create_offer(4, 8, (3, 50), DataInterface::DataControl, OfferKind::Selection)
        .unwrap();
    state.clients.get(4).unwrap().queue_fds(vec![30]).unwrap();
    send(&mut state, 4, offer.1, 0, vec![Arg::Str("image/png".to_string())]);
    assert_eq!(state.mem.closed_fds, vec![30]);
}

#[test]
fn a_primary_selection_needs_a_recent_serial() {
    let mut state = two_clients();
    state.register(3, 8, ObjectType::ZwpPrimarySelectionDevice);
    source(&mut state, (3, 50), DataInterface::PrimarySelection, "a");
    send(&mut state, 3, 8, 0, vec![Arg::Uint(50), Arg::Uint(7)]);
    assert_eq!(state.data.primary_selection, None);
    state.record_input_serial(3, 7);
    send(&mut state, 3, 8, 0, vec![Arg::Uint(50), Arg::Uint(7)]);
    assert_eq!(state.data.primary_selection, Some((3, 50)));
}

#[test]
fn recent_serials_are_bounded_and_per_client() {
    let mut state = two_clients();
    for n in 0..40 {
        state.record_input_serial(3, n);
    }
    assert!(!state.is_recent_input_serial(3, 7));
    assert!(state.is_recent_input_serial(3, 8));
    assert!(state.is_recent_input_serial(3, 39));
    assert!(!state.is_recent_input_serial(4, 39));
}

#[test]
fn a_control_source_is_spent_once() {
    let mut state = two_clients();
    state.register(3, 8, ObjectType::ZwlrDataControlDevice);
    source(&mut state, (3, 50), DataInterface::DataControl, "a");
    send(&mut state, 3, 8, 0, vec![Arg::Uint(50)]);
    assert_eq!(state.data.selection, Some((3, 50)));
    send(&mut state, 3, 8, 0, vec![Arg::Uint(50)]);
    assert!(state.clients.peek(3).unwrap().cancelled);
}

#[test]
fn actions_are_settled_between_both_sides() {
    let (copy, mv, ask) = (DND_ACTION_COPY, DND_ACTION_MOVE, DND_ACTION_ASK);
    assert_eq!(resolve_action(copy + mv, 3, copy + mv, mv, 3), mv);
    assert_eq!(resolve_action(copy + mv, 3, copy + ask, ask, 3), copy);
    assert_eq!(resolve_action(mv + ask, 3, copy + ask + mv, copy, 3), mv);
    assert_eq!(resolve_action(ask, 3, ask, 0, 3), ask);
    assert_eq!(resolve_action(copy, 3, mv, mv, 3), 0);
}

#[test]
fn an_old_source_means_a_copy() {
    assert_eq!(resolve_action(DND_ACTION_MOVE, 2, DND_ACTION_COPY + DND_ACTION_MOVE, DND_ACTION_MOVE, 3), DND_ACTION_COPY);
    assert_eq!(resolve_action(0, 1, DND_ACTION_MOVE, DND_ACTION_MOVE, 3), 0);
}

#[test]
fn an_old_target_takes_whatever_is_on_offer() {
    assert_eq!(resolve_action(DND_ACTION_MOVE, 3, 0, 0, 2), DND_ACTION_MOVE);
    assert_eq!(resolve_action(DND_ACTION_COPY + DND_ACTION_MOVE, 3, 0, 0, 1), DND_ACTION_COPY);
}

fn dragging() -> (CompositorState, ShellAnswers) {
    let mut state = two_clients();
    state.out.outputs.push(Output {
        id: 1,
        geometry: OutputGeometry {
            x: 0,
            y: 0,
            subpixel: 0,
            make: String::new(),
            model: String::new(),
            transform: 0,
        },
        modes: vec![OutputMode { flags: 1, width: 500, height: 500, refresh_mhz: 0 }],
        scale: Scale(120),
        name: String::new(),
        description: String::new(),
        width: 500,
        height: 500,
    });
    let mut shell = ShellAnswers::new();
    let mut stack = Vec::new();
    for (client, x) in [(3, 0), (4, 200)] {
        state.register_shm_pool(client, 20, 9, 100_000, true);
        state.register_buffer(client, 21, 20, 0, 100, 100, 400, 0);
        state.create_surface(client, 10);
        let s = state.surf.surfaces.get_mut((client, 10)).unwrap();
        s.buffer_id = Some(21);
        s.position = (x, 0);
        stack.push((client, 10));
        state.data.data_devices.push(DataDeviceBinding { client_id: client, object_id: 70 });
        shell.visible.insert((client, 10));
    }
    shell.stacks.insert(1, stack);
    source(&mut state, (3, 50), DataInterface::WlData, "text/plain");
    (state, shell)
}

#[test]
fn a_drag_enters_leaves_and_drops() {
    let (mut state, shell) = dragging();
    state.start_drag(Some((3, 50)), 3, (3, 10), None);
    state.input.cursor = (250, 50);
    assert!(update_drag(&mut state, &shell, 1));
    let entered = outbox(&mut state, 4);
    assert!(matches!(entered[0], Message::Notice(Notice::DeviceOffer { device: 70, .. })));
    assert!(entered.iter().any(|m| matches!(
        m,
        Message::Notice(Notice::DragEnter { device: 70, surface: 10, x: 200, y: 0, offer: Some(_), .. })
    )));
    assert_eq!(state.data.drag.as_ref().unwrap().focus, Some((4, 10)));
    assert!(update_drag(&mut state, &shell, 2));
    assert!(matches!(
        outbox(&mut state, 4)[0],
        Message::Notice(Notice::DragMotion { time: 2, device: 70, .. })
    ));
    let offer = state.data.drag.as_ref().unwrap().focus_offers[0];
    state.data.data_offers.get_mut(offer).unwrap().accepted = Some("text/plain".to_string());
    finish_drag(&mut state);
    assert!(state.data.drag.is_none());
    assert_eq!(state.data.data_offers.get(offer).unwrap().kind, OfferKind::Dropped);
    assert!(matches!(outbox(&mut state, 4)[0], Message::Notice(Notice::DragDrop { device: 70 })));
    assert!(outbox(&mut state, 3)
        .iter()
        .any(|m| matches!(m, Message::Notice(Notice::SourceDropPerformed { source: 50 }))));
}

#[test]
fn a_drop_that_is_not_accepted_is_refused() {
    let (mut state, shell) = dragging();
    state.start_drag(Some((3, 50)), 3, (3, 10), None);
    state.input.cursor = (250, 50);
    update_drag(&mut state, &shell, 1);
    let offer = state.data.drag.as_ref().unwrap().focus_offers[0];
    outbox(&mut state, 4);
    outbox(&mut state, 3);
    finish_drag(&mut state);
    assert_eq!(state.data.data_offers.get(offer).unwrap().source, None);
    assert!(matches!(outbox(&mut state, 4)[0], Message::Notice(Notice::DragLeave { device: 70 })));
    assert!(state.data.data_sources.get((3, 50)).unwrap().cancelled);
}

#[test]
fn a_drag_of_nothing_stays_within_its_client() {
    let (mut state, shell) = dragging();
    state.start_drag(None, 3, (3, 10), None);
    state.input.cursor = (250, 50);
    assert!(update_drag(&mut state, &shell, 1));
    assert_eq!(state.data.drag.as_ref().unwrap().focus, None);
    state.input.cursor = (50, 50);
    assert!(update_drag(&mut state, &shell, 2));
    assert_eq!(state.data.drag.as_ref().unwrap().focus, Some((3, 10)));
    finish_drag(&mut state);
    assert!(outbox(&mut state, 3)
        .iter()
        .any(|m| matches!(m, Message::Notice(Notice::DragDrop { device: 70 }))));
}

#[test]
fn a_drop_on_nothing_cancels() {
    let (mut state, _) = dragging();
    state.start_drag(Some((3, 50)), 3, (3, 10), None);
    finish_drag(&mut state);
    assert!(state.data.data_sources.get((3, 50)).unwrap().cancelled);
    enter_drag_surface(&mut state, (4, 10), (0, 0));
    assert_eq!(state.data.data_offers.len(), 0);
}

fn times_cancelled(state: &mut CompositorState, client: u32, source: u32) -> usize {
    outbox(state, client)
        .iter()
        .filter(|m| match m {
            Message::Notice(Notice::SourceCancelled { source: s }) => *s == source,
            Message::Event(e) => e.object_id == source && e.op_code == 1 && e.args.is_empty(),
            _ => false,
        })
        .count()
}

#[test]
fn a_dragged_source_hears_of_its_end_once_or_not_at_all() {
    for interface in [DataInterface::WlData, DataInterface::DataControl] {
        for notify in [false, true] {
            let mut state = two_clients();
            source(&mut state, (3, 50), interface, "a");
            state.start_drag(Some((3, 50)), 3, (3, 10), None);
            state.dirty = false;
            outbox(&mut state, 3);
            state.retire_data_source((3, 50), notify);
            assert_eq!(times_cancelled(&mut state, 3, 50), usize::from(notify));
            assert!(state.data.drag.is_none());
            assert!(state.dirty);
        }
    }
}

#[test]
fn a_client_that_goes_leaves_nothing_with_others() {
    let mut state = two_clients();
    source(&mut state, (3, 50), DataInterface::PrimarySelection, "text/plain");
    let offer = state
        .create_offer(4, 8, (3, 50), DataInterface::PrimarySelection, OfferKind::Selection)
        .unwrap();
    state.start_drag(None, 4, (4, 10), None);
    state.data.drag.as_mut().unwrap().focus = Some((3, 10));
    state.remove_client_resources(3);
    assert_eq!(state.data.data_offers.get(offer).unwrap().source, None);
    assert_eq!(state.data.drag.as_ref().unwrap().focus, None);
}
