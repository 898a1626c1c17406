//! Surfaces: what is pending, what is cached and what is shown.
use tokio_way_core::input::frames::{fire_frame_callbacks, FrameTarget, Presentation};
use tokio_way_core::input::outputs::update_surface_outputs;
use tokio_way_core::protocol::dispatch::handle_message;
use tokio_way_core::protocol::messages::Message;
use tokio_way_core::protocol::wire_utils::{encode_args, Arg, ClientMessage};
use tokio_way_core::protocol::wp_presentation_feedback::PresentationFlags;
use tokio_way_core::protocol::ObjectType;
use tokio_way_core::run::clients::client_connected;
use tokio_way_core::shell::{NoShell, ShellAnswers};
use tokio_way_core::state::compositor_state::CompositorState;
use tokio_way_core::state::types::{
    BufferTransform, FixedRect, Output, OutputGeometry, OutputMode, RegionOp, RegionRect, Scale, SurfacePending,
    TextureRect, region_contains,
};
use tokio_way_core::state::commit::clamp_rect;

fn request(object_id: u32, op_code: u16, args: Vec<Arg>) -> ClientMessage {
    ClientMessage { client_id: 3, object_id, op_code, args: encode_args(&args) }
}

fn send(state: &mut CompositorState, object_id: u32, op_code: u16, args: Vec<Arg>) {
    assert!(handle_message(state, &NoShell, &request(object_id, op_code, args)).is_none());
}

fn state_with_surfaces() -> CompositorState {
    let mut state = CompositorState::new();
    client_connected(&mut state, 3);
    state.register(3, 4, ObjectType::WlSubcompositor);
    for id in [10, 11, 12] {
        state.register(3, id, ObjectType::WlSurface);
        state.create_surface(3, id);
    }
    state.register_shm_pool(3, 20, 9, 65536, true);
    state.register_buffer(3, 21, 20, 0, 20, 10, 80, 0);
    state.register_buffer(3, 22, 20, 0, 40, 30, 160, 0);
    state
}

fn attach(state: &mut CompositorState, surface: u32, buffer: u32) {
    send(state, surface, 1, vec![Arg::Uint(buffer), Arg::Int(0), Arg::Int(0)]);
}

fn make_subsurface(state: &mut CompositorState, object: u32, surface: u32, parent: u32) {
    send(state, 4, 1, vec![Arg::Uint(object), Arg::Uint(surface), Arg::Uint(parent)]);
}

fn buffer_of(state: &CompositorState, surface: u32) -> Option<u32> {
    state.surf.surfaces.get((3, surface)).unwrap().buffer_id
}

#[test]
fn what_is_attached_waits_for_a_commit() {
    let mut state = state_with_surfaces();
    attach(&mut state, 10, 21);
    assert_eq!(buffer_of(&state, 10), None);
    send(&mut state, 10, 6, vec![]);
    assert_eq!(buffer_of(&state, 10), Some(21));
    assert_eq!(state.surface_size((3, 10)), (20, 10));
    assert!(state.dirty);
    attach(&mut state, 10, 22);
    send(&mut state, 10, 6, vec![]);
    assert_eq!(state.mem.buffers_pending_release, vec![(3, 21)]);
}

#[test]
fn a_null_buffer_takes_the_surface_off() {
    let mut state = state_with_surfaces();
    attach(&mut state, 10, 21);
    send(&mut state, 10, 6, vec![]);
    attach(&mut state, 10, 0);
    send(&mut state, 10, 6, vec![]);
    assert_eq!(buffer_of(&state, 10), None);
    assert_eq!(state.surface_size((3, 10)), (0, 0));
}

#[test]
fn a_scale_of_zero_is_fatal() {
    let mut state = state_with_surfaces();
    send(&mut state, 10, 8, vec![Arg::Int(0)]);
    assert!(state.clients.peek(3).unwrap().cancelled);
}

#[test]
fn scale_and_transform_change_the_size() {
    let mut state = state_with_surfaces();
    attach(&mut state, 10, 21);
    send(&mut state, 10, 8, vec![Arg::Int(2)]);
    send(&mut state, 10, 7, vec![Arg::Int(1)]);
    send(&mut state, 10, 6, vec![]);
    assert_eq!(state.surf.surfaces.get((3, 10)).unwrap().buffer_transform, BufferTransform::Rotate90);
    assert_eq!(state.surface_size((3, 10)), (5, 10));
}

#[test]
fn a_viewport_crops_and_scales() {
    let mut state = state_with_surfaces();
    attach(&mut state, 10, 21);
    send(&mut state, 10, 6, vec![]);
    state.create_viewport(3, 50, 10);
    {
        let v = state.surf.viewports.get_mut((3, 50)).unwrap();
        v.source = Some(FixedRect { x: 256, y: 0, width: 8 * 256, height: 4 * 256 });
    }
    assert_eq!(state.surface_size((3, 10)), (8, 4));
    state.surf.viewports.get_mut((3, 50)).unwrap().destination = Some((100, 50));
    let m = state.surface_buffer_mapping((3, 10)).unwrap();
    assert_eq!((m.dest_width, m.dest_height), (100, 50));
    assert_eq!((m.src.x, m.src.width), (256, 2048));
}

#[test]
fn a_synchronised_subsurface_waits_for_its_parent() {
    let mut state = state_with_surfaces();
    make_subsurface(&mut state, 30, 11, 10);
    assert!(state.is_effectively_synced((3, 11)));
    attach(&mut state, 11, 21);
    send(&mut state, 11, 6, vec![]);
    assert_eq!(buffer_of(&state, 11), None);
    assert!(state.surf.surfaces.get((3, 11)).unwrap().cached.is_some());
    send(&mut state, 10, 6, vec![]);
    assert_eq!(buffer_of(&state, 11), Some(21));
    assert!(state.surf.surfaces.get((3, 11)).unwrap().cached.is_none());
}

#[test]
fn being_synchronised_is_inherited() {
    let mut state = state_with_surfaces();
    make_subsurface(&mut state, 30, 11, 10);
    make_subsurface(&mut state, 31, 12, 11);
    state.surf.surfaces.get_mut((3, 12)).unwrap().subsurface_sync = false;
    assert!(state.is_effectively_synced((3, 12)));
    state.surf.surfaces.get_mut((3, 11)).unwrap().subsurface_sync = false;
    assert!(!state.is_effectively_synced((3, 12)));
}

#[test]
fn a_whole_tree_is_shown_at_once() {
    let mut state = state_with_surfaces();
    make_subsurface(&mut state, 30, 11, 10);
    make_subsurface(&mut state, 31, 12, 11);
    attach(&mut state, 12, 22);
    send(&mut state, 12, 6, vec![]);
    attach(&mut state, 11, 21);
    send(&mut state, 11, 6, vec![]);
    send(&mut state, 10, 6, vec![]);
    assert_eq!(buffer_of(&state, 11), Some(21));
    assert_eq!(buffer_of(&state, 12), Some(22));
}

#[test]
fn a_loop_of_surfaces_is_refused() {
    let mut state = state_with_surfaces();
    make_subsurface(&mut state, 30, 11, 10);
    make_subsurface(&mut state, 31, 12, 11);
    assert!(state.is_ancestor(3, 10, 12));
    make_subsurface(&mut state, 32, 10, 12);
    assert!(state.clients.peek(3).unwrap().cancelled);
    assert_eq!(state.surf.surfaces.get((3, 10)).unwrap().parent, None);
    assert_eq!(state.root_of((3, 12)), (3, 10));
}

#[test]
fn positions_add_up_to_the_root() {
    let mut state = state_with_surfaces();
    make_subsurface(&mut state, 30, 11, 10);
    make_subsurface(&mut state, 31, 12, 11);
    send(&mut state, 30, 1, vec![Arg::Int(5), Arg::Int(-6)]);
    send(&mut state, 31, 1, vec![Arg::Int(100), Arg::Int(200)]);
    state.surf.surfaces.get_mut((3, 10)).unwrap().position = (1000, 2000);
    assert_eq!(state.global_position_of((3, 12)), (1105, 2194));
}

#[test]
fn a_destroyed_subsurface_object_frees_its_surface() {
    let mut state = state_with_surfaces();
    make_subsurface(&mut state, 30, 11, 10);
    attach(&mut state, 11, 21);
    send(&mut state, 11, 6, vec![]);
    send(&mut state, 30, 0, vec![]);
    let s = state.surf.surfaces.get((3, 11)).unwrap();
    assert_eq!((s.parent, s.is_subsurface, s.buffer_id), (None, false, Some(21)));
    assert!(state.surf.surfaces.get((3, 10)).unwrap().children.is_empty());
}

#[test]
fn two_commits_fold_into_one() {
    let mut a = SurfacePending::default();
    a.buffer_attached = true;
    a.buffer_id = Some(1);
    a.frame_callbacks.push(5);
    a.offset = (1, 2);
    let mut b = SurfacePending::default();
    b.frame_callbacks.push(6);
    b.offset = (10, 20);
    b.buffer_scale = Some(2);
    a.merge(b);
    assert_eq!(a.buffer_id, Some(1));
    assert_eq!(a.frame_callbacks, vec![5, 6]);
    assert_eq!(a.offset, (11, 22));
    assert_eq!(a.buffer_scale, Some(2));
}

#[test]
fn regions_are_replayed_in_order() {
    let rects = [
        RegionRect { op: RegionOp::Add, x: 0, y: 0, width: 10, height: 10 },
        RegionRect { op: RegionOp::Subtract, x: 2, y: 2, width: 4, height: 4 },
        RegionRect { op: RegionOp::Add, x: 3, y: 3, width: 1, height: 1 },
    ];
    assert!(region_contains(&rects, 0, 0));
    assert!(!region_contains(&rects, 2, 2));
    assert!(region_contains(&rects, 3, 3));
    assert!(!region_contains(&rects, 10, 0));
}

#[test]
fn damage_is_clipped_to_the_buffer() {
    let r = TextureRect { x: -5, y: 3, width: 10, height: 100 };
    assert_eq!(clamp_rect(r, 20, 10), Some(TextureRect { x: 0, y: 3, width: 5, height: 7 }));
    assert_eq!(clamp_rect(TextureRect { x: 20, y: 0, width: 5, height: 5 }, 20, 10), None);
}

#[test]
fn a_frame_callback_is_answered_when_shown() {
    let mut state = state_with_surfaces();
    send(&mut state, 10, 3, vec![Arg::Uint(60)]);
    send(&mut state, 10, 6, vec![]);
    state.surf.surfaces.get_mut((3, 10)).unwrap().visible_on.insert(1);
    state.surf.surfaces.get_mut((3, 10)).unwrap().presentation_feedbacks.push(61);
    state.register(3, 61, ObjectType::WpPresentationFeedback);
    fire_frame_callbacks(&mut state, 5, FrameTarget::Offscreen, None);
    assert_eq!(state.surf.surfaces.get((3, 10)).unwrap().frame_callbacks, vec![60]);
    state.clients.get(3).unwrap().take_outbox();
    let presented = Presentation {
        tv_sec: 0x1_0000_0002,
        tv_nsec: 7,
        refresh_ns: 16,
        sequence: 0x3_0000_0004,
        flags: PresentationFlags { vsync: true, hw_clock: false, hw_completion: true, zero_copy: false },
    };
    fire_frame_callbacks(&mut state, 1234, FrameTarget::Output(1), Some(presented));
    assert!(state.surf.surfaces.get((3, 10)).unwrap().frame_callbacks.is_empty());
    let out = state.clients.get(3).unwrap().take_outbox();
    match &out[0] {
        Message::Event(e) => {
            assert_eq!((e.object_id, e.op_code), (60, 0));
            assert!(matches!(e.args[0], Arg::Uint(1234)));
        }
        _ => panic!("not an event"),
    }
    match &out[2] {
        Message::Event(e) => {
            assert_eq!((e.object_id, e.op_code), (61, 1));
            let words: Vec<u32> = e
                .args
                .iter()
                .map(|a| match a {
                    Arg::Uint(n) => *n,
                    _ => panic!("not a number"),
                })
                .collect();
            assert_eq!(words, vec![1, 2, 7, 16, 3, 4, 5]);
        }
        _ => panic!("not an event"),
    }
    assert_eq!(state.type_of(3, 60), None);
}

#[test]
fn what_is_shown_nowhere_is_discarded() {
    let mut state = state_with_surfaces();
    state.register(3, 61, ObjectType::WpPresentationFeedback);
    state.surf.surfaces.get_mut((3, 10)).unwrap().presentation_feedbacks.push(61);
    fire_frame_callbacks(&mut state, 5, FrameTarget::Offscreen, None);
    let out = state.clients.get(3).unwrap().take_outbox();
    assert!(matches!(&out[0], Message::Event(e) if e.object_id == 61 && e.op_code == 2));
}

fn output(id: u32, x: i32, scale: u32) -> Output {
    Output {
        id,
        geometry: OutputGeometry {
            x,
            y: 0,
            subpixel: 0,
            make: String::new(),
            model: String::new(),
            transform: 0,
        },
        modes: vec![OutputMode { flags: 1, width: 100, height: 100, refresh_mhz: 0 }],
        scale: Scale(scale),
        name: String::new(),
        description: String::new(),
        width: 100,
        height: 100,
    }
}

#[test]
fn a_surface_hears_of_the_outputs_it_is_on() {
    let mut state = state_with_surfaces();
    state.out.outputs.push(output(1, 0, 120));
    state.out.outputs.push(output(2, 100, 180));
    state.out.output_bindings.insert((3, 71), 1);
    state.out.output_bindings.insert((3, 72), 2);
    attach(&mut state, 10, 21);
    send(&mut state, 10, 6, vec![]);
    state.surf.surfaces.get_mut((3, 10)).unwrap().position = (90, 0);
    let mut shell = ShellAnswers::new();
    shell.visible.insert((3, 10));
    state.clients.get(3).unwrap().take_outbox();
    update_surface_outputs(&mut state, &shell);
    assert_eq!(state.clients.get(3).unwrap().take_outbox().len(), 2);
    assert_eq!(state.preferred_scale((3, 10)), 180);
    update_surface_outputs(&mut state, &shell);
    assert_eq!(state.clients.get(3).unwrap().take_outbox().len(), 0);
    state.surf.surfaces.get_mut((3, 10)).unwrap().position = (0, 0);
    update_surface_outputs(&mut state, &shell);
    let out = state.clients.get(3).unwrap().take_outbox();
    assert!(matches!(&out[0], Message::Event(e) if e.object_id == 10 && e.op_code == 1));
    assert_eq!(out.len(), 1);
    update_surface_outputs(&mut state, &NoShell);
    let s = state.surf.surfaces.get((3, 10)).unwrap();
    assert!(s.visible_on.is_empty() && s.entered_outputs.is_empty());
}

#[test]
fn a_surface_has_one_scale_object() {
    let mut state = state_with_surfaces();
    state.register(3, 5, ObjectType::WpFractionalScaleManager);
    send(&mut state, 5, 1, vec![Arg::Uint(80), Arg::Uint(10)]);
    let out = state.clients.get(3).unwrap().take_outbox();
    assert!(matches!(&out[0], Message::Event(e) if e.object_id == 80 && matches!(e.args[0], Arg::Uint(120))));
    send(&mut state, 5, 1, vec![Arg::Uint(81), Arg::Uint(10)]);
    assert!(state.clients.peek(3).unwrap().cancelled);
    assert_eq!(state.surf.fractional_scales.len(), 1);
}

#[test]
fn a_destroyed_surface_takes_its_input_with_it() {
    let mut state = state_with_surfaces();
    make_subsurface(&mut state, 30, 11, 10);
    state.input.pointer_surface = Some((3, 11));
    state.input.focused_surface = Some((3, 11));
    state.input.touch_points.insert(1, (3, 11));
    send(&mut state, 11, 0, vec![]);
    assert_eq!(state.input.pointer_surface, None);
    assert_eq!(state.input.focused_surface, None);
    assert_eq!(state.input.touch_points.len(), 0);
    assert!(state.surf.surfaces.get((3, 10)).unwrap().children.is_empty());
}

#[test]
fn surface_damage_is_placed_or_is_everything() {
    let rect = |x, y, width, height| TextureRect { x, y, width, height };
    let mut state = CompositorState::new();
    client_connected(&mut state, 3);
    state.register_shm_pool(3, 20, 9, 1_000_000, true);
    state.register_buffer(3, 21, 20, 0, 100, 100, 400, 0);
    state.create_surface(3, 10);
    state.surf.surfaces.get_mut((3, 10)).unwrap().buffer_id = Some(21);
    let damage = |s: &CompositorState, r| s.committed_damage((3, 10), 21, &vec![r], &vec![rect(95, 95, 9, 9)]);
    assert_eq!(damage(&state, rect(0, 0, 10, 10)), vec![rect(95, 95, 5, 5), rect(0, 0, 11, 11)]);
    assert_eq!(damage(&state, rect(-9, 40, 10, 10)), vec![rect(95, 95, 5, 5), rect(0, 39, 2, 12)]);
    assert!(damage(&state, rect(i32::MIN, 0, i32::MAX, 10)).is_empty());
    assert!(damage(&state, rect(-10, 0, i32::MAX, 10)).is_empty());
    state.surf.surfaces.get_mut((3, 10)).unwrap().buffer_transform = BufferTransform::Rotate180;
    assert!(damage(&state, rect(0, 0, 10, 10)).is_empty());
    assert_eq!(
        state.committed_damage((3, 10), 21, &vec![], &vec![rect(95, 95, 9, 9)]),
        vec![rect(95, 95, 5, 5)]
    );
    assert!(state.committed_damage((3, 10), 22, &vec![], &vec![rect(0, 0, 1, 1)]).is_empty());
}
