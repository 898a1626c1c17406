//! Scenes, damage, cursors and pacing.
use tokio_way_core::run::clients::client_connected;
use tokio_way_core::run::pacer::FramePacer;
use tokio_way_core::scene::compose::{build, current_mode_size, Scene, SceneItem, BELL_FLASH_COLOR};
use tokio_way_core::scene::cursor::{
    argb_to_bytes, build_cursor, client_cursor, fallback_cursor_pixels, CursorChoice, CURSOR_BLACK, CURSOR_WHITE,
};
use tokio_way_core::scene::damage::output_damage;
use tokio_way_core::scene::images::{
    ensure_image, repack_rows, PixelFormat, SceneCache, TextureId, TextureSource,
};
use tokio_way_core::scene::paint::{surface_is_opaque, Quad, SceneContent};
use tokio_way_core::scene::theme::{
    cursor_size, pick_cursor, read_cursor, CursorImage, DEFAULT_CURSOR_NAMES,
};
use tokio_way_core::shell::ShellAnswers;
use tokio_way_core::state::compositor_state::CompositorState;
use tokio_way_core::state::types::{
    BufferKind, DefaultCursor, Output, OutputGeometry, OutputMode, RegionOp, RegionRect, Scale, Surface, TextureRect,
};

fn output(id: u32, x: i32) -> Output {
    Output {
        id,
        geometry: OutputGeometry {
            x,
            y: 0,
            subpixel: 0,
            make: "m".to_string(),
            model: "n".to_string(),
            transform: 0,
        },
        modes: vec![OutputMode { flags: 1, width: 800, height: 600, refresh_mhz: 60000 }],
        scale: Scale(120),
        name: "o".to_string(),
        description: "d".to_string(),
        width: 800,
        height: 600,
    }
}

fn state_with_window() -> CompositorState {
    let mut state = CompositorState::new();
    state.out.outputs.push(output(1, 100));
    client_connected(&mut state, 7);
    state.register_shm_pool(7, 20, 3, 4096, true);
    state.register_buffer(7, 21, 20, 0, 16, 8, 64, 1);
    state.create_surface(7, 10);
    let surface = state.surf.surfaces.get_mut((7, 10)).unwrap();
    surface.buffer_id = Some(21);
    surface.position = (130, 40);
    state
}

fn desk(plain: bool) -> ShellAnswers {
    let mut shell = ShellAnswers::new();
    shell.placed.insert((7, 10), 1);
    shell.stacks.insert(1, vec![(7, 10)]);
    shell.visible.insert((7, 10));
    if !plain {
        shell.presented.insert((7, 10));
    }
    shell
}

fn region(op: RegionOp, x: i32, y: i32, width: i32, height: i32) -> RegionRect {
    RegionRect { op, x, y, width, height }
}

#[test]
fn a_window_is_drawn_where_it_is_on_its_output() {
    let state = state_with_window();
    let mut cache = SceneCache::new();
    let scene = build(1, 5, &state, &desk(true), &mut cache);
    assert_eq!(scene.serial, 5);
    assert_eq!(scene.scale, Scale(120));
    assert_eq!(scene.items.len(), 1);
    match &scene.items[0] {
        SceneItem::Element(e) => {
            assert_eq!(e.dst, Quad { x: 30, y: 40, width: 16, height: 8 });
            assert!(!e.opaque);
            match &e.content {
                SceneContent::Texture { image, .. } => {
                    assert_eq!(image.id, TextureId::Buffer(7, 21));
                    assert_eq!(image.format, PixelFormat::Xrgb8888);
                }
                _ => panic!("not a texture"),
            }
        }
        _ => panic!("not an element"),
    }
}

#[test]
fn a_presented_window_is_one_quad() {
    let mut state = state_with_window();
    state.create_surface(7, 11);
    {
        let child = state.surf.surfaces.get_mut((7, 11)).unwrap();
        child.buffer_id = Some(21);
        child.parent = Some(10);
        child.subsurface_position = (-4, 100);
    }
    state.surf.surfaces.get_mut((7, 10)).unwrap().children.push(11);
    let mut cache = SceneCache::new();
    let scene = build(1, 1, &state, &desk(false), &mut cache);
    match &scene.items[0] {
        SceneItem::Group { window, bounds, elements } => {
            assert_eq!(*window, (7, 10));
            assert_eq!(*bounds, Quad { x: 26, y: 40, width: 20, height: 108 });
            assert_eq!(elements[0].dst, Quad { x: 4, y: 0, width: 16, height: 8 });
            assert_eq!(elements[1].dst, Quad { x: 0, y: 100, width: 16, height: 8 });
        }
        _ => panic!("not a group"),
    }
}

#[test]
fn an_output_in_no_mode_shows_nothing() {
    let mut state = state_with_window();
    state.out.outputs[0].modes[0].flags = 2;
    assert_eq!(current_mode_size(&state.out.outputs[0]), None);
    let mut cache = SceneCache::new();
    assert_eq!(build(1, 1, &state, &desk(true), &mut cache).items.len(), 0);
    state.out.outputs[0].modes[0].flags = 3;
    assert_eq!(current_mode_size(&state.out.outputs[0]), Some((800, 600)));
}

#[test]
fn a_destroyed_buffer_leaves_its_picture() {
    let mut state = state_with_window();
    let mut cache = SceneCache::new();
    assert_eq!(build(1, 1, &state, &desk(true), &mut cache).items.len(), 1);
    state.destroy_buffer(7, 21);
    assert_eq!(build(1, 2, &state, &desk(true), &mut cache).items.len(), 1);
    state.surf.surfaces.get_mut((7, 10)).unwrap().buffer_id = None;
    cache.gc(&state);
    assert!(cache.is_empty());
    assert_eq!(build(1, 3, &state, &desk(true), &mut cache).items.len(), 0);
}

#[test]
fn a_buffer_that_was_never_there_shows_nothing() {
    let mut state = state_with_window();
    state.surf.surfaces.get_mut((7, 10)).unwrap().buffer_id = Some(99);
    let mut cache = SceneCache::new();
    assert_eq!(build(1, 1, &state, &desk(true), &mut cache).items.len(), 0);
}

#[test]
fn a_bell_flashes_over_everything() {
    let mut state = state_with_window();
    state.ring_bell(1, 0);
    let mut cache = SceneCache::new();
    let scene = build(1, 1, &state, &desk(true), &mut cache);
    assert_eq!(scene.items.len(), 2);
    match &scene.items[1] {
        SceneItem::Element(e) => {
            assert!(matches!(e.content, SceneContent::Color(BELL_FLASH_COLOR)));
            assert_eq!(e.dst, Quad { x: 0, y: 0, width: 800, height: 600 });
        }
        _ => panic!("not an element"),
    }
    assert!(!state.expire_bells(119));
    assert!(state.expire_bells(120));
}

#[test]
fn textures_say_what_is_new() {
    let mut state = state_with_window();
    let mut cache = SceneCache::new();
    let first = ensure_image(&state, &mut cache, (7, 21)).unwrap();
    match &first.source {
        TextureSource::Upload(u) => {
            assert_eq!((u.offset, u.stride, u.row_bytes, u.repack), (0, 64, 64, false));
            assert_eq!(u.previous_serial, None);
            assert_eq!(u.damage.len(), 0);
        }
        _ => panic!("not an upload"),
    }
    state.clear_buffer_damage();
    let rect = TextureRect { x: 1, y: 2, width: 3, height: 4 };
    state.mark_buffer_damaged(7, 21, &vec![rect]);
    let second = ensure_image(&state, &mut cache, (7, 21)).unwrap();
    assert!(second.serial > first.serial);
    match &second.source {
        TextureSource::Upload(u) => {
            assert_eq!(u.previous_serial, Some(first.serial));
            assert_eq!(u.damage, vec![rect]);
        }
        _ => panic!("not an upload"),
    }
    let third = ensure_image(&state, &mut cache, (7, 21)).unwrap();
    match &third.source {
        TextureSource::Upload(u) => {
            assert_eq!(u.previous_serial, None);
            assert_eq!(u.damage.len(), 0);
        }
        _ => panic!("not an upload"),
    }
}

#[test]
fn a_buffer_outside_its_pool_is_not_read() {
    let mut state = state_with_window();
    let mut cache = SceneCache::new();
    state.register_buffer(7, 22, 20, 3600, 16, 8, 64, 0);
    assert!(ensure_image(&state, &mut cache, (7, 22)).is_none());
    state.register_buffer(7, 22, 20, 3584, 16, 8, 64, 0);
    assert!(ensure_image(&state, &mut cache, (7, 22)).is_some());
    state.register_buffer(7, 23, 20, 0, 17, 8, 64, 0);
    assert!(ensure_image(&state, &mut cache, (7, 23)).is_none());
    state.register_buffer(7, 24, 20, 0, 16, 8, 66, 0);
    match ensure_image(&state, &mut cache, (7, 24)).unwrap().source {
        TextureSource::Upload(u) => assert!(u.repack),
        _ => panic!("not an upload"),
    }
    state.mem.buffers.get_mut((7, 24)).unwrap().kind = BufferKind::Failed;
    assert!(ensure_image(&state, &mut cache, (7, 24)).is_none());
    state.mem.buffers.get_mut((7, 24)).unwrap().kind = BufferKind::Dmabuf;
    assert!(matches!(
        ensure_image(&state, &mut cache, (7, 24)).unwrap().source,
        TextureSource::Imported
    ));
}

#[test]
fn rows_are_packed_tightly() {
    let bytes: Vec<u8> = (0..20).collect();
    assert_eq!(repack_rows(&bytes, 1, 6, 4, 3).unwrap(), vec![1, 2, 3, 4, 7, 8, 9, 10, 13, 14, 15, 16]);
    assert!(repack_rows(&bytes, 1, 6, 8, 3).is_none());
    assert!(repack_rows(&bytes, 1, 100, 4, 2).is_none());
    assert_eq!(repack_rows(&bytes, 30, 6, 4, 0).unwrap().len(), 0);
}

#[test]
fn a_surface_is_opaque_if_one_rectangle_covers_it() {
    let mut surface = Surface::new(1);
    assert!(!surface_is_opaque(&surface, 10, 10));
    surface.opaque_region = Some(vec![region(RegionOp::Add, -1, 0, 11, 10)]);
    assert!(surface_is_opaque(&surface, 10, 10));
    assert!(!surface_is_opaque(&surface, 11, 10));
    surface.opaque_region = Some(vec![region(RegionOp::Add, 0, 0, 5, 10), region(RegionOp::Add, 5, 0, 5, 10)]);
    assert!(!surface_is_opaque(&surface, 10, 10));
}

#[test]
fn a_hole_cut_later_is_not_opaque() {
    let mut surface = Surface::new(1);
    surface.opaque_region =
        Some(vec![region(RegionOp::Add, 0, 0, 10, 10), region(RegionOp::Subtract, 2, 2, 1, 1)]);
    assert!(!surface_is_opaque(&surface, 10, 10));
    surface.opaque_region =
        Some(vec![region(RegionOp::Subtract, 2, 2, 1, 1), region(RegionOp::Add, 0, 0, 10, 10)]);
    assert!(surface_is_opaque(&surface, 10, 10));
    surface.opaque_region =
        Some(vec![region(RegionOp::Add, 0, 0, 10, 10), region(RegionOp::Subtract, 10, 0, 5, 5)]);
    assert!(surface_is_opaque(&surface, 10, 10));
}

fn scene_of(state: &CompositorState, cache: &mut SceneCache) -> Scene {
    build(1, 1, state, &desk(true), cache)
}

#[test]
fn damage_is_what_differs() {
    let mut state = state_with_window();
    let mut cache = SceneCache::new();
    let a = scene_of(&state, &mut cache);
    let b = scene_of(&state, &mut cache);
    assert_eq!(output_damage(&a, &b).len(), 0);
    state.surf.surfaces.get_mut((7, 10)).unwrap().position = (131, 40);
    let c = scene_of(&state, &mut cache);
    assert_eq!(
        output_damage(&a, &c),
        vec![
            TextureRect { x: 30, y: 40, width: 16, height: 8 },
            TextureRect { x: 31, y: 40, width: 16, height: 8 },
        ]
    );
    state.mark_buffer_damaged(7, 21, &vec![]);
    let d = scene_of(&state, &mut cache);
    assert_eq!(output_damage(&c, &d), vec![TextureRect { x: 31, y: 40, width: 16, height: 8 }]);
    state.surf.surfaces.get_mut((7, 10)).unwrap().buffer_id = None;
    let e = scene_of(&state, &mut cache);
    assert_eq!(output_damage(&d, &e), vec![TextureRect { x: 31, y: 40, width: 16, height: 8 }]);
}

#[test]
fn presented_windows_damage_everything() {
    let state = state_with_window();
    let mut cache = SceneCache::new();
    let a = build(1, 1, &state, &desk(false), &mut cache);
    let b = build(1, 2, &state, &desk(false), &mut cache);
    let all = TextureRect { x: 0, y: 0, width: b.size.0, height: b.size.1 };
    assert!(all.width > 0 && all.height > 0);
    assert_eq!(output_damage(&a, &b), vec![all]);
    let c = build(1, 3, &state, &desk(true), &mut cache);
    assert_eq!(output_damage(&b, &c), vec![all]);
    let d = Scene { background: !c.background, ..build(1, 4, &state, &desk(true), &mut cache) };
    assert_eq!(output_damage(&c, &d), vec![all]);
}

#[test]
fn the_built_in_cursor_is_an_arrow() {
    let (width, height, pixels) = fallback_cursor_pixels();
    assert_eq!((width, height, pixels.len()), (12, 19, 228));
    assert_eq!(pixels[0], CURSOR_BLACK);
    assert_eq!(pixels[1], 0);
    assert_eq!(pixels[2 * 12 + 1], CURSOR_WHITE);
    assert_eq!(pixels[18 * 12 + 7], CURSOR_BLACK);
    assert_eq!(pixels[227], 0);
    assert_eq!(pixels.iter().filter(|p| **p == CURSOR_WHITE).count(), 75);
}

#[test]
fn pixels_are_blue_first() {
    assert_eq!(argb_to_bytes(&vec![0x1122_3344, 0xff00_0001]), vec![0x44, 0x33, 0x22, 0x11, 1, 0, 0, 0xff]);
}

#[test]
fn the_cursor_is_the_clients_choice() {
    let mut state = state_with_window();
    assert_eq!(client_cursor(&state), CursorChoice::Compositor);
    state.input.pointer_surface = Some((7, 10));
    assert_eq!(client_cursor(&state), CursorChoice::Compositor);
    state.cursors.cursor_surfaces.insert(7, None);
    assert_eq!(client_cursor(&state), CursorChoice::Hidden);
    state.cursors.cursor_surfaces.insert(7, Some((10, 2, 3)));
    assert_eq!(client_cursor(&state), CursorChoice::Surface((7, 10), 2, 3));
    state.surf.surfaces.get_mut((7, 10)).unwrap().buffer_id = None;
    assert_eq!(client_cursor(&state), CursorChoice::Compositor);
    state.cursors.cursor_shapes.insert(7, 4);
    assert_eq!(client_cursor(&state), CursorChoice::Shape(4));
}

fn theme_cursor(hotspot_x: i32) -> DefaultCursor {
    DefaultCursor { pixels: vec![1, 2, 3, 4], width: 2, height: 2, hotspot_x, hotspot_y: 1 }
}

#[test]
fn the_cursor_is_drawn_at_its_hotspot() {
    let mut state = state_with_window();
    let mut cache = SceneCache::new();
    state.input.cursor = (99, 50);
    let off = build_cursor(&state, &mut cache);
    assert_eq!(off.output, None);
    assert_eq!(off.elements.len(), 0);
    state.input.cursor = (150, 50);
    let fallback = build_cursor(&state, &mut cache);
    assert_eq!(fallback.output, Some(1));
    assert_eq!(fallback.elements[0].dst, Quad { x: 50, y: 50, width: 12, height: 19 });
    state.cursors.default_cursor = Some(theme_cursor(1));
    let themed = build_cursor(&state, &mut cache);
    assert_eq!(themed.elements[0].dst, Quad { x: 49, y: 49, width: 2, height: 2 });
    match &themed.elements[0].content {
        SceneContent::Texture { image, src, .. } => {
            assert_eq!(image.id, TextureId::DefaultCursor);
            assert_eq!((src.width, src.height), (512, 512));
            match &image.source {
                TextureSource::Pixels(p) => assert_eq!(p.len(), 16),
                _ => panic!("no pixels"),
            }
        }
        _ => panic!("not a texture"),
    }
}

#[test]
fn a_shape_takes_the_themed_slot() {
    let mut state = state_with_window();
    let mut cache = SceneCache::new();
    state.input.cursor = (150, 50);
    state.input.pointer_surface = Some((7, 10));
    state.cursors.default_cursor = Some(theme_cursor(0));
    let a = build_cursor(&state, &mut cache);
    state.cursors.cursor_shapes.insert(7, 4);
    let b = build_cursor(&state, &mut cache);
    state.cursors.cursor_shape_images.insert(4, theme_cursor(2));
    let c = build_cursor(&state, &mut cache);
    let serial = |cursor: &tokio_way_core::scene::cursor::Cursor| match &cursor.elements[0].content {
        SceneContent::Texture { image, .. } => image.serial,
        _ => panic!("not a texture"),
    };
    assert_eq!(serial(&a), serial(&b));
    assert!(serial(&c) > serial(&b));
    assert_eq!(c.elements[0].dst.x, 48);
}

#[test]
fn a_waiting_output_is_served_when_something_changes() {
    let mut state = state_with_window();
    let mut pacer = FramePacer::new();
    state.dirty = false;
    state.cursor_dirty = false;
    pacer.request(1);
    assert!(!pacer.publish(&mut state, &desk(true)));
    assert!(pacer.waiting.contains(1));
    state.dirty = true;
    assert!(pacer.publish(&mut state, &desk(true)));
    assert!(!pacer.waiting.contains(1));
    assert!(!state.dirty);
    let first = pacer.published.get(1).unwrap();
    assert_eq!((first.serial, first.damage_from), (1, None));
    state.dirty = true;
    assert!(!pacer.publish(&mut state, &desk(true)));
    assert!(pacer.stale.contains(1));
    pacer.request(1);
    assert!(pacer.publish(&mut state, &desk(true)));
    let second = pacer.published.get(1).unwrap();
    assert_eq!((second.serial, second.damage_from), (2, Some(1)));
    assert_eq!(second.damage.len(), 0);
}

#[test]
fn a_first_scene_has_a_serial_above_all_others() {
    let mut state = state_with_window();
    state.out.outputs.push(output(2, 900));
    let mut pacer = FramePacer::new();
    for _ in 0..3 {
        state.dirty = true;
        pacer.request(1);
        assert!(pacer.publish(&mut state, &desk(true)));
    }
    assert_eq!(pacer.published.get(1).unwrap().serial, 3);
    state.cursor_dirty = false;
    pacer.forget_gone_outputs(&state);
    pacer.request(2);
    assert!(pacer.publish(&mut state, &desk(true)));
    let first = pacer.published.get(2).unwrap();
    assert_eq!((first.serial, first.damage_from), (4, None));
    assert_eq!(pacer.published.get(1).unwrap().serial, 3);
    assert!(!state.dirty && !state.cursor_dirty);
    assert!(!pacer.publish(&mut state, &desk(true)));
    assert_eq!(pacer.published.len(), 2);
    assert_eq!(pacer.next_serial, 5);
}

#[test]
fn the_cursor_alone_can_be_published() {
    let mut state = state_with_window();
    let mut pacer = FramePacer::new();
    state.dirty = false;
    state.cursor_dirty = true;
    assert!(pacer.publish(&mut state, &desk(true)));
    assert_eq!(pacer.cursor.serial, 1);
    assert_eq!(pacer.next_cursor_serial, 2);
    assert_eq!(pacer.published.len(), 0);
    assert!(!state.cursor_dirty);
}

#[test]
fn outputs_that_are_gone_are_forgotten() {
    let mut state = state_with_window();
    let mut pacer = FramePacer::new();
    state.dirty = true;
    pacer.request(1);
    pacer.request(2);
    assert!(pacer.publish(&mut state, &desk(true)));
    assert!(pacer.waiting.contains(2));
    state.out.outputs.clear();
    pacer.forget_gone_outputs(&state);
    assert_eq!(pacer.published.len(), 0);
    assert!(!pacer.waiting.contains(2));
}

const CURSOR_FILE: [u8; 128] = [
    0x58, 0x63, 0x75, 0x72, 0x10, 0x00, 0x00, 0x00, 0x00, 0x00, 0x01, 0x00, 0x01, 0x00, 0x00, 0x00, 0x02, 0x00, 0xFD,
    0xFF, 0x04, 0x00, 0x00, 0x00, 0x1C, 0x00, 0x00, 0x00, 0x24, 0x00, 0x00, 0x00, 0x02, 0x00, 0xFD, 0xFF, 0x04, 0x00,
    0x00, 0x00, 0x01, 0x00, 0x00, 0x00, 0x04, 0x00, 0x00, 0x00, 0x04, 0x00, 0x00, 0x00, 0x01, 0x00, 0x00, 0x00, 0x02,
    0x00, 0x00, 0x00, 0x01, 0x00, 0x00, 0x00, 0x11, 0x22, 0x33, 0x80, 0x00, 0x00, 0x00, 0x80, 0x00, 0x00, 0x00, 0x80,
    0x00, 0x00, 0x00, 0x80, 0x00, 0x00, 0x00, 0x80, 0x00, 0x00, 0x00, 0x80, 0x00, 0x00, 0x00, 0x80, 0x00, 0x00, 0x00,
    0x80, 0x00, 0x00, 0x00, 0x80, 0x00, 0x00, 0x00, 0x80, 0x00, 0x00, 0x00, 0x80, 0x00, 0x00, 0x00, 0x80, 0x00, 0x00,
    0x00, 0x80, 0x00, 0x00, 0x00, 0x80, 0x00, 0x00, 0x00, 0x80, 0x00, 0x00, 0x00, 0x90,
];

#[test]
fn a_cursor_file_is_read() {
    let cursor = read_cursor(&CURSOR_FILE, 24).unwrap();
    assert_eq!((cursor.width, cursor.height), (4, 4));
    assert_eq!((cursor.hotspot_x, cursor.hotspot_y), (1, 2));
    assert_eq!(cursor.pixels.len(), 16);
    assert_eq!(cursor.pixels[0], 0x8033_2211);
    assert_eq!(cursor.pixels[15], 0x9000_0000);
    assert!(read_cursor(&CURSOR_FILE[..127], 24).is_none());
    assert!(read_cursor(b"not a cursor file", 24).is_none());
}

fn image(size: u32, shade: u8) -> CursorImage {
    CursorImage { size, width: 1, height: 1, xhot: 0, yhot: 1, pixels: vec![shade, 0, 0, 0] }
}

#[test]
fn the_image_nearest_in_size_is_picked() {
    let images = vec![image(16, 1), image(32, 2), image(48, 3), image(32, 4)];
    assert_eq!(pick_cursor(&images, 24).unwrap().pixels, vec![1]);
    assert_eq!(pick_cursor(&images, 33).unwrap().pixels, vec![2]);
    assert_eq!(pick_cursor(&images, 1000).unwrap().pixels, vec![3]);
    assert!(pick_cursor(&vec![], 24).is_none());
}

#[test]
fn the_cursor_size_is_what_is_asked_for() {
    assert_eq!(cursor_size(None), 24);
    assert_eq!(cursor_size(Some("48")), 48);
    assert_eq!(cursor_size(Some("+48")), 48);
    assert_eq!(cursor_size(Some("048")), 48);
    assert_eq!(cursor_size(Some("4294967295")), u32::MAX);
    for text in ["", "+", "-1", " 48", "4x", "4294967296", "99999999999999999999"] {
        assert_eq!(cursor_size(Some(text)), 24);
    }
    assert_eq!(DEFAULT_CURSOR_NAMES, ["default", "left_ptr"]);
}
