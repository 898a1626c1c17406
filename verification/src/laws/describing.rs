//! Describing: what clients are told of outputs, frames and decorations, and how
//! the pointer, textures and cursors look.
use crate::input::frames::{FrameTarget, Presentation};
use crate::laws::composing::{fit, pictures};
use crate::laws::places::pixel_on;
use crate::laws::requests::row_end;
use crate::protocol::messages::{EventView, MessageView};
use crate::protocol::wire_utils::{ArgView, ClientMessage};
use crate::protocol::wl_output::{change_events, info_events};
use crate::scene::cursor::first_showing;
use crate::scene::images::{CachedImage, CacheView, damage_base, damage_since, fits_mapping};
use crate::scene::theme::{CursorImageView, nearest};
use crate::state::compositor_state::StateView;
use crate::state::types::{
    BufferView, LayerKind, LayerSurfaceStatePending, LayerSurfaceStateView, OutputId, OutputView,
    ShmBufferView,
};
use vstd::prelude::*;

verus! {

/// An event with no descriptors.
pub open spec fn says(m: MessageView, object_id: u32, op_code: u16, args: Seq<ArgView>) -> bool {
    m == MessageView::Event(EventView { object_id, op_code, args, fds: Seq::empty() })
}

/// Whether some events say where an output is and what modes it has, the first
/// thing first.
pub open spec fn says_layout(news: Seq<MessageView>, o: OutputView, id: u32) -> bool {
    &&& news.len() >= 1 + o.modes.len()
    &&& says(
        news[0],
        id,
        0,
        seq![
            ArgView::Int(o.geometry.x),
            ArgView::Int(o.geometry.y),
            ArgView::Int(0),
            ArgView::Int(0),
            ArgView::Int(o.geometry.subpixel),
            ArgView::Str(o.geometry.make),
            ArgView::Str(o.geometry.model),
            ArgView::Int(o.geometry.transform),
        ],
    )
    &&& forall|i: int|
        0 <= i < o.modes.len() ==> says(
            news[i + 1],
            id,
            1,
            seq![
                ArgView::Uint((#[trigger] o.modes[i]).flags),
                ArgView::Int(o.modes[i].width),
                ArgView::Int(o.modes[i].height),
                ArgView::Int(o.modes[i].refresh_mhz),
            ],
        )
}

/// A client that binds an output is told where it is, its modes, then from version
/// two on its scale in whole numbers, rounded up, from version four on its name
/// and description, and from version two on that this is all.
pub proof fn lemma_output_is_described(o: OutputView, id: u32, version: u32)
    ensures
        ({
            let news = info_events(o, id, version);
            let n = 1 + o.modes.len() as int;
            &&& says_layout(news, o, id)
            &&& version < 2 ==> news.len() == n
            &&& 2 <= version < 4 ==> news.len() == n + 2
            &&& version >= 4 ==> news.len() == n + 4
            &&& version >= 2 ==> {
                let scale = o.scale.rounded_up();
                &&& says(news[n], id, 3, seq![ArgView::Int(scale)])
                &&& says(news.last(), id, 2, Seq::empty())
            }
            &&& version >= 4 ==> {
                &&& says(news[n + 1], id, 4, seq![ArgView::Str(o.name)])
                &&& says(news[n + 2], id, 5, seq![ArgView::Str(o.description)])
            }
        }),
{
    let news = info_events(o, id, version);
    assert forall|i: int| 0 <= i < o.modes.len() implies says(
        news[i + 1],
        id,
        1,
        seq![
            ArgView::Uint((#[trigger] o.modes[i]).flags),
            ArgView::Int(o.modes[i].width),
            ArgView::Int(o.modes[i].height),
            ArgView::Int(o.modes[i].refresh_mhz),
        ],
    ) by {}
}

/// A scale told in whole numbers is the least that is no smaller than the scale.
pub proof fn lemma_told_scale_is_enough(o: OutputView)
    requires
        0 < o.scale.0 <= 0x7fff_0000,
    ensures
        o.scale.rounded_up() * 120 >= o.scale.0,
        (o.scale.rounded_up() - 1) * 120 < o.scale.0,
{
}

/// A client of an output that has changed is told where it is now and its modes,
/// and from version two on that this is all.
pub proof fn lemma_changed_output_is_described(o: OutputView, id: u32, version: u32)
    ensures
        ({
            let news = change_events(o, id, version);
            &&& says_layout(news, o, id)
            &&& version < 2 ==> news.len() == 1 + o.modes.len()
            &&& version >= 2 ==> news.len() == 2 + o.modes.len() && says(news.last(), id, 2, Seq::empty())
        }),
{
    let news = change_events(o, id, version);
    assert forall|i: int| 0 <= i < o.modes.len() implies says(
        news[i + 1],
        id,
        1,
        seq![
            ArgView::Uint((#[trigger] o.modes[i]).flags),
            ArgView::Int(o.modes[i].width),
            ArgView::Int(o.modes[i].height),
            ArgView::Int(o.modes[i].refresh_mhz),
        ],
    ) by {}
}

/// An output that presents settles the surfaces that are on it, and no others.
/// What no output shows is settled apart.
pub proof fn lemma_output_paces_what_it_shows(id: OutputId, on: Seq<OutputId>)
    ensures
        FrameTarget::Output(id).covers(on) == on.contains(id),
        FrameTarget::Offscreen.covers(on) == (on.len() == 0),
{
}

/// The number that two words make.
pub open spec fn joined(high: ArgView, low: ArgView) -> int {
    match (high, low) {
        (ArgView::Uint(h), ArgView::Uint(l)) => h * 0x1_0000_0000 + l,
        _ => -1,
    }
}

/// How a frame was presented is told in words that make up the time and the count
/// again, with the interval and a bit for each thing that is vouched for.
pub proof fn lemma_presentation_is_told_in_words(p: Presentation)
    requires
        p.tv_sec >= 0,
        0 <= p.tv_nsec < 1_000_000_000,
    ensures
        ({
            let words = p.told();
            let bit = |set: bool, n: int| if set { n } else { 0 };
            &&& words.len() == 7
            &&& joined(words[0], words[1]) == p.tv_sec
            &&& words[2] == ArgView::Uint(p.tv_nsec as u32)
            &&& words[3] == ArgView::Uint(p.refresh_ns)
            &&& joined(words[4], words[5]) == p.sequence
            &&& words[6] == ArgView::Uint(
                (bit(p.flags.vsync, 1) + bit(p.flags.hw_clock, 2) + bit(p.flags.hw_completion, 4) + bit(
                    p.flags.zero_copy,
                    8,
                )) as u32,
            )
        }),
{
    let s = p.tv_sec as int;
    let q = p.sequence as int;
    assert(0 <= s / 0x1_0000_0000 <= 0xffff_ffff);
    assert(0 <= q / 0x1_0000_0000 <= 0xffff_ffff);
}

/// A client is told that it draws its own decorations, unless the settings say
/// that the compositor does.
pub proof fn lemma_decorations_are_as_set(s: StateView, msg: ClientMessage)
    requires
        msg.op_code == 1 || msg.op_code == 2,
        s.clients.has(msg.client_id),
    ensures
        says(
            s.decoration_request(msg).clients.at(msg.client_id).outbox.last(),
            msg.object_id,
            0,
            seq![ArgView::Uint(if s.settings.client_side_decorations { 1 } else { 2 })],
        ),
{
}

/// How far a size is from the one wanted.
pub open spec fn size_off(size: u32, target: u32) -> int {
    if size < target {
        target - size
    } else {
        size - target
    }
}

/// The cursor picked from a theme is the one nearest in size to what is wanted, and
/// of several as near the first.
pub proof fn lemma_nearest_cursor_is_picked(images: Seq<CursorImageView>, target: u32, n: nat)
    requires
        0 < n <= images.len(),
        target <= i32::MAX,
        forall|i: int| 0 <= i < images.len() ==> (#[trigger] images[i]).size <= i32::MAX,
    ensures
        ({
            let best = nearest(images, target, n);
            &&& 0 <= best < n
            &&& forall|i: int|
                0 <= i < n ==> size_off(images[best].size, target) <= size_off((#[trigger] images[i]).size, target)
            &&& forall|i: int|
                0 <= i < best ==> size_off(images[best].size, target) < size_off((#[trigger] images[i]).size, target)
        }),
    decreases n,
{
    if n > 1 {
        lemma_nearest_cursor_is_picked(images, target, (n - 1) as nat);
    }
}

/// A buffer in a pool is read only if every row of it is in what is mapped.
pub proof fn lemma_readable_buffer_is_mapped(width: i32, height: i32, shm: ShmBufferView, mapped: u32, row: int)
    requires
        shm.offset >= 0,
        shm.stride >= 0,
        fits_mapping(width, height, shm, mapped),
        0 <= row < height,
    ensures
        width > 0,
        shm.stride >= 4 * width,
        0 <= row_end(shm.offset, width, shm.stride, row) <= mapped,
{
    assert(row * shm.stride <= (height - 1) * shm.stride) by (nonlinear_arith)
        requires
            0 <= row <= height - 1,
            shm.stride >= 0,
    ;
    assert(0 <= row * shm.stride) by (nonlinear_arith)
        requires
            0 <= row,
            shm.stride >= 0,
    ;
}

/// A texture says what part of it changed only if the backend has an earlier copy
/// of the same size, and what changed since is known. It says since which copy.
pub proof fn lemma_part_changed_of_what_is_held(b: BufferView, shm: ShmBufferView, previous: Option<CachedImage>)
    ensures
        damage_since(b, shm, previous).len() > 0 ==> {
            &&& previous is Some
            &&& (previous->0).width == b.width
            &&& (previous->0).height == b.height
            &&& (previous->0).serial != b.content_serial
            &&& shm.damage == Some(damage_since(b, shm, previous))
            &&& damage_base(b, previous) == Some((previous->0).serial)
        },
        previous is Some && (previous->0).width == b.width && (previous->0).height == b.height && (
        previous->0).serial != b.content_serial && shm.damage is Some ==> damage_since(b, shm, previous)
            == shm.damage->0,
{
}

proof fn lemma_first_showing(outputs: Seq<OutputView>, x: int, y: int)
    ensures
        match first_showing(outputs, x, y) {
            Some(o) => pixel_on(o, x, y) && outputs.contains(o),
            None => forall|i: int| 0 <= i < outputs.len() ==> !pixel_on(#[trigger] outputs[i], x, y),
        },
    decreases outputs.len(),
{
    if outputs.len() > 0 {
        let rest = outputs.drop_last();
        lemma_first_showing(rest, x, y);
        assert(outputs[outputs.len() - 1] == outputs.last());
        match first_showing(rest, x, y) {
            Some(o) => {
                let i = rest.index_of(o);
                assert(outputs[i] == o);
            },
            None => {
                assert forall|i: int| 0 <= i < outputs.len() - 1 implies !pixel_on(#[trigger] outputs[i], x, y) by {
                    assert(rest[i] == outputs[i]);
                }
            },
        }
    }
}

/// The pointer's picture is on the output the pointer is on, with its hotspot where
/// the pointer is. It is the one its client named, or set a surface for, or none if
/// that asked for none. Otherwise it is the theme's, or failing that the built-in
/// one.
pub proof fn lemma_cursor_is_at_the_pointer(s: StateView, cache: CacheView)
    ensures
        ({
            let c = s.input.cursor;
            let shown = s.cursor_now(cache);
            let client = (s.input.pointer_surface->0).0;
            let pointed = s.input.pointer_surface is Some;
            let shaped = pointed && s.cursors.cursor_shapes.has(client);
            let set = pointed && !shaped && s.cursors.cursor_surfaces.has(client);
            let mine = s.cursors.cursor_surfaces.at(client);
            match s.pointed_output() {
                None => {
                    &&& shown.output is None
                    &&& shown.elements.len() == 0
                    &&& forall|i: int|
                        0 <= i < s.out.outputs.len() ==> !pixel_on(#[trigger] s.out.outputs[i], c.0 as int, c.1 as int)
                },
                Some(o) => {
                    let here = (fit(c.0 - o.geometry.x), fit(c.1 - o.geometry.y));
                    &&& shown.output == Some(o.id)
                    &&& pixel_on(o, c.0 as int, c.1 as int)
                    &&& s.out.outputs.contains(o)
                    &&& set && mine is None ==> shown.elements.len() == 0
                    &&& set && mine is Some && s.surf.surfaces.has((client, (mine->0).0)) && s.surf.surfaces.at(
                        (client, (mine->0).0),
                    ).buffer_id is Some ==> shown.elements.len() <= 1 && (shown.elements.len() == 1 ==> pictures(
                        s,
                        shown.elements[0],
                        (client, (mine->0).0),
                        (fit(here.0 - (mine->0).1), fit(here.1 - (mine->0).2)),
                    ))
                    &&& shaped && s.cursors.cursor_shape_images.has(s.cursors.cursor_shapes.at(client)) ==> {
                        let image = s.cursors.cursor_shape_images.at(s.cursors.cursor_shapes.at(client));
                        &&& shown.elements.len() == 1
                        &&& shown.elements[0].dst.x == fit(here.0 - image.hotspot_x)
                        &&& shown.elements[0].dst.y == fit(here.1 - image.hotspot_y)
                    }
                    &&& !pointed && s.cursors.default_cursor is Some ==> {
                        &&& shown.elements.len() == 1
                        &&& shown.elements[0].dst.x == fit(here.0 - (s.cursors.default_cursor->0).hotspot_x)
                        &&& shown.elements[0].dst.y == fit(here.1 - (s.cursors.default_cursor->0).hotspot_y)
                    }
                    &&& !pointed && s.cursors.default_cursor is None ==> {
                        &&& shown.elements.len() == 1
                        &&& shown.elements[0].dst.x == here.0
                        &&& shown.elements[0].dst.y == here.1
                    }
                },
            }
        }),
{
    lemma_first_showing(s.out.outputs, s.input.cursor.0 as int, s.input.cursor.1 as int);
}

/// What a panel asks for waits for the commit of its surface: each request changes
/// just what it is about, and nothing of how the panel is now.
pub proof fn lemma_panel_requests_wait(s: StateView, msg: ClientMessage)
    requires
        s.layers.layer_surfaces.has((msg.client_id, msg.object_id)),
        msg.op_code <= 4 || msg.op_code == 8,
    ensures
        ({
            let key = (msg.client_id, msg.object_id);
            let (before, after) = (
                s.layers.layer_surfaces.at(key),
                s.layer_request(msg).layers.layer_surfaces.at(key),
            );
            let p = before.pending;
            &&& after == (LayerSurfaceStateView { pending: after.pending, ..before })
            &&& msg.op_code == 0 && msg.word(1) is Some && msg.word(0)->0 <= i32::MAX && msg.word(1)->0 <= i32::MAX
                ==> after.pending == (LayerSurfaceStatePending {
                size: (msg.word(0)->0 as i32, msg.word(1)->0 as i32),
                ..p
            })
            &&& msg.op_code == 1 && msg.word(0) is Some && msg.word(0)->0 <= 15 ==> after.pending == (
            LayerSurfaceStatePending { anchor: after.pending.anchor, ..p }) && after.pending.anchor.0 == msg.word(0)->0
            &&& msg.op_code == 2 && msg.number(0) is Some ==> after.pending == (LayerSurfaceStatePending {
                exclusive_zone: msg.number(0)->0,
                ..p
            })
            &&& msg.op_code == 3 && msg.number(3) is Some ==> after.pending == (LayerSurfaceStatePending {
                margin: (msg.number(0)->0, msg.number(1)->0, msg.number(2)->0, msg.number(3)->0),
                ..p
            })
            &&& msg.op_code == 4 && msg.word(0) is Some && msg.word(0)->0 <= 2 ==> after.pending == (
            LayerSurfaceStatePending { keyboard_interactivity: after.pending.keyboard_interactivity, ..p }) && (
            msg.word(0)->0 == 0 <==> after.pending.keyboard_interactivity is Never) && (msg.word(0)->0 == 1
                <==> after.pending.keyboard_interactivity is Exclusive)
            &&& msg.op_code == 8 && msg.word(0) is Some && msg.word(0)->0 <= 3 ==> after.pending == (
            LayerSurfaceStatePending {
                layer: if msg.word(0)->0 == 0 {
                    LayerKind::Background
                } else if msg.word(0)->0 == 1 {
                    LayerKind::Bottom
                } else if msg.word(0)->0 == 2 {
                    LayerKind::Top
                } else {
                    LayerKind::Overlay
                },
                ..p
            })
        }),
{
}

} // verus!
