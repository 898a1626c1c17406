//! `wp_cursor_shape_device_v1` protocol handler.
//!
//! Lets a client name a cursor - "text", "grab", "ne-resize" - instead of
//! drawing one and attaching it as a surface. The shape numbers here are the
//! protocol's, and the names they map to are X11's, because that is what an
//! xcursor theme on disk contains.
use crate::protocol::{reject_malformed_request, reject_unknown_request};
use crate::protocol::wire_utils::ClientMessage;
use crate::state::compositor_state::{CompositorState, cursor_view, CursorsView, StateView};
use crate::state::types::{DefaultCursor, DefaultCursorView};
use crate::text::{decimal, with_number};
use vstd::prelude::*;
use vstd::string::*;

verus! {

pub const SHAPE_DEVICE_INTERFACE: &'static str = "wp_cursor_shape_device_v1";

/// `wp_cursor_shape_device_v1.error.invalid_shape`.
pub const ERROR_INVALID_SHAPE: u32 = 1;

/// How many shapes this version of the interface has.
pub const SHAPES: u32 = 34;

/// The xcursor names for each shape, in protocol order from 1.
///
/// Each entry is a list because themes disagree about what a cursor is called.
/// They are tried in order, so a theme with either kind works and a theme with
/// both gets the newer one.
pub open spec fn shape_names(shape: u32) -> Option<Seq<Seq<char>>> {
    match shape {
        1 => Some(seq!["default"@, "left_ptr"@]),
        2 => Some(seq!["context-menu"@, "left_ptr"@]),
        3 => Some(seq!["help"@, "question_arrow"@, "left_ptr"@]),
        4 => Some(seq!["pointer"@, "hand2"@, "hand1"@]),
        5 => Some(seq!["progress"@, "left_ptr_watch"@, "watch"@]),
        6 => Some(seq!["wait"@, "watch"@]),
        7 => Some(seq!["cell"@, "plus"@, "crosshair"@]),
        8 => Some(seq!["crosshair"@, "cross"@]),
        9 => Some(seq!["text"@, "xterm"@]),
        10 => Some(seq!["vertical-text"@]),
        11 => Some(seq!["alias"@, "dnd-link"@]),
        12 => Some(seq!["copy"@, "dnd-copy"@]),
        13 => Some(seq!["move"@, "dnd-move"@]),
        14 => Some(seq!["no-drop"@, "dnd-none"@]),
        15 => Some(seq!["not-allowed"@, "crossed_circle"@]),
        16 => Some(seq!["grab"@, "openhand"@, "hand1"@]),
        17 => Some(seq!["grabbing"@, "closedhand"@, "dnd-none"@]),
        18 => Some(seq!["e-resize"@, "right_side"@, "sb_h_double_arrow"@]),
        19 => Some(seq!["n-resize"@, "top_side"@, "sb_v_double_arrow"@]),
        20 => Some(seq!["ne-resize"@, "top_right_corner"@]),
        21 => Some(seq!["nw-resize"@, "top_left_corner"@]),
        22 => Some(seq!["s-resize"@, "bottom_side"@, "sb_v_double_arrow"@]),
        23 => Some(seq!["se-resize"@, "bottom_right_corner"@]),
        24 => Some(seq!["sw-resize"@, "bottom_left_corner"@]),
        25 => Some(seq!["w-resize"@, "left_side"@, "sb_h_double_arrow"@]),
        26 => Some(seq!["ew-resize"@, "sb_h_double_arrow"@]),
        27 => Some(seq!["ns-resize"@, "sb_v_double_arrow"@]),
        28 => Some(seq!["nesw-resize"@, "fd_double_arrow"@]),
        29 => Some(seq!["nwse-resize"@, "bd_double_arrow"@]),
        30 => Some(seq!["col-resize"@, "sb_h_double_arrow"@]),
        31 => Some(seq!["row-resize"@, "sb_v_double_arrow"@]),
        32 => Some(seq!["all-scroll"@, "fleur"@]),
        33 => Some(seq!["zoom-in"@]),
        34 => Some(seq!["zoom-out"@]),
        _ => None,
    }
}

/// What a list of names says.
pub open spec fn names_view(v: Seq<&'static str>) -> Seq<Seq<char>> {
    v.map_values(|s: &'static str| s@)
}

/// The names to try for a shape, or `None` if the shape is not one this version
/// defines. Shape numbering starts at 1; zero is not a shape.
pub fn names_for(shape: u32) -> (r: Option<Vec<&'static str>>)
    ensures
        match r {
            Some(v) => shape_names(shape) == Some(names_view(v@)),
            None => shape_names(shape) is None,
        },
        r is Some <==> 1 <= shape <= SHAPES,
{
    let v: Vec<&'static str> = match shape {
        1 => vec!["default", "left_ptr"],
        2 => vec!["context-menu", "left_ptr"],
        3 => vec!["help", "question_arrow", "left_ptr"],
        4 => vec!["pointer", "hand2", "hand1"],
        5 => vec!["progress", "left_ptr_watch", "watch"],
        6 => vec!["wait", "watch"],
        7 => vec!["cell", "plus", "crosshair"],
        8 => vec!["crosshair", "cross"],
        9 => vec!["text", "xterm"],
        10 => vec!["vertical-text"],
        11 => vec!["alias", "dnd-link"],
        12 => vec!["copy", "dnd-copy"],
        13 => vec!["move", "dnd-move"],
        14 => vec!["no-drop", "dnd-none"],
        15 => vec!["not-allowed", "crossed_circle"],
        16 => vec!["grab", "openhand", "hand1"],
        17 => vec!["grabbing", "closedhand", "dnd-none"],
        18 => vec!["e-resize", "right_side", "sb_h_double_arrow"],
        19 => vec!["n-resize", "top_side", "sb_v_double_arrow"],
        20 => vec!["ne-resize", "top_right_corner"],
        21 => vec!["nw-resize", "top_left_corner"],
        22 => vec!["s-resize", "bottom_side", "sb_v_double_arrow"],
        23 => vec!["se-resize", "bottom_right_corner"],
        24 => vec!["sw-resize", "bottom_left_corner"],
        25 => vec!["w-resize", "left_side", "sb_h_double_arrow"],
        26 => vec!["ew-resize", "sb_h_double_arrow"],
        27 => vec!["ns-resize", "sb_v_double_arrow"],
        28 => vec!["nesw-resize", "fd_double_arrow"],
        29 => vec!["nwse-resize", "bd_double_arrow"],
        30 => vec!["col-resize", "sb_h_double_arrow"],
        31 => vec!["row-resize", "sb_v_double_arrow"],
        32 => vec!["all-scroll", "fleur"],
        33 => vec!["zoom-in"],
        34 => vec!["zoom-out"],
        _ => {
            return None;
        },
    };
    proof {
        assert(names_view(v@) =~= shape_names(shape)->0);
    }
    Some(v)
}

/// A shape a client has named, which is to be shown once there is an image of
/// it.
#[derive(Debug, Clone, Copy, PartialEq, Eq, Structural)]
pub struct ShapeRequest {
    pub client_id: u32,
    pub shape: u32,
}

impl StateView {
    /// Whether a serial is that of the enter a client is answering.
    pub open spec fn current_enter(self, client_id: u32, serial: u32) -> bool {
        self.input.pointer_enter_serial.has(client_id) && self.input.pointer_enter_serial.at(client_id) == serial
    }

    /// The shape a `set_shape` asks to be shown: one there is, named in answer
    /// to the current enter.
    pub open spec fn shape_asked(self, msg: ClientMessage) -> Option<ShapeRequest> {
        match (msg.word(0), msg.word(1)) {
            (Some(serial), Some(shape)) => if shape_names(shape) is Some && self.current_enter(msg.client_id, serial) {
                Some(ShapeRequest { client_id: msg.client_id, shape })
            } else {
                None
            },
            _ => None,
        }
    }

    /// After a `set_shape` as far as it can be answered without an image. A
    /// stale serial is ignored, and a shape that is none is an error.
    pub open spec fn shape_checked(self, msg: ClientMessage) -> Self {
        match (msg.word(0), msg.word(1)) {
            (Some(_), Some(shape)) => if shape_names(shape) is None {
                self.fail(
                    msg.client_id,
                    msg.object_id,
                    ERROR_INVALID_SHAPE,
                    "wp_cursor_shape_device_v1.set_shape: "@ + decimal(shape as int) + " is not a shape"@,
                )
            } else {
                self
            },
            _ => self.reject_malformed(msg, SHAPE_DEVICE_INTERFACE@),
        }
    }

    /// With the image of a shape kept, if one was loaded and none was there.
    pub open spec fn keep_shape_image(self, shape: u32, image: Option<DefaultCursorView>) -> Self {
        match image {
            Some(i) => if self.cursors.cursor_shape_images.has(shape) {
                self
            } else {
                StateView {
                    cursors: CursorsView {
                        cursor_shape_images: self.cursors.cursor_shape_images.put(shape, i),
                        ..self.cursors
                    },
                    ..self
                }
            },
            None => self,
        }
    }

    /// With a shape shown for a client, in place of any cursor surface.
    pub open spec fn show_shape(self, q: ShapeRequest) -> Self {
        StateView {
            cursors: CursorsView {
                cursor_surfaces: self.cursors.cursor_surfaces.without(q.client_id),
                cursor_shapes: self.cursors.cursor_shapes.put(q.client_id, q.shape),
                ..self.cursors
            },
            cursor_dirty: true,
            ..self
        }
    }

    /// With a named shape shown, if there is an image of it: one kept, or the
    /// one that was loaded. A theme without this shape leaves the cursor as it
    /// was.
    pub open spec fn finish_shape(self, q: ShapeRequest, image: Option<DefaultCursorView>) -> Self {
        let kept = self.keep_shape_image(q.shape, image);
        if kept.cursors.cursor_shape_images.has(q.shape) {
            kept.show_shape(q)
        } else {
            kept
        }
    }

    /// Any request on a cursor shape device but one for a shape.
    pub open spec fn shape_device_request(self, msg: ClientMessage) -> Self {
        if msg.op_code == 0 {
            self.unregister(msg.client_id, msg.object_id)
        } else {
            self.reject_unknown(msg, SHAPE_DEVICE_INTERFACE@)
        }
    }
}

/// Look at a request to show a shape: whether it is in order, and what is to be
/// shown.
///
/// The serial must be that of the enter the client is answering. A stale one is
/// ignored rather than refused: the client has lost a race it could not see.
pub fn start_set_shape(state: &mut CompositorState, msg: &ClientMessage) -> (r: Option<ShapeRequest>)
    ensures
        r == old(state)@.shape_asked(*msg),
        final(state)@ == old(state)@.shape_checked(*msg),
{
    let (serial, shape): (u32, u32) = match (msg.unsigned(0), msg.unsigned(1)) {
        (Some(serial), Some(shape)) => (serial, shape),
        _ => {
            reject_malformed_request(state, msg, SHAPE_DEVICE_INTERFACE);
            return None;
        },
    };
    if names_for(shape).is_none() {
        let text = with_number("wp_cursor_shape_device_v1.set_shape: ", shape as i64, " is not a shape");
        state.fail(msg.client_id, msg.object_id, ERROR_INVALID_SHAPE, text);
        return None;
    }
    let current: bool = match state.input.pointer_enter_serial.get(msg.client_id) {
        Some(s) => *s == serial,
        None => false,
    };
    if current {
        Some(ShapeRequest { client_id: msg.client_id, shape })
    } else {
        None
    }
}

impl CompositorState {
    /// Keep the image that was loaded for a shape, if one was and none is kept
    /// already. Returns whether there is an image of it to show.
    pub fn ensure_cursor_shape(&mut self, shape: u32, image: Option<DefaultCursor>) -> (r: bool)
        ensures
            final(self)@ == old(self)@.keep_shape_image(shape, cursor_view(image)),
            r == final(self)@.cursors.cursor_shape_images.has(shape),
    {
        if let Some(i) = image {
            if !self.cursors.cursor_shape_images.contains(shape) {
                self.cursors.cursor_shape_images.insert(shape, i);
            }
        }
        self.cursors.cursor_shape_images.contains(shape)
    }
}

fn show_shape(state: &mut CompositorState, q: &ShapeRequest)
    ensures
        final(state)@ == old(state)@.show_shape(*q),
{
    let _ = state.cursors.cursor_surfaces.remove(q.client_id);
    state.cursors.cursor_shapes.insert(q.client_id, q.shape);
    state.cursor_dirty = true;
}

/// Whether there is an image of a shape already, so that none need be loaded.
pub fn has_shape_image(state: &CompositorState, shape: u32) -> (r: bool)
    ensures
        r == state@.cursors.cursor_shape_images.has(shape),
{
    state.cursors.cursor_shape_images.contains(shape)
}

/// Show a named shape, given the image that was loaded for it if one was
/// needed and the theme has one. Each shape is loaded once and kept.
///
/// Naming a shape and attaching a surface are the same choice made twice, so
/// the later one wins outright.
pub fn finish_set_shape(state: &mut CompositorState, q: &ShapeRequest, image: Option<DefaultCursor>)
    ensures
        final(state)@ == old(state)@.finish_shape(*q, cursor_view(image)),
{
    if state.ensure_cursor_shape(q.shape, image) {
        show_shape(state, q);
    }
}

/// Handle any request. A shape that is to be shown is returned, for its image
/// to be loaded and [`finish_set_shape`] to be told.
pub fn handle(state: &mut CompositorState, msg: &ClientMessage) -> (r: Option<ShapeRequest>)
    ensures
        msg.op_code != 1 ==> r is None && final(state)@ == old(state)@.shape_device_request(*msg),
        msg.op_code == 1 ==> r == old(state)@.shape_asked(*msg) && final(state)@ == old(state)@.shape_checked(*msg),
{
    match msg.op_code {
        0 => state.unregister(msg.client_id, msg.object_id),
        1 => {
            return start_set_shape(state, msg);
        },
        _ => reject_unknown_request(state, msg, SHAPE_DEVICE_INTERFACE),
    }
    None
}

} // verus!
