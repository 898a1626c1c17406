//! Scrolling: what the client under the pointer is told, and in what order.
use crate::protocol::messages::{Message, messages_view, MessageView, Notice, ScrollSource};
use crate::protocol::wl_output::push_message;
use crate::state::compositor_state::{CompositorState, InputsView, StateView};
use crate::state::types::{minus, to_i32};
use vstd::prelude::*;

verus! {

/// How far one axis has scrolled.
#[derive(Debug, Clone, Copy, PartialEq, Eq, Structural)]
pub struct ScrollAxis {
    /// Whether it has scrolled at all; a distance too small to state is still
    /// one
    pub moved: bool,
    /// How far, in 256ths of a pixel, as the client is to be told
    pub distance: i32,
    /// How many 120ths of a wheel detent, as the device reports it
    pub v120: i32,
}

/// A detent count, turned round if the scroll is.
pub open spec fn turned(v120: i32, reversed: bool) -> i32 {
    if reversed {
        to_i32(-v120)
    } else {
        v120
    }
}

/// What a pointer is told of one axis: the detents, before the distance they
/// explain.
pub open spec fn axis_notices(pointer: u32, time: u32, vertical: bool, a: ScrollAxis, reversed: bool) -> Seq<
    MessageView,
> {
    if a.moved {
        seq![
            MessageView::Notice(Notice::PointerAxisSteps { pointer, vertical, v120: turned(a.v120, reversed) }),
            MessageView::Notice(Notice::PointerAxis { time, pointer, vertical, distance: a.distance }),
        ]
    } else {
        Seq::empty()
    }
}

/// What a pointer is told of a scroll: the kind of scroll, the axes, and that
/// the picture is complete.
pub open spec fn scroll_notices(
    pointer: u32,
    time: u32,
    x: ScrollAxis,
    y: ScrollAxis,
    source: ScrollSource,
    reversed: bool,
) -> Seq<MessageView> {
    seq![MessageView::Notice(Notice::PointerAxisSource { pointer, source })] + axis_notices(
        pointer,
        time,
        true,
        y,
        reversed,
    ) + axis_notices(pointer, time, false, x, reversed) + seq![MessageView::Notice(Notice::PointerFrame { pointer })]
}

/// What a pointer is told of the end of a scroll on one axis.
pub open spec fn stop_notices(pointer: u32, time: u32, vertical: bool, was: bool) -> Seq<MessageView> {
    if was {
        seq![MessageView::Notice(Notice::PointerAxisStop { time, pointer, vertical })]
    } else {
        Seq::empty()
    }
}

/// What a pointer is told of the end of a scroll: only the axes that were
/// moving stop.
pub open spec fn end_notices(pointer: u32, time: u32, vertical: bool, horizontal: bool) -> Seq<MessageView> {
    seq![MessageView::Notice(Notice::PointerAxisSource { pointer, source: ScrollSource::Finger })] + stop_notices(
        pointer,
        time,
        true,
        vertical,
    ) + stop_notices(pointer, time, false, horizontal) + seq![MessageView::Notice(Notice::PointerFrame { pointer })]
}

impl StateView {
    /// Whether the settings turn a scroll round: only a touchpad's, and only
    /// if the content is not to follow the fingers.
    pub open spec fn reverses(self, source: ScrollSource) -> bool {
        source == ScrollSource::Finger && !self.settings.natural_scrolling
    }

    /// With the axes a touchpad is moving noted.
    pub open spec fn note_scrolling(self, x: bool, y: bool, source: ScrollSource) -> Self {
        if source == ScrollSource::Finger {
            StateView {
                input: InputsView {
                    scrolling_vertical: self.input.scrolling_vertical || y,
                    scrolling_horizontal: self.input.scrolling_horizontal || x,
                    ..self.input
                },
                ..self
            }
        } else {
            self
        }
    }

    /// The pointers of a client told of a scroll, for the first few pointers
    /// there are.
    pub open spec fn pointers_scrolled(
        self,
        client_id: u32,
        time: u32,
        x: ScrollAxis,
        y: ScrollAxis,
        source: ScrollSource,
        n: nat,
    ) -> Self
        decreases n,
    {
        if n == 0 || n > self.input.pointers.len() {
            self
        } else {
            let before = self.pointers_scrolled(client_id, time, x, y, source, (n - 1) as nat);
            let p = self.input.pointers[n - 1];
            if p.client_id == client_id {
                before.tell_all(client_id, scroll_notices(p.object_id, time, x, y, source, self.reverses(source)))
            } else {
                before
            }
        }
    }

    /// The pointers of a client told of the end of a scroll, for the first few
    /// pointers there are.
    pub open spec fn pointers_stopped(self, client_id: u32, time: u32, vertical: bool, horizontal: bool, n: nat) -> Self
        decreases n,
    {
        if n == 0 || n > self.input.pointers.len() {
            self
        } else {
            let before = self.pointers_stopped(client_id, time, vertical, horizontal, (n - 1) as nat);
            let p = self.input.pointers[n - 1];
            if p.client_id == client_id {
                before.tell_all(client_id, end_notices(p.object_id, time, vertical, horizontal))
            } else {
                before
            }
        }
    }

    /// With a scroll delivered to whichever client has the pointer.
    pub open spec fn deliver_scroll(self, time: u32, x: ScrollAxis, y: ScrollAxis, source: ScrollSource) -> Self {
        match self.input.pointer_surface {
            None => self,
            Some(s) => self.note_scrolling(x.moved, y.moved, source).pointers_scrolled(
                s.0,
                time,
                x,
                y,
                source,
                self.input.pointers.len(),
            ),
        }
    }

    /// With no axis moving.
    pub open spec fn forget_scrolling(self) -> Self {
        StateView {
            input: InputsView { scrolling_vertical: false, scrolling_horizontal: false, ..self.input },
            ..self
        }
    }

    /// With a touchpad scroll over, and the client that has the pointer told,
    /// if any axis was moving.
    pub open spec fn deliver_scroll_end(self, time: u32) -> Self {
        let (v, h) = (self.input.scrolling_vertical, self.input.scrolling_horizontal);
        match self.input.pointer_surface {
            Some(s) => if v || h {
                self.forget_scrolling().pointers_stopped(s.0, time, v, h, self.input.pointers.len())
            } else {
                self.forget_scrolling()
            },
            None => self.forget_scrolling(),
        }
    }
}

/// Whether a scroll is turned round before it is delivered.
pub fn scroll_reversed(state: &CompositorState, source: ScrollSource) -> (r: bool)
    ensures
        r == state@.reverses(source),
{
    source == ScrollSource::Finger && !state.settings.natural_scrolling
}

fn turn(v120: i32, reversed: bool) -> (r: i32)
    ensures
        r == turned(v120, reversed),
{
    if reversed {
        minus(0, v120)
    } else {
        v120
    }
}

fn push_axis(v: &mut Vec<Message>, pointer: u32, time: u32, vertical: bool, a: ScrollAxis, reversed: bool)
    ensures
        messages_view(final(v)@) == messages_view(old(v)@) + axis_notices(pointer, time, vertical, a, reversed),
{
    if a.moved {
        push_message(
            v,
            Message::Notice(Notice::PointerAxisSteps { pointer, vertical, v120: turn(a.v120, reversed) }),
        );
        push_message(v, Message::Notice(Notice::PointerAxis { time, pointer, vertical, distance: a.distance }));
    }
    proof {
        assert(messages_view(v@) =~= messages_view(old(v)@) + axis_notices(pointer, time, vertical, a, reversed));
    }
}

fn scroll_messages(
    pointer: u32,
    time: u32,
    x: ScrollAxis,
    y: ScrollAxis,
    source: ScrollSource,
    reversed: bool,
) -> (r: Vec<Message>)
    ensures
        messages_view(r@) == scroll_notices(pointer, time, x, y, source, reversed),
{
    let mut r: Vec<Message> = Vec::new();
    push_message(&mut r, Message::Notice(Notice::PointerAxisSource { pointer, source }));
    push_axis(&mut r, pointer, time, true, y, reversed);
    push_axis(&mut r, pointer, time, false, x, reversed);
    push_message(&mut r, Message::Notice(Notice::PointerFrame { pointer }));
    proof {
        assert(messages_view(r@) =~= scroll_notices(pointer, time, x, y, source, reversed));
    }
    r
}

fn push_stop(v: &mut Vec<Message>, pointer: u32, time: u32, vertical: bool, was: bool)
    ensures
        messages_view(final(v)@) == messages_view(old(v)@) + stop_notices(pointer, time, vertical, was),
{
    if was {
        push_message(v, Message::Notice(Notice::PointerAxisStop { time, pointer, vertical }));
    }
    proof {
        assert(messages_view(v@) =~= messages_view(old(v)@) + stop_notices(pointer, time, vertical, was));
    }
}

fn end_messages(pointer: u32, time: u32, vertical: bool, horizontal: bool) -> (r: Vec<Message>)
    ensures
        messages_view(r@) == end_notices(pointer, time, vertical, horizontal),
{
    let mut r: Vec<Message> = Vec::new();
    push_message(
        &mut r,
        Message::Notice(Notice::PointerAxisSource { pointer, source: ScrollSource::Finger }),
    );
    push_stop(&mut r, pointer, time, true, vertical);
    push_stop(&mut r, pointer, time, false, horizontal);
    push_message(&mut r, Message::Notice(Notice::PointerFrame { pointer }));
    proof {
        assert(messages_view(r@) =~= end_notices(pointer, time, vertical, horizontal));
    }
    r
}

fn tell_scrolled(
    state: &mut CompositorState,
    client_id: u32,
    time: u32,
    x: ScrollAxis,
    y: ScrollAxis,
    source: ScrollSource,
)
    ensures
        final(state)@ == old(state)@.pointers_scrolled(client_id, time, x, y, source, old(state)@.input.pointers.len()),
{
    let n: usize = state.input.pointers.len();
    let reversed = scroll_reversed(state, source);
    let mut i: usize = 0;
    while i < n
        invariant
            i <= n,
            n == old(state)@.input.pointers.len(),
            reversed == old(state)@.reverses(source),
            state@.input.pointers == old(state)@.input.pointers,
            state@ == old(state)@.pointers_scrolled(client_id, time, x, y, source, i as nat),
        decreases n - i,
    {
        let p = state.input.pointers[i];
        if p.client_id == client_id {
            let msgs = scroll_messages(p.object_id, time, x, y, source, reversed);
            state.tell_all(client_id, msgs);
        }
        i += 1;
    }
}

fn tell_stopped(state: &mut CompositorState, client_id: u32, time: u32, vertical: bool, horizontal: bool)
    ensures
        final(state)@ == old(state)@.pointers_stopped(
            client_id,
            time,
            vertical,
            horizontal,
            old(state)@.input.pointers.len(),
        ),
{
    let n: usize = state.input.pointers.len();
    let mut i: usize = 0;
    while i < n
        invariant
            i <= n,
            n == old(state)@.input.pointers.len(),
            state@.input.pointers == old(state)@.input.pointers,
            state@ == old(state)@.pointers_stopped(client_id, time, vertical, horizontal, i as nat),
        decreases n - i,
    {
        let p = state.input.pointers[i];
        if p.client_id == client_id {
            let msgs = end_messages(p.object_id, time, vertical, horizontal);
            state.tell_all(client_id, msgs);
        }
        i += 1;
    }
}

/// Deliver a scroll to whichever client has the pointer.
///
/// The order within the frame is the protocol's and is not arbitrary: the
/// source first, so a client knows what kind of scroll it is about to be told
/// about; then the detent count for an axis, before the distance it explains;
/// then the distance; then the frame that says the picture is complete.
pub fn deliver_scroll(state: &mut CompositorState, time_ms: u32, x: ScrollAxis, y: ScrollAxis, source: ScrollSource)
    ensures
        final(state)@ == old(state)@.deliver_scroll(time_ms, x, y, source),
{
    let client_id: u32 = match state.input.pointer_surface {
        Some(s) => s.0,
        None => {
            return;
        },
    };
    if source == ScrollSource::Finger {
        state.input.scrolling_vertical = state.input.scrolling_vertical || y.moved;
        state.input.scrolling_horizontal = state.input.scrolling_horizontal || x.moved;
    }
    tell_scrolled(state, client_id, time_ms, x, y, source);
}

/// Tell the client a touchpad scroll has finished.
///
/// Only the axes that were actually moving are stopped: an `axis_stop` for an
/// axis that never scrolled is a statement about something that never happened.
pub fn deliver_scroll_end(state: &mut CompositorState, time_ms: u32)
    ensures
        final(state)@ == old(state)@.deliver_scroll_end(time_ms),
{
    let (vertical, horizontal): (bool, bool) = (state.input.scrolling_vertical, state.input.scrolling_horizontal);
    state.input.scrolling_vertical = false;
    state.input.scrolling_horizontal = false;
    if !vertical && !horizontal {
        return;
    }
    if let Some(s) = state.input.pointer_surface {
        tell_stopped(state, s.0, time_ms, vertical, horizontal);
    }
}

} // verus!
