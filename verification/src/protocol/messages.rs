//! What goes out to a client.
//!
//! Nothing here touches a socket. What the compositor has to say to a client
//! is queued on that client in order, and whoever owns the socket takes the
//! queue and sends it. A [`Message::Event`] is a finished event. A
//! [`Message::Notice`] says what is to be told where telling it takes
//! something this crate does not hold: a fractional position, the keymap, the
//! backend's formats.
use crate::protocol::wire_utils::{Arg, args_view, ArgView};
use vstd::prelude::*;

verus! {

/// An event on its way to a client.
pub struct Event {
    /// The object the event concerns
    pub object_id: u32,
    /// The op code (event) being sent
    pub op_code: u16,
    /// Arguments to the event
    pub args: Vec<Arg>,
    /// Descriptors to attach as ancillary data
    pub fds: Vec<i32>,
}

/// What an event says.
#[verifier::ext_equal]
pub struct EventView {
    pub object_id: u32,
    pub op_code: u16,
    pub args: Seq<ArgView>,
    pub fds: Seq<i32>,
}

impl View for Event {
    type V = EventView;

    open spec fn view(&self) -> EventView {
        EventView { object_id: self.object_id, op_code: self.op_code, args: args_view(self.args@), fds: self.fds@ }
    }
}

/// How a scroll was made.
#[derive(Debug, Clone, Copy, PartialEq, Eq, Structural)]
pub enum ScrollSource {
    /// A wheel with detents
    Wheel,
    /// Fingers on a touchpad
    Finger,
    /// A continuous device with no notion of lifting off
    Continuous,
}

/// Something to tell a client, for the sender to put into an event.
///
/// Positions are where the surface sits in global coordinates; the sender
/// takes them from the pointer's or finger's own position to get a local one.
#[derive(Debug, Clone, Copy, PartialEq, Eq, Structural)]
pub enum Notice {
    PointerEnter { serial: u32, pointer: u32, surface: u32, x: i32, y: i32 },
    PointerLeave { serial: u32, pointer: u32, surface: u32 },
    PointerMotion { time: u32, pointer: u32, x: i32, y: i32 },
    PointerButton { serial: u32, time: u32, pointer: u32, button: u32, pressed: bool },
    PointerFrame { pointer: u32 },
    PointerAxisSource { pointer: u32, source: ScrollSource },
    PointerAxisSteps { pointer: u32, vertical: bool, v120: i32 },
    /// A scroll distance, in 256ths of a pixel
    PointerAxis { time: u32, pointer: u32, vertical: bool, distance: i32 },
    PointerAxisStop { time: u32, pointer: u32, vertical: bool },
    KeyboardEnter { serial: u32, keyboard: u32, surface: u32 },
    KeyboardLeave { serial: u32, keyboard: u32, surface: u32 },
    KeyboardModifiers { serial: u32, keyboard: u32 },
    KeyboardKey { serial: u32, time: u32, keyboard: u32, key: u32, pressed: bool },
    TouchDown { serial: u32, time: u32, touch: u32, surface: u32, id: i32, x: i32, y: i32 },
    TouchMotion { time: u32, touch: u32, id: i32, x: i32, y: i32 },
    TouchUp { serial: u32, time: u32, touch: u32, id: i32 },
    TouchFrame { touch: u32 },
    TouchCancel { touch: u32 },
    ToplevelConfigure { toplevel: u32, width: i32, height: i32 },
    ToplevelCapabilities { toplevel: u32 },
    ToplevelActivated { surface: u32, activated: bool },
    ToplevelResize { toplevel: u32, width: i32, height: i32, resizing: bool },
    PopupConfigure { popup: u32, x: i32, y: i32, width: i32, height: i32 },
    PopupDone { popup: u32 },
    /// The clipboard, on every data device the client holds.
    Clipboard,
    DeviceOffer { device: u32, offer: u32 },
    DragEnter { serial: u32, device: u32, surface: u32, x: i32, y: i32, offer: Option<u32> },
    DragLeave { device: u32 },
    DragMotion { time: u32, device: u32, x: i32, y: i32 },
    DragDrop { device: u32 },
    OfferAction { offer: u32, action: u32 },
    OfferSourceActions { offer: u32, actions: u32 },
    /// The target of this offer no longer accepts anything.
    AcceptanceCleared { offer: u32 },
    SourceAction { source: u32, action: u32 },
    SourceCancelled { source: u32 },
    SourceDropPerformed { source: u32 },
    SeatCapabilities { seat: u32 },
    ShmFormats { shm: u32 },
    PresentationClock { presentation: u32 },
    DmabufFormats { dmabuf: u32 },
}

/// One thing queued for a client.
pub enum Message {
    /// A finished event
    Event(Event),
    /// Something for the sender to put into an event
    Notice(Notice),
    /// Hand a `wl_data_source` the descriptor a receiver reads from
    Transfer { source: u32, mime_type: String, fd: i32 },
}

/// What a queued message says.
#[verifier::ext_equal]
pub enum MessageView {
    Event(EventView),
    Notice(Notice),
    Transfer { source: u32, mime_type: Seq<char>, fd: i32 },
}

impl View for Message {
    type V = MessageView;

    open spec fn view(&self) -> MessageView {
        match self {
            Message::Event(e) => MessageView::Event(e@),
            Message::Notice(n) => MessageView::Notice(*n),
            Message::Transfer { source, mime_type, fd } => MessageView::Transfer {
                source: *source,
                mime_type: mime_type@,
                fd: *fd,
            },
        }
    }
}

/// What queued messages say.
pub open spec fn messages_view(s: Seq<Message>) -> Seq<MessageView> {
    s.map_values(|m: Message| m@)
}

/// An event with no descriptors.
pub open spec fn event(object_id: u32, op_code: u16, args: Seq<ArgView>) -> MessageView {
    MessageView::Event(EventView { object_id, op_code, args, fds: Seq::empty() })
}

/// Build an event with no descriptors.
pub fn build_message(object_id: u32, op_code: u16, args: Vec<Arg>) -> (r: Message)
    ensures
        r@ == event(object_id, op_code, args_view(args@)),
{
    let r = Message::Event(Event { object_id, op_code, args, fds: Vec::new() });
    proof {
        assert(r@->Event_0.fds =~= Seq::<i32>::empty());
    }
    r
}

/// Build an event that carries one descriptor.
pub fn build_message_with_fd(object_id: u32, op_code: u16, args: Vec<Arg>, fd: i32) -> (r: Message)
    ensures
        r@ == MessageView::Event(EventView { object_id, op_code, args: args_view(args@), fds: seq![fd] }),
{
    let mut fds: Vec<i32> = Vec::new();
    fds.push(fd);
    proof {
        assert(fds@ =~= seq![fd]);
    }
    Message::Event(Event { object_id, op_code, args, fds })
}

/// No arguments.
pub fn no_args() -> (r: Vec<Arg>)
    ensures
        args_view(r@) == Seq::<ArgView>::empty(),
{
    let r: Vec<Arg> = Vec::new();
    proof {
        assert(args_view(r@) =~= Seq::<ArgView>::empty());
    }
    r
}

/// One unsigned argument.
pub fn one_arg(n: u32) -> (r: Vec<Arg>)
    ensures
        args_view(r@) == seq![ArgView::Uint(n)],
{
    let r: Vec<Arg> = vec![Arg::Uint(n)];
    proof {
        assert(args_view(r@) =~= seq![ArgView::Uint(n)]);
    }
    r
}

/// One string argument.
pub fn one_string(s: String) -> (r: Vec<Arg>)
    ensures
        args_view(r@) == seq![ArgView::Str(s@)],
{
    let r: Vec<Arg> = vec![Arg::Str(s)];
    proof {
        assert(args_view(r@) =~= seq![ArgView::Str(s@)]);
    }
    r
}

} // verus!
