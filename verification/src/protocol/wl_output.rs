//! `wl_output` protocol handler.
//!
//! Advertises display output properties to clients: geometry, mode,
//! scale factor, and name. Each physical output gets its own `wl_output`
//! global; clients bind each one separately.
use crate::protocol::reject_unknown_request;
use crate::protocol::messages::{
    build_message, event, Message, messages_view, MessageView, no_args, one_string,
};
use crate::protocol::wire_utils::{Arg, args_view, ArgView, ClientMessage};
use crate::state::compositor_state::{CompositorState, DisplaysView, StateView};
use crate::state::types::{ClientObjectId, Output, OutputId, OutputMode, OutputView};
use vstd::prelude::*;

verus! {

/// `geometry`
pub const OUTPUT_GEOMETRY: u16 = 0;

/// `mode`
pub const OUTPUT_MODE: u16 = 1;

/// `done`
pub const OUTPUT_DONE: u16 = 2;

/// `scale`
pub const OUTPUT_SCALE: u16 = 3;

/// `name`
pub const OUTPUT_NAME: u16 = 4;

/// `description`
pub const OUTPUT_DESCRIPTION: u16 = 5;

/// The event that says where a display is. The physical size is given as zero,
/// which is the protocol's "unknown": this compositor does not know it.
pub open spec fn geometry_event(o: OutputView, id: u32) -> MessageView {
    event(
        id,
        OUTPUT_GEOMETRY,
        seq![
            ArgView::Int(o.geometry.x),
            ArgView::Int(o.geometry.y),
            ArgView::Int(0),
            ArgView::Int(0),
            ArgView::Int(o.geometry.subpixel),
            ArgView::Str(o.geometry.make),
            ArgView::Str(o.geometry.model),
            ArgView::Int(o.geometry.transform),
        ],
    )
}

/// The event for one mode.
pub open spec fn mode_event(m: OutputMode, id: u32) -> MessageView {
    event(
        id,
        OUTPUT_MODE,
        seq![ArgView::Uint(m.flags), ArgView::Int(m.width), ArgView::Int(m.height), ArgView::Int(m.refresh_mhz)],
    )
}

/// The events for where a display is and every mode it has.
pub open spec fn layout_events(o: OutputView, id: u32) -> Seq<MessageView> {
    seq![geometry_event(o, id)] + o.modes.map_values(|m: OutputMode| mode_event(m, id))
}

/// The events that describe a display to a client that has bound it at a
/// version: the scale from version 2 on, its name and description from 4 on,
/// and from 2 on an event that says it is all told.
pub open spec fn info_events(o: OutputView, id: u32, version: u32) -> Seq<MessageView> {
    if version >= 4 {
        layout_events(o, id) + seq![
            event(id, OUTPUT_SCALE, seq![ArgView::Int(o.scale.rounded_up())]),
            event(id, OUTPUT_NAME, seq![ArgView::Str(o.name)]),
            event(id, OUTPUT_DESCRIPTION, seq![ArgView::Str(o.description)]),
            event(id, OUTPUT_DONE, Seq::empty()),
        ]
    } else if version >= 2 {
        layout_events(o, id) + seq![
            event(id, OUTPUT_SCALE, seq![ArgView::Int(o.scale.rounded_up())]),
            event(id, OUTPUT_DONE, Seq::empty()),
        ]
    } else {
        layout_events(o, id)
    }
}

/// The events that tell a client a display has changed.
pub open spec fn change_events(o: OutputView, id: u32, version: u32) -> Seq<MessageView> {
    if version >= 2 {
        layout_events(o, id) + seq![event(id, OUTPUT_DONE, Seq::empty())]
    } else {
        layout_events(o, id)
    }
}

impl StateView {
    /// With a client that has bound an output told what it is.
    pub open spec fn send_output_info(self, client_id: u32, obj_id: u32, target: OutputId) -> Self {
        match self.output(target) {
            None => self,
            Some(o) => self.tell_all(client_id, info_events(o, obj_id, self.object_version((client_id, obj_id)))),
        }
    }

    /// With some bindings of an output told it has changed.
    pub open spec fn send_changes(self, o: OutputView, bindings: Seq<ClientObjectId>) -> Self
        decreases bindings.len(),
    {
        if bindings.len() == 0 {
            self
        } else {
            let before = self.send_changes(o, bindings.drop_last());
            before.tell_all(
                bindings.last().0,
                change_events(o, bindings.last().1, self.object_version(bindings.last())),
            )
        }
    }

    /// The objects by which any client has bound an output.
    pub open spec fn bindings_of(self, output_id: OutputId) -> Seq<ClientObjectId> {
        self.out.output_bindings.keys_where(binds(output_id))
    }

    /// With every binding of the first few outputs told they have changed.
    pub open spec fn broadcast_modes(self, n: nat) -> Self
        decreases n,
    {
        if n == 0 || n > self.out.outputs.len() {
            self
        } else {
            let o = self.out.outputs[n - 1];
            self.broadcast_modes((n - 1) as nat).send_changes(o, self.bindings_of(o.id))
        }
    }

    /// Any request on an output.
    pub open spec fn output_request(self, msg: ClientMessage) -> Self {
        if msg.op_code == 0 {
            StateView {
                out: DisplaysView {
                    output_bindings: self.out.output_bindings.without((msg.client_id, msg.object_id)),
                    ..self.out
                },
                ..self
            }.unregister(msg.client_id, msg.object_id)
        } else {
            self.reject_unknown(msg, "wl_output"@)
        }
    }
}

/// A binding of an output.
pub open spec fn binds(output_id: OutputId) -> spec_fn(ClientObjectId, u32) -> bool {
    |k: ClientObjectId, id: u32| id == output_id
}

pub fn handle(state: &mut CompositorState, msg: &ClientMessage)
    ensures
        final(state)@ == old(state)@.output_request(*msg),
{
    match msg.op_code {
        0 => {
            let _ = state.out.output_bindings.remove((msg.client_id, msg.object_id));
            state.unregister(msg.client_id, msg.object_id);
        },
        _ => reject_unknown_request(state, msg, "wl_output"),
    }
}

fn geometry_message(o: &Output, id: u32) -> (r: Message)
    ensures
        r@ == geometry_event(o@, id),
{
    let args: Vec<Arg> = vec![
        Arg::Int(o.geometry.x),
        Arg::Int(o.geometry.y),
        Arg::Int(0),
        Arg::Int(0),
        Arg::Int(o.geometry.subpixel),
        Arg::Str(o.geometry.make.clone()),
        Arg::Str(o.geometry.model.clone()),
        Arg::Int(o.geometry.transform),
    ];
    proof {
        assert(args_view(args@) =~= seq![
            ArgView::Int(o@.geometry.x),
            ArgView::Int(o@.geometry.y),
            ArgView::Int(0),
            ArgView::Int(0),
            ArgView::Int(o@.geometry.subpixel),
            ArgView::Str(o@.geometry.make),
            ArgView::Str(o@.geometry.model),
            ArgView::Int(o@.geometry.transform),
        ]);
    }
    build_message(id, OUTPUT_GEOMETRY, args)
}

fn mode_message(m: OutputMode, id: u32) -> (r: Message)
    ensures
        r@ == mode_event(m, id),
{
    let args: Vec<Arg> = vec![
        Arg::Uint(m.flags),
        Arg::Int(m.width),
        Arg::Int(m.height),
        Arg::Int(m.refresh_mhz),
    ];
    proof {
        assert(args_view(args@) =~= seq![
            ArgView::Uint(m.flags),
            ArgView::Int(m.width),
            ArgView::Int(m.height),
            ArgView::Int(m.refresh_mhz),
        ]);
    }
    build_message(id, OUTPUT_MODE, args)
}

/// Queue one more message.
pub fn push_message(v: &mut Vec<Message>, m: Message)
    ensures
        messages_view(final(v)@) == messages_view(old(v)@).push(m@),
{
    v.push(m);
    proof {
        assert(messages_view(v@) =~= messages_view(old(v)@).push(m@));
    }
}

fn layout_messages(o: &Output, id: u32) -> (r: Vec<Message>)
    ensures
        messages_view(r@) == layout_events(o@, id),
{
    let mut r: Vec<Message> = Vec::new();
    push_message(&mut r, geometry_message(o, id));
    let ghost modes = o@.modes.map_values(|m: OutputMode| mode_event(m, id));
    let mut i: usize = 0;
    proof {
        assert(messages_view(r@) =~= seq![geometry_event(o@, id)] + modes.take(0));
    }
    while i < o.modes.len()
        invariant
            i <= o.modes@.len(),
            modes == o@.modes.map_values(|m: OutputMode| mode_event(m, id)),
            messages_view(r@) == seq![geometry_event(o@, id)] + modes.take(i as int),
        decreases o.modes@.len() - i,
    {
        push_message(&mut r, mode_message(o.modes[i], id));
        i += 1;
        proof {
            assert(modes.take(i as int) =~= modes.take(i - 1).push(modes[i - 1]));
            assert(messages_view(r@) =~= seq![geometry_event(o@, id)] + modes.take(i as int));
        }
    }
    proof {
        assert(modes.take(i as int) =~= modes);
    }
    r
}

fn one_number(n: i32) -> (r: Vec<Arg>)
    ensures
        args_view(r@) == seq![ArgView::Int(n)],
{
    let r: Vec<Arg> = vec![Arg::Int(n)];
    proof {
        assert(args_view(r@) =~= seq![ArgView::Int(n)]);
    }
    r
}

fn info_messages(o: &Output, id: u32, version: u32) -> (r: Vec<Message>)
    ensures
        messages_view(r@) == info_events(o@, id, version),
{
    let mut r = layout_messages(o, id);
    if version >= 2 {
        push_message(&mut r, build_message(id, OUTPUT_SCALE, one_number(o.scale.wl_output_scale())));
        if version >= 4 {
            push_message(&mut r, build_message(id, OUTPUT_NAME, one_string(o.name.clone())));
            push_message(&mut r, build_message(id, OUTPUT_DESCRIPTION, one_string(o.description.clone())));
        }
        push_message(&mut r, build_message(id, OUTPUT_DONE, no_args()));
    }
    proof {
        assert(messages_view(r@) =~= info_events(o@, id, version));
    }
    r
}

fn change_messages(o: &Output, id: u32, version: u32) -> (r: Vec<Message>)
    ensures
        messages_view(r@) == change_events(o@, id, version),
{
    let mut r = layout_messages(o, id);
    if version >= 2 {
        push_message(&mut r, build_message(id, OUTPUT_DONE, no_args()));
    }
    proof {
        assert(messages_view(r@) =~= change_events(o@, id, version));
    }
    r
}

/// Send output info events for a specific output after a client binds its `wl_output` global.
///
/// The scale is a whole number on the wire, so a fractional one is rounded up
/// and a client that cannot do better still allocates a buffer large enough.
pub fn send_output_info(state: &mut CompositorState, client_id: u32, obj_id: u32, target_id: OutputId)
    ensures
        final(state)@ == old(state)@.send_output_info(client_id, obj_id, target_id),
{
    let version = state.object_version((client_id, obj_id));
    let messages: Vec<Message> = match state.output(target_id) {
        Some(o) => info_messages(o, obj_id, version),
        None => {
            return;
        },
    };
    state.tell_all(client_id, messages);
}

/// The versions clients have bound things at depend only on what they have
/// bound, and not on what they have been told.
proof fn lemma_telling(s: StateView, client_id: u32, ms: Seq<MessageView>)
    ensures
        forall|k: ClientObjectId| #[trigger] s.tell_all(client_id, ms).object_version(k) == s.object_version(k),
        s.tell_all(client_id, ms).out == s.out,
{
}

fn send_changes(state: &mut CompositorState, index: usize, bindings: &Vec<ClientObjectId>)
    requires
        index < old(state)@.out.outputs.len(),
    ensures
        final(state)@ == old(state)@.send_changes(old(state)@.out.outputs[index as int], bindings@),
        final(state)@.out == old(state)@.out,
        forall|k: ClientObjectId| #[trigger] final(state)@.object_version(k) == old(state)@.object_version(k),
{
    let ghost o = state@.out.outputs[index as int];
    let mut i: usize = 0;
    while i < bindings.len()
        invariant
            i <= bindings@.len(),
            index < old(state)@.out.outputs.len(),
            o == old(state)@.out.outputs[index as int],
            state@.out == old(state)@.out,
            forall|k: ClientObjectId| #[trigger] state@.object_version(k) == old(state)@.object_version(k),
            state@ == old(state)@.send_changes(o, bindings@.take(i as int)),
        decreases bindings@.len() - i,
    {
        let key = bindings[i];
        proof {
            assert(bindings@.take(i + 1).drop_last() =~= bindings@.take(i as int));
            assert(state@.out.outputs[index as int] == state.out.outputs@[index as int]@);
        }
        let version = state.object_version(key);
        let messages = change_messages(&state.out.outputs[index], key.1, version);
        proof {
            lemma_telling(state@, key.0, messages_view(messages@));
        }
        state.tell_all(key.0, messages);
        i += 1;
    }
    proof {
        assert(bindings@.take(i as int) =~= bindings@);
    }
}

/// Send updated geometry + mode + done to all clients that have bound an output's `wl_output`.
pub fn broadcast_mode(state: &mut CompositorState)
    ensures
        final(state)@ == old(state)@.broadcast_modes(old(state)@.out.outputs.len()),
{
    let n: usize = state.out.outputs.len();
    let mut i: usize = 0;
    while i < n
        invariant
            i <= n,
            n == old(state)@.out.outputs.len(),
            state@.out == old(state)@.out,
            state@ == old(state)@.broadcast_modes(i as nat),
        decreases n - i,
    {
        proof {
            assert(state@.out.outputs[i as int] == state.out.outputs@[i as int]@);
        }
        let id: OutputId = state.out.outputs[i].id;
        let bindings = state.out.output_bindings.keys_where(
            |k: &ClientObjectId, o: &u32| -> (r: bool) ensures r == binds(id)(*k, o@) { *o == id },
            Ghost(binds(id)),
        );
        send_changes(state, i, &bindings);
        i += 1;
    }
}

} // verus!
