//! What the backend says of its outputs, its devices and its imports.
use crate::protocol::ObjectType;
use crate::protocol::messages::{event, Message, messages_view, MessageView, Notice};
use crate::protocol::wl_output::{broadcast_mode, push_message};
use crate::protocol::wl_registry::{
    broadcast_global, broadcast_global_remove, dmabuf_global, DMABUF_INTERFACE, DMABUF_VERSION,
    output_global, WL_OUTPUT_INTERFACE, WL_OUTPUT_VERSION,
};
use crate::seqs::{back_to_front, position};
use crate::state::client_state::{ClientState, ClientView};
use crate::state::compositor_state::{CompositorState, DisplaysView, InputsView, StateView};
use crate::state::panels::{LAYER_CLOSED, layer_on, resettle, send_closed};
use crate::state::types::{
    ClientObjectId, Hook, LayerSurfaceState, Output, OutputId, outputs_view, OutputView,
    SeatState,
};
use vstd::prelude::*;

verus! {

/// The number of a global after another. Numbers go round.
pub open spec fn name_after(n: u32) -> u32 {
    if n == u32::MAX {
        0
    } else {
        (n + 1) as u32
    }
}

/// Where an output of an id is first among some.
pub open spec fn output_index(outputs: Seq<OutputView>, id: OutputId) -> Option<int>
    decreases outputs.len(),
{
    if outputs.len() == 0 {
        None
    } else {
        match output_index(outputs.drop_last(), id) {
            Some(i) => Some(i),
            None => if outputs.last().id == id {
                Some(outputs.len() - 1)
            } else {
                None
            },
        }
    }
}

/// An output as it is now said to be. Its name stays.
pub open spec fn output_updated(o: OutputView, new: OutputView) -> OutputView {
    OutputView { id: o.id, name: o.name, ..new }
}

/// Whether an output is among some.
pub open spec fn lists(outputs: Seq<OutputView>, id: OutputId) -> bool {
    exists|i: int| 0 <= i < outputs.len() && (#[trigger] outputs[i]).id == id
}

/// The ids among some outputs that are not among others.
pub open spec fn missing(outputs: Seq<OutputView>, listed: Seq<OutputView>) -> Seq<OutputId>
    decreases outputs.len(),
{
    if outputs.len() == 0 {
        Seq::empty()
    } else {
        let before = missing(outputs.drop_last(), listed);
        if lists(listed, outputs.last().id) {
            before
        } else {
            before.push(outputs.last().id)
        }
    }
}

/// A client's seat objects.
pub open spec fn is_seat() -> spec_fn(u32, ObjectType) -> bool {
    |id: u32, t: ObjectType| t == ObjectType::WlSeat
}

/// What a client's seats are told when what devices there are changes.
pub open spec fn capability_notices(c: ClientView) -> Seq<MessageView> {
    c.objects.keys_where(is_seat()).map_values(
        |id: u32| MessageView::Notice(Notice::SeatCapabilities { seat: id }),
    )
}

/// A client whose seats have been told what devices there are.
pub open spec fn told_capabilities() -> spec_fn(u32, ClientView) -> ClientView {
    |id: u32, c: ClientView| ClientView { outbox: c.outbox + capability_notices(c), ..c }
}

impl StateView {
    /// With a global's number handed out.
    pub open spec fn name_taken(self) -> Self {
        StateView { out: DisplaysView { next_global_number: name_after(self.out.next_global_number), ..self.out }, ..self }
    }

    /// An output with the scale the settings insist on, if they do.
    pub open spec fn rescaled_output(self, o: OutputView) -> OutputView {
        match self.settings.output_scale {
            Some(scale) => OutputView { scale, ..o },
            None => o,
        }
    }

    /// With an output added and announced.
    pub open spec fn add_output(self, o: OutputView) -> Self {
        let name = self.out.next_global_number;
        let named = self.name_taken();
        StateView {
            out: DisplaysView {
                output_global_names: named.out.output_global_names.put(o.id, name),
                outputs: named.out.outputs.push(o),
                ..named.out
            },
            ..named
        }.broadcast_global(name, output_global())
    }

    /// With an output as the backend describes it: the one known under its id
    /// changed, and the panels on it told, or a new one added and announced.
    pub open spec fn upsert_output(self, o: OutputView) -> Self {
        let o = self.rescaled_output(o);
        match output_index(self.out.outputs, o.id) {
            Some(i) => StateView {
                out: DisplaysView {
                    outputs: self.out.outputs.update(i, output_updated(self.out.outputs[i], o)),
                    ..self.out
                },
                ..self
            }.resettle(Some(o.id)),
            None => self.add_output(o),
        }
    }

    /// With several outputs as the backend describes them.
    pub open spec fn upsert_each(self, outputs: Seq<OutputView>) -> Self
        decreases outputs.len(),
    {
        if outputs.len() == 0 {
            self
        } else {
            self.upsert_each(outputs.drop_last()).upsert_output(outputs.last())
        }
    }

    /// With layer surfaces told they are closed.
    pub open spec fn close_each(self, keys: Seq<ClientObjectId>) -> Self
        decreases keys.len(),
    {
        if keys.len() == 0 {
            self
        } else {
            self.close_each(keys.drop_last()).tell(
                keys.last().0,
                event(keys.last().1, LAYER_CLOSED, Seq::empty()),
            )
        }
    }

    /// With an output gone: the layer surfaces on it closed, and its global
    /// withdrawn.
    pub open spec fn retire_output(self, id: OutputId) -> Self {
        let gone = self.close_each(self.layers.layer_surfaces.keys_where(layer_on(id))).remove_output(id);
        match self.out.output_global_names.get(id) {
            Some(name) => gone.broadcast_global_remove(name),
            None => gone,
        }
    }

    /// With several outputs gone.
    pub open spec fn retire_each(self, ids: Seq<OutputId>) -> Self
        decreases ids.len(),
    {
        if ids.len() == 0 {
            self
        } else {
            self.retire_each(ids.drop_last()).retire_output(ids.last())
        }
    }

    /// With exactly the outputs that the backend lists.
    pub open spec fn outputs_listed(self, listed: Seq<OutputView>) -> Self {
        let updated = self.upsert_each(listed);
        updated.retire_each(missing(updated.out.outputs, listed)).hook(Hook::OutputsChanged)
    }

    /// With an output that has appeared.
    pub open spec fn output_added(self, o: OutputView) -> Self {
        self.upsert_output(o).hook(Hook::OutputsChanged).dirtied()
    }

    /// With an output that has left.
    pub open spec fn output_removed(self, id: OutputId) -> Self {
        self.retire_output(id).hook(Hook::OutputsChanged).dirtied()
    }

    /// With every binding of every output told how it is.
    pub open spec fn finish_output_changed(self) -> Self {
        self.broadcast_modes(self.out.outputs.len()).dirtied()
    }

    /// With the devices there are, and every seat told if that is new.
    pub open spec fn seat_capabilities(self, seat: SeatState) -> Self {
        let set = StateView { input: InputsView { seat, ..self.input }, ..self };
        if seat == self.input.seat {
            set
        } else {
            StateView { clients: set.clients.each(told_capabilities()), ..set }
        }
    }

    /// With dma-buf imports announced, if there is any format to import and
    /// they have not been.
    pub open spec fn dmabuf_support(self, any_format: bool) -> Self {
        if any_format && self.out.dmabuf_global_name is None {
            let name = self.out.next_global_number;
            let named = self.name_taken();
            StateView { out: DisplaysView { dmabuf_global_name: Some(name), ..named.out }, ..named }.broadcast_global(
                name,
                dmabuf_global(),
            )
        } else {
            self
        }
    }
}

fn take_name(state: &mut CompositorState) -> (r: u32)
    ensures
        r == old(state)@.out.next_global_number,
        final(state)@ == old(state)@.name_taken(),
{
    let name: u32 = state.out.next_global_number;
    state.out.next_global_number = if name == u32::MAX {
        0
    } else {
        name + 1
    };
    name
}

fn index_of_output(outputs: &Vec<Output>, id: OutputId) -> (r: Option<usize>)
    ensures
        match r {
            Some(i) => i < outputs@.len() && output_index(outputs_view(outputs@), id) == Some(i as int),
            None => output_index(outputs_view(outputs@), id) is None,
        },
{
    let ghost all = outputs_view(outputs@);
    let mut found: Option<usize> = None;
    let mut i: usize = 0;
    while i < outputs.len()
        invariant
            i <= all.len(),
            all == outputs_view(outputs@),
            match found {
                Some(k) => k < i && output_index(all.take(i as int), id) == Some(k as int),
                None => output_index(all.take(i as int), id) is None,
            },
        decreases all.len() - i,
    {
        proof {
            assert(all.take(i + 1).drop_last() =~= all.take(i as int));
            assert(all[i as int] == outputs@[i as int]@);
        }
        if found.is_none() && outputs[i].id == id {
            found = Some(i);
        }
        i += 1;
    }
    proof {
        assert(all.take(i as int) =~= all);
    }
    found
}

fn update_output(o: &mut Output, new: Output)
    ensures
        final(o)@ == output_updated(old(o)@, new@),
{
    o.geometry = new.geometry;
    o.modes = new.modes;
    o.scale = new.scale;
    o.description = new.description;
    o.width = new.width;
    o.height = new.height;
}

fn add_output(state: &mut CompositorState, output: Output)
    ensures
        final(state)@ == old(state)@.add_output(output@),
{
    let name = take_name(state);
    state.out.output_global_names.insert(output.id, name);
    let ghost before = state.out.outputs@;
    state.out.outputs.push(output);
    proof {
        assert(outputs_view(state.out.outputs@) =~= outputs_view(before).push(output@));
    }
    broadcast_global(state, name, WL_OUTPUT_INTERFACE, WL_OUTPUT_VERSION);
}

fn change_output(state: &mut CompositorState, i: usize, output: Output)
    requires
        i < old(state)@.out.outputs.len(),
    ensures
        final(state)@ == (StateView {
            out: DisplaysView {
                outputs: old(state)@.out.outputs.update(
                    i as int,
                    output_updated(old(state)@.out.outputs[i as int], output@),
                ),
                ..old(state)@.out
            },
            ..old(state)@
        }),
{
    let ghost before = state.out.outputs@;
    let o = &mut state.out.outputs[i];
    update_output(o, output);
    proof {
        assert(outputs_view(state.out.outputs@) =~= outputs_view(before).update(
            i as int,
            output_updated(before[i as int]@, output@),
        ));
    }
}

/// Take an output as the backend describes it into compositor state: update
/// the one already known under its id, or add and advertise a new one. The
/// panels of one that was resized are told the size they now have.
///
/// The settings' `output_scale` wins over what the backend reports, which is
/// what lets a scaled desktop be tried on hardware that is not scaled. The
/// logical size is the one at the scale that wins.
pub fn upsert_output(state: &mut CompositorState, output: Output)
    ensures
        final(state)@ == old(state)@.upsert_output(output@),
{
    let mut output = output;
    if let Some(scale) = state.settings.output_scale {
        output.scale = scale;
    }
    match index_of_output(&state.out.outputs, output.id) {
        Some(i) => {
            let id = output.id;
            change_output(state, i, output);
            resettle(state, Some(id));
        },
        None => {
            add_output(state, output);
        },
    }
}

/// Retire an output that has gone: close the layer surfaces anchored to it
/// and withdraw its global.
///
/// Withdrawing the global is the half that matters to clients: one that is
/// announced and never withdrawn leaves them holding a name for a display
/// that no longer exists.
pub fn retire_output(state: &mut CompositorState, output_id: OutputId)
    ensures
        final(state)@ == old(state)@.retire_output(output_id),
{
    let orphaned = state.layers.layer_surfaces.keys_where(
        |k: &ClientObjectId, l: &LayerSurfaceState| -> (r: bool)
            ensures
                r == layer_on(output_id)(*k, l@)
        {
            match l.output {
                Some(id) => id == output_id,
                None => false,
            }
        },
        Ghost(layer_on(output_id)),
    );
    close_each(state, &orphaned);
    if let Some(name) = state.remove_output(output_id) {
        broadcast_global_remove(state, name);
    }
}

fn close_each(state: &mut CompositorState, keys: &Vec<ClientObjectId>)
    ensures
        final(state)@ == old(state)@.close_each(keys@),
        final(state)@.out == old(state)@.out,
{
    let mut i: usize = 0;
    while i < keys.len()
        invariant
            i <= keys@.len(),
            state@.out == old(state)@.out,
            state@ == old(state)@.close_each(keys@.take(i as int)),
        decreases keys@.len() - i,
    {
        proof {
            assert(keys@.take(i + 1).drop_last() =~= keys@.take(i as int));
        }
        send_closed(state, keys[i]);
        i += 1;
    }
    proof {
        assert(keys@.take(i as int) =~= keys@);
    }
}

fn ids_of(outputs: &Vec<Output>) -> (r: Vec<OutputId>)
    ensures
        r@.len() == outputs@.len(),
        forall|i: int| 0 <= i < r@.len() ==> #[trigger] r@[i] == outputs_view(outputs@)[i].id,
{
    let mut r: Vec<OutputId> = Vec::new();
    let mut i: usize = 0;
    while i < outputs.len()
        invariant
            i <= outputs@.len(),
            r@.len() == i,
            forall|j: int| 0 <= j < i ==> #[trigger] r@[j] == outputs_view(outputs@)[j].id,
        decreases outputs@.len() - i,
    {
        r.push(outputs[i].id);
        i += 1;
    }
    r
}

/// Whether ids are those of some outputs, in order.
pub open spec fn ids_match(ids: Seq<OutputId>, outputs: Seq<OutputView>) -> bool {
    ids.len() == outputs.len() && forall|i: int| 0 <= i < ids.len() ==> #[trigger] ids[i] == outputs[i].id
}

proof fn lemma_lists_ids(ids: Seq<OutputId>, outputs: Seq<OutputView>, id: OutputId)
    requires
        ids_match(ids, outputs),
    ensures
        lists(outputs, id) == ids.contains(id),
{
    if lists(outputs, id) {
        let i = choose|i: int| 0 <= i < outputs.len() && (#[trigger] outputs[i]).id == id;
        assert(ids[i] == id);
    }
    if ids.contains(id) {
        let i = choose|i: int| 0 <= i < ids.len() && ids[i] == id;
        assert(outputs[i].id == id);
    }
}

fn missing_from(outputs: &Vec<Output>, ids: &Vec<OutputId>, Ghost(listed): Ghost<Seq<OutputView>>) -> (r: Vec<OutputId>)
    requires
        ids_match(ids@, listed),
    ensures
        r@ == missing(outputs_view(outputs@), listed),
{
    let ghost all = outputs_view(outputs@);
    let mut r: Vec<OutputId> = Vec::new();
    let mut i: usize = 0;
    proof {
        assert(r@ =~= missing(all.take(0), listed));
    }
    while i < outputs.len()
        invariant
            i <= all.len(),
            all == outputs_view(outputs@),
            ids_match(ids@, listed),
            r@ == missing(all.take(i as int), listed),
        decreases all.len() - i,
    {
        let id: OutputId = outputs[i].id;
        proof {
            assert(all.take(i + 1).drop_last() =~= all.take(i as int));
            assert(all[i as int] == outputs@[i as int]@);
            lemma_lists_ids(ids@, listed, id);
        }
        if position(ids, id).is_none() {
            r.push(id);
        }
        i += 1;
    }
    proof {
        assert(all.take(i as int) =~= all);
    }
    r
}

fn upsert_each(state: &mut CompositorState, outputs: Vec<Output>)
    ensures
        final(state)@ == old(state)@.upsert_each(outputs_view(outputs@)),
{
    let ghost all = outputs_view(outputs@);
    let n: usize = outputs.len();
    let mut rest = back_to_front(outputs);
    let mut i: usize = 0;
    proof {
        assert forall|j: int| 0 <= j < rest@.len() implies (#[trigger] rest@[j])@ == all[n - 1 - j] by {
            assert(all[n - 1 - j] == outputs@[n - 1 - j]@);
        }
    }
    while i < n
        invariant
            i <= n,
            n == all.len(),
            rest@.len() == n - i,
            forall|j: int| 0 <= j < rest@.len() ==> (#[trigger] rest@[j])@ == all[n - 1 - j],
            state@ == old(state)@.upsert_each(all.take(i as int)),
        decreases n - i,
    {
        proof {
            assert(rest@[n - i - 1]@ == all[i as int]);
            assert(all.take(i + 1).drop_last() =~= all.take(i as int));
        }
        if let Some(o) = rest.pop() {
            upsert_output(state, o);
        }
        i += 1;
    }
    proof {
        assert(all.take(i as int) =~= all);
    }
}

fn retire_each(state: &mut CompositorState, ids: &Vec<OutputId>)
    ensures
        final(state)@ == old(state)@.retire_each(ids@),
{
    let mut i: usize = 0;
    while i < ids.len()
        invariant
            i <= ids@.len(),
            state@ == old(state)@.retire_each(ids@.take(i as int)),
        decreases ids@.len() - i,
    {
        proof {
            assert(ids@.take(i + 1).drop_last() =~= ids@.take(i as int));
        }
        retire_output(state, ids[i]);
        i += 1;
    }
    proof {
        assert(ids@.take(i as int) =~= ids@);
    }
}

/// The backend has listed all its outputs.
pub fn outputs_listed(state: &mut CompositorState, outputs: Vec<Output>)
    ensures
        final(state)@ == old(state)@.outputs_listed(outputs_view(outputs@)),
{
    let ghost listed = outputs_view(outputs@);
    let ids = ids_of(&outputs);
    upsert_each(state, outputs);
    let gone = missing_from(&state.out.outputs, &ids, Ghost(listed));
    retire_each(state, &gone);
    state.hook(Hook::OutputsChanged);
}

/// An output has been connected.
pub fn output_added(state: &mut CompositorState, output: Output)
    ensures
        final(state)@ == old(state)@.output_added(output@),
{
    upsert_output(state, output);
    state.hook(Hook::OutputsChanged);
    state.dirty = true;
}

/// An output has been disconnected.
pub fn output_removed(state: &mut CompositorState, output_id: OutputId)
    ensures
        final(state)@ == old(state)@.output_removed(output_id),
{
    retire_output(state, output_id);
    state.hook(Hook::OutputsChanged);
    state.dirty = true;
}

/// An output has changed. The shell is to be told of it before
/// [`finish_output_changed`] tells the clients.
pub fn output_changed(state: &mut CompositorState, output: Output)
    ensures
        final(state)@ == old(state)@.upsert_output(output@),
{
    upsert_output(state, output);
}

/// Tell the clients how the outputs are, now that the shell has answered to one
/// of them having changed.
pub fn finish_output_changed(state: &mut CompositorState)
    ensures
        final(state)@ == old(state)@.finish_output_changed(),
{
    broadcast_mode(state);
    state.dirty = true;
}

fn tell_capabilities(client: &mut ClientState)
    ensures
        final(client)@ == (ClientView {
            outbox: old(client)@.outbox + capability_notices(old(client)@),
            ..old(client)@
        }),
{
    let seats = client.objects.keys_where(
        |id: &u32, t: &ObjectType| -> (r: bool)
            ensures
                r == is_seat()(*id, t@)
        { *t == ObjectType::WlSeat },
        Ghost(is_seat()),
    );
    let ghost all = capability_notices(client@);
    let mut msgs: Vec<Message> = Vec::new();
    let mut i: usize = 0;
    proof {
        assert(messages_view(msgs@) =~= all.take(0));
    }
    while i < seats.len()
        invariant
            i <= seats@.len(),
            all.len() == seats@.len(),
            all == seats@.map_values(|id: u32| MessageView::Notice(Notice::SeatCapabilities { seat: id })),
            messages_view(msgs@) == all.take(i as int),
        decreases seats@.len() - i,
    {
        push_message(&mut msgs, Message::Notice(Notice::SeatCapabilities { seat: seats[i] }));
        i += 1;
        proof {
            assert(messages_view(msgs@) =~= all.take(i as int));
        }
    }
    proof {
        assert(all.take(i as int) =~= all);
    }
    client.send_all(msgs);
}

fn broadcast_capabilities(state: &mut CompositorState)
    ensures
        final(state)@ == (StateView { clients: old(state)@.clients.each(told_capabilities()), ..old(state)@ }),
{
    let ghost f = told_capabilities();
    let ghost before = state@.clients;
    state.clients.known();
    proof {
        before.lemma_each(f);
    }
    let n: usize = state.clients.len();
    let mut i: usize = 0;
    while i < n
        invariant
            i <= n,
            n == before.order.len(),
            before.ok(),
            f == told_capabilities(),
            state@ == (StateView { clients: before.each_first(i as int, f), ..old(state)@ }),
        decreases n - i,
    {
        proof {
            before.lemma_each_step(i as int, f);
        }
        let id: u32 = state.clients.id_at(i);
        if let Some(client) = state.clients.get(id) {
            tell_capabilities(client);
        }
        i += 1;
    }
}

/// The backend has said what devices there are.
pub fn seat_capabilities(state: &mut CompositorState, pointer: bool, keyboard: bool, touch: bool)
    ensures
        final(state)@ == old(state)@.seat_capabilities(
            SeatState { has_pointer: pointer, has_keyboard: keyboard, has_touch: touch },
        ),
{
    let changed = state.input.seat.has_pointer != pointer || state.input.seat.has_keyboard != keyboard
        || state.input.seat.has_touch != touch;
    state.input.seat = SeatState { has_pointer: pointer, has_keyboard: keyboard, has_touch: touch };
    if changed {
        broadcast_capabilities(state);
    }
}

/// The backend has said whether it imports dma-bufs of any format.
pub fn dmabuf_support(state: &mut CompositorState, any_format: bool)
    ensures
        final(state)@ == old(state)@.dmabuf_support(any_format),
{
    if any_format && state.out.dmabuf_global_name.is_none() {
        let name = take_name(state);
        state.out.dmabuf_global_name = Some(name);
        broadcast_global(state, name, DMABUF_INTERFACE, DMABUF_VERSION);
    }
}

} // verus!
