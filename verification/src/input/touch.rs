//! Touch: a point belongs to the surface it started on for its whole life.
use crate::input::hit::{hit_test, HitResult};
use crate::protocol::messages::{Message, messages_view, MessageView, Notice};
use crate::protocol::wl_output::push_message;
use crate::seqs::lemma_filter_push;
use crate::shell::Shell;
use crate::state::client_state::ClientView;
use crate::state::compositor_state::{CompositorState, InputsView, StateView};
use crate::state::types::{ClientObjectId, TouchBinding};
use crate::table::{Dict, Table};
use vstd::prelude::*;

verus! {

/// Whether a touch object is a client's.
pub open spec fn touch_of(client_id: u32) -> spec_fn(TouchBinding) -> bool {
    |t: TouchBinding| t.client_id == client_id
}

/// The cancellations for touch objects.
pub open spec fn cancellations(touches: Seq<TouchBinding>, client_id: u32) -> Seq<MessageView> {
    touches.filter(touch_of(client_id)).map_values(
        |t: TouchBinding| MessageView::Notice(Notice::TouchCancel { touch: t.object_id }),
    )
}

/// Whether a finger is down on a client's surface.
pub open spec fn lands_on(client_id: u32) -> spec_fn(i32, ClientObjectId) -> bool {
    |id: i32, s: ClientObjectId| s.0 == client_id
}

/// A client told that its touch sequence is void, if it has a point in it.
pub open spec fn voided(points: Dict<i32, ClientObjectId>, touches: Seq<TouchBinding>) -> spec_fn(
    u32,
    ClientView,
) -> ClientView {
    |client_id: u32, c: ClientView|
        if points.any(lands_on(client_id)) {
            ClientView { outbox: c.outbox + cancellations(touches, client_id), ..c }
        } else {
            c
        }
}

impl StateView {
    /// The touch objects of a client told that a finger has landed, for the
    /// first few touch objects there are.
    pub open spec fn touches_down(self, hit: HitResult, time: u32, id: i32, n: nat) -> Self
        decreases n,
    {
        if n == 0 || n > self.input.touches.len() {
            self
        } else {
            let before = self.touches_down(hit, time, id, (n - 1) as nat);
            let t = self.input.touches[n - 1];
            let c = hit.surface.0;
            if t.client_id == c {
                before.serial_taken().notice(
                    c,
                    Notice::TouchDown {
                        serial: before.next_serial,
                        time,
                        touch: t.object_id,
                        surface: hit.surface.1,
                        id,
                        x: hit.surface_x,
                        y: hit.surface_y,
                    },
                ).notice(c, Notice::TouchFrame { touch: t.object_id })
            } else {
                before
            }
        }
    }

    /// The touch objects of a client told that a finger has moved, for the
    /// first few touch objects there are.
    pub open spec fn touches_moved(self, client_id: u32, origin: (i32, i32), time: u32, id: i32, n: nat) -> Self
        decreases n,
    {
        if n == 0 || n > self.input.touches.len() {
            self
        } else {
            let before = self.touches_moved(client_id, origin, time, id, (n - 1) as nat);
            let t = self.input.touches[n - 1];
            if t.client_id == client_id {
                before.notice(
                    client_id,
                    Notice::TouchMotion { time, touch: t.object_id, id, x: origin.0, y: origin.1 },
                ).notice(client_id, Notice::TouchFrame { touch: t.object_id })
            } else {
                before
            }
        }
    }

    /// The touch objects of a client told that a finger has been lifted, for
    /// the first few touch objects there are.
    pub open spec fn touches_up(self, client_id: u32, time: u32, id: i32, n: nat) -> Self
        decreases n,
    {
        if n == 0 || n > self.input.touches.len() {
            self
        } else {
            let before = self.touches_up(client_id, time, id, (n - 1) as nat);
            let t = self.input.touches[n - 1];
            if t.client_id == client_id {
                before.serial_taken().notice(
                    client_id,
                    Notice::TouchUp { serial: before.next_serial, time, touch: t.object_id, id },
                ).notice(client_id, Notice::TouchFrame { touch: t.object_id })
            } else {
                before
            }
        }
    }

    /// With these fingers down.
    pub open spec fn set_points(self, points: Dict<i32, ClientObjectId>) -> Self {
        StateView { input: InputsView { touch_points: points, ..self.input }, ..self }
    }

    /// With a finger down on what it was found to have landed on, which is told.
    pub open spec fn finish_touch_down(self, hit: HitResult, time: u32, id: i32) -> Self {
        self.set_points(self.input.touch_points.put(id, hit.surface)).touches_down(
            hit,
            time,
            id,
            self.input.touches.len(),
        )
    }

    /// With a finger moved, if it is down on something: the client it landed
    /// on told where that surface is.
    pub open spec fn touch_motion(self, time: u32, id: i32) -> Self {
        if self.input.touch_points.has(id) {
            let s = self.input.touch_points.at(id);
            self.dirtied().touches_moved(s.0, self.global_position(s), time, id, self.input.touches.len())
        } else {
            self.dirtied()
        }
    }

    /// With a finger lifted, and the client it landed on told.
    pub open spec fn touch_up(self, time: u32, id: i32) -> Self {
        if self.input.touch_points.has(id) {
            let s = self.input.touch_points.at(id);
            self.dirtied().set_points(self.input.touch_points.without(id)).touches_up(
                s.0,
                time,
                id,
                self.input.touches.len(),
            )
        } else {
            self.dirtied()
        }
    }

    /// With no finger down, and every client that had one down told, once for
    /// each touch object it has.
    pub open spec fn touch_cancel(self) -> Self {
        StateView {
            clients: self.clients.each(voided(self.input.touch_points, self.input.touches)),
            ..self.dirtied().set_points(Dict::empty())
        }
    }
}

fn tell_down(state: &mut CompositorState, hit: HitResult, time: u32, id: i32)
    ensures
        final(state)@ == old(state)@.touches_down(hit, time, id, old(state)@.input.touches.len()),
{
    let n: usize = state.input.touches.len();
    let mut i: usize = 0;
    while i < n
        invariant
            i <= n,
            n == old(state)@.input.touches.len(),
            state@.input.touches == old(state)@.input.touches,
            state@ == old(state)@.touches_down(hit, time, id, i as nat),
        decreases n - i,
    {
        let t = state.input.touches[i];
        let c: u32 = hit.surface.0;
        if t.client_id == c {
            let serial = state.take_serial();
            state.notice(
                c,
                Notice::TouchDown {
                    serial,
                    time,
                    touch: t.object_id,
                    surface: hit.surface.1,
                    id,
                    x: hit.surface_x,
                    y: hit.surface_y,
                },
            );
            state.notice(c, Notice::TouchFrame { touch: t.object_id });
        }
        i += 1;
    }
}

fn tell_moved(state: &mut CompositorState, client_id: u32, origin: (i32, i32), time: u32, id: i32)
    ensures
        final(state)@ == old(state)@.touches_moved(client_id, origin, time, id, old(state)@.input.touches.len()),
{
    let n: usize = state.input.touches.len();
    let mut i: usize = 0;
    while i < n
        invariant
            i <= n,
            n == old(state)@.input.touches.len(),
            state@.input.touches == old(state)@.input.touches,
            state@ == old(state)@.touches_moved(client_id, origin, time, id, i as nat),
        decreases n - i,
    {
        let t = state.input.touches[i];
        if t.client_id == client_id {
            state.notice(
                client_id,
                Notice::TouchMotion { time, touch: t.object_id, id, x: origin.0, y: origin.1 },
            );
            state.notice(client_id, Notice::TouchFrame { touch: t.object_id });
        }
        i += 1;
    }
}

fn tell_up(state: &mut CompositorState, client_id: u32, time: u32, id: i32)
    ensures
        final(state)@ == old(state)@.touches_up(client_id, time, id, old(state)@.input.touches.len()),
{
    let n: usize = state.input.touches.len();
    let mut i: usize = 0;
    while i < n
        invariant
            i <= n,
            n == old(state)@.input.touches.len(),
            state@.input.touches == old(state)@.input.touches,
            state@ == old(state)@.touches_up(client_id, time, id, i as nat),
        decreases n - i,
    {
        let t = state.input.touches[i];
        if t.client_id == client_id {
            let serial = state.take_serial();
            state.notice(client_id, Notice::TouchUp { serial, time, touch: t.object_id, id });
            state.notice(client_id, Notice::TouchFrame { touch: t.object_id });
        }
        i += 1;
    }
}

/// A finger has landed. Find what it landed on, if anything.
///
/// The shell is to be told of the click on what is returned before
/// [`finish_touch_down`] tells the client: touching a window raises and focuses
/// it, or does whatever else the shell decides a click on it should, and the
/// client hears of that first. With nothing there the point is not recorded, so
/// its motion and lift are dropped too rather than being delivered to whatever is
/// touched next.
pub fn touch_down<S: Shell>(state: &mut CompositorState, shell: &S, x: i32, y: i32) -> (r: Option<HitResult>)
    ensures
        final(state)@ == old(state)@.dirtied(),
        r == old(state)@.hit_test(*shell, (x, y)),
{
    let hit = hit_test(state, shell, x, y);
    state.dirty = true;
    hit
}

/// Give a finger that has landed to the surface it landed on, and tell that
/// client.
///
/// The surface is settled here and remembered for the life of the point, so
/// every later motion and the eventual lift go to the same client however far
/// the finger travels.
pub fn finish_touch_down(state: &mut CompositorState, hit: HitResult, time_ms: u32, id: i32)
    ensures
        final(state)@ == old(state)@.finish_touch_down(hit, time_ms, id),
{
    state.input.touch_points.insert(id, hit.surface);
    tell_down(state, hit, time_ms, id);
}

/// A finger already down has moved. Its client is told where the surface it
/// started on is, which may be nowhere near where the finger is now.
pub fn touch_motion(state: &mut CompositorState, time_ms: u32, id: i32)
    ensures
        final(state)@ == old(state)@.touch_motion(time_ms, id),
{
    let surface: ClientObjectId = match state.input.touch_points.get(id) {
        Some(s) => *s,
        None => {
            state.dirty = true;
            return;
        },
    };
    let origin = state.global_position_of(surface);
    state.dirty = true;
    tell_moved(state, surface.0, origin, time_ms, id);
}

/// A finger has been lifted.
pub fn touch_up(state: &mut CompositorState, time_ms: u32, id: i32)
    ensures
        final(state)@ == old(state)@.touch_up(time_ms, id),
{
    state.dirty = true;
    state.input.touch_points.known();
    proof {
        if !state@.input.touch_points.has(id) {
            state@.input.touch_points.lemma_without_absent(id);
        }
    }
    let at: Option<ClientObjectId> = state.input.touch_points.remove(id);
    if let Some(s) = at {
        tell_up(state, s.0, time_ms, id);
    }
}

fn cancels_for(touches: &Vec<TouchBinding>, client_id: u32) -> (r: Vec<Message>)
    ensures
        messages_view(r@) == cancellations(touches@, client_id),
{
    let ghost p = touch_of(client_id);
    let ghost all = touches@;
    let mut r: Vec<Message> = Vec::new();
    let mut i: usize = 0;
    proof {
        assert(all.take(0).filter(p) =~= Seq::<TouchBinding>::empty()) by {
            reveal(Seq::filter);
        }
        assert(messages_view(r@) =~= cancellations(all.take(0), client_id));
    }
    while i < touches.len()
        invariant
            i <= all.len(),
            all == touches@,
            p == touch_of(client_id),
            messages_view(r@) == cancellations(all.take(i as int), client_id),
        decreases all.len() - i,
    {
        let t = touches[i];
        proof {
            assert(all.take(i + 1) =~= all.take(i as int).push(t));
            lemma_filter_push(all.take(i as int), t, p);
        }
        if t.client_id == client_id {
            push_message(&mut r, Message::Notice(Notice::TouchCancel { touch: t.object_id }));
        }
        i += 1;
        proof {
            assert(messages_view(r@) =~= cancellations(all.take(i as int), client_id));
        }
    }
    proof {
        assert(all.take(i as int) =~= all);
    }
    r
}

/// The touch sequence has been taken over, so every point in it is void.
///
/// Every client holding a point is told, not just the one under the last
/// finger: a two-finger gesture spanning two windows leaves both of them
/// waiting to be told how it ended.
pub fn touch_cancel(state: &mut CompositorState)
    ensures
        final(state)@ == old(state)@.touch_cancel(),
{
    state.dirty = true;
    let ghost f = voided(state@.input.touch_points, state@.input.touches);
    let ghost before = state@.clients;
    let n: usize = state.clients.len();
    let mut i: usize = 0;
    state.clients.known();
    proof {
        before.lemma_each(f);
    }
    while i < n
        invariant
            i <= n,
            n == before.order.len(),
            before.ok(),
            f == voided(old(state)@.input.touch_points, old(state)@.input.touches),
            state@ == (StateView { clients: before.each_first(i as int, f), ..old(state)@.dirtied() }),
        decreases n - i,
    {
        proof {
            before.lemma_each_step(i as int, f);
        }
        let id = state.clients.id_at(i);
        let held = state.input.touch_points.any(
            |k: &i32, s: &ClientObjectId| -> (r: bool)
                ensures
                    r == lands_on(id)(*k, s@)
            { s.0 == id },
            Ghost(lands_on(id)),
        );
        if held {
            let msgs = cancels_for(&state.input.touches, id);
            state.tell_all(id, msgs);
        } else {
            proof {
                before.each_first(i as int, f).lemma_put_same(id);
            }
        }
        i += 1;
    }
    state.input.touch_points = Table::new();
}

} // verus!
