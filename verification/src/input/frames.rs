//! Frame callbacks and presentation feedback.
use crate::laws::outputs::told;
use crate::protocol::messages::{build_message, event, no_args, one_arg};
use crate::protocol::wire_utils::{Arg, args_view, ArgView};
use crate::protocol::wp_presentation_feedback::{
    DISCARDED, kind_mask, kinds, PresentationFlags, PRESENTED,
};
use crate::state::compositor_state::{CompositorState, StateView, SurfacesView};
use crate::state::types::{ClientObjectId, Output, OutputId, Surface, SurfaceView};
use vstd::prelude::*;

verus! {

/// Whose frame callbacks a presentation settles.
#[derive(Debug, Clone, Copy, PartialEq, Eq)]
pub enum FrameTarget {
    /// The surfaces shown on one output, because that output presented.
    Output(OutputId),
    /// The surfaces no output is showing.
    ///
    /// A client waiting on `wl_surface.frame` for one of these would otherwise
    /// wait forever, and it is not always a window the user has hidden: a
    /// client's first commit typically carries no buffer and a frame request,
    /// and it will not draw anything until that callback comes back.
    Offscreen,
}

/// How a frame reached the screen.
#[derive(Debug, Clone, Copy, PartialEq, Eq)]
pub struct Presentation {
    /// When the frame reached the screen: seconds
    pub tv_sec: i64,
    /// When the frame reached the screen: nanoseconds within the second
    pub tv_nsec: i64,
    /// Nominal refresh interval in nanoseconds, 0 if unknown.
    pub refresh_ns: u32,
    /// The output's refresh counter, 0 if the backend cannot supply one.
    pub sequence: u64,
    /// What the backend can vouch for about how it presented.
    pub flags: PresentationFlags,
}

/// What a number in two's complement reads as without a sign.
pub open spec fn unsigned(n: i64) -> int {
    if n < 0 {
        n + 0x1_0000_0000_0000_0000
    } else {
        n as int
    }
}

impl FrameTarget {
    /// Whether a surface is covered, from the outputs it is on.
    pub open spec fn covers(self, on: Seq<OutputId>) -> bool {
        match self {
            FrameTarget::Output(id) => on.contains(id),
            FrameTarget::Offscreen => on.len() == 0,
        }
    }
}

impl Presentation {
    /// The arguments of `presented`: the time and the counter each as a high
    /// and a low word.
    pub open spec fn told(self) -> Seq<ArgView> {
        seq![
            ArgView::Uint((unsigned(self.tv_sec) / 0x1_0000_0000) as u32),
            ArgView::Uint((unsigned(self.tv_sec) % 0x1_0000_0000) as u32),
            ArgView::Uint(
                if 0 <= self.tv_nsec <= u32::MAX {
                    self.tv_nsec as u32
                } else {
                    0
                },
            ),
            ArgView::Uint(self.refresh_ns),
            ArgView::Uint((self.sequence as int / 0x1_0000_0000) as u32),
            ArgView::Uint((self.sequence as int % 0x1_0000_0000) as u32),
            ArgView::Uint(kinds(self.flags) as u32),
        ]
    }

    fn tell(&self) -> (r: Vec<Arg>)
        ensures
            args_view(r@) == self.told(),
    {
        let sec: u64 = if self.tv_sec < 0 {
            (self.tv_sec as i128 + 0x1_0000_0000_0000_0000) as u64
        } else {
            self.tv_sec as u64
        };
        let nsec: u32 = if self.tv_nsec >= 0 && self.tv_nsec <= u32::MAX as i64 {
            self.tv_nsec as u32
        } else {
            0
        };
        let r: Vec<Arg> = vec![
            Arg::Uint((sec / 0x1_0000_0000) as u32),
            Arg::Uint((sec % 0x1_0000_0000) as u32),
            Arg::Uint(nsec),
            Arg::Uint(self.refresh_ns),
            Arg::Uint((self.sequence / 0x1_0000_0000) as u32),
            Arg::Uint((self.sequence % 0x1_0000_0000) as u32),
            Arg::Uint(kind_mask(self.flags)),
        ];
        proof {
            assert(args_view(r@) =~= self.told());
        }
        r
    }
}

/// A surface with its frame callbacks and feedbacks taken, if it is covered.
pub open spec fn drained(target: FrameTarget) -> spec_fn(ClientObjectId, SurfaceView) -> SurfaceView {
    |k: ClientObjectId, s: SurfaceView|
        if target.covers(s.visible_on) {
            SurfaceView { frame_callbacks: Seq::empty(), presentation_feedbacks: Seq::empty(), ..s }
        } else {
            s
        }
}

/// Objects of one client.
pub open spec fn owned_by(client_id: u32, ids: Seq<u32>) -> Seq<ClientObjectId> {
    ids.map_values(|id: u32| (client_id, id))
}

impl StateView {
    /// The callbacks waiting on the covered surfaces among some.
    pub open spec fn callbacks_due(self, target: FrameTarget, keys: Seq<ClientObjectId>) -> Seq<ClientObjectId>
        decreases keys.len(),
    {
        if keys.len() == 0 {
            Seq::empty()
        } else {
            let before = self.callbacks_due(target, keys.drop_last());
            let s = self.surf.surfaces.at(keys.last());
            if target.covers(s.visible_on) {
                before + owned_by(s.client_id, s.frame_callbacks)
            } else {
                before
            }
        }
    }

    /// The feedbacks waiting on the covered surfaces among some.
    pub open spec fn feedbacks_due(self, target: FrameTarget, keys: Seq<ClientObjectId>) -> Seq<ClientObjectId>
        decreases keys.len(),
    {
        if keys.len() == 0 {
            Seq::empty()
        } else {
            let before = self.feedbacks_due(target, keys.drop_last());
            let s = self.surf.surfaces.at(keys.last());
            if target.covers(s.visible_on) {
                before + owned_by(s.client_id, s.presentation_feedbacks)
            } else {
                before
            }
        }
    }

    /// With one-shot objects told something, and gone.
    pub open spec fn settle(self, keys: Seq<ClientObjectId>, op_code: u16, args: Seq<ArgView>) -> Self
        decreases keys.len(),
    {
        if keys.len() == 0 {
            self
        } else {
            let key = keys.last();
            self.settle(keys.drop_last(), op_code, args).tell(key.0, event(key.1, op_code, args)).unregister(
                key.0,
                key.1,
            )
        }
    }

    /// With the callbacks and feedbacks of the covered surfaces taken.
    pub open spec fn drain_frames(self, target: FrameTarget) -> Self {
        StateView { surf: SurfacesView { surfaces: self.surf.surfaces.each(drained(target)), ..self.surf }, ..self }
    }

    /// With feedbacks told how the frame was presented, or that it was not.
    pub open spec fn settle_feedbacks(self, keys: Seq<ClientObjectId>, presented: Option<Presentation>) -> Self {
        match presented {
            Some(p) => self.settle(keys, PRESENTED, p.told()),
            None => self.settle(keys, DISCARDED, Seq::empty()),
        }
    }

    /// With the pending frame callbacks and presentation feedbacks of the
    /// covered surfaces fired.
    pub open spec fn fire_frame_callbacks(
        self,
        timestamp: u32,
        target: FrameTarget,
        presented: Option<Presentation>,
    ) -> Self {
        let keys = self.surf.surfaces.order;
        self.drain_frames(target).settle(
            self.callbacks_due(target, keys),
            0,
            seq![ArgView::Uint(timestamp)],
        ).settle_feedbacks(self.feedbacks_due(target, keys), presented)
    }
}

fn push_owned(v: &mut Vec<ClientObjectId>, client_id: u32, ids: &Vec<u32>)
    ensures
        final(v)@ == old(v)@ + owned_by(client_id, ids@),
{
    let mut i: usize = 0;
    proof {
        assert(v@ =~= old(v)@ + owned_by(client_id, ids@).take(0));
    }
    while i < ids.len()
        invariant
            i <= ids@.len(),
            v@ == old(v)@ + owned_by(client_id, ids@).take(i as int),
        decreases ids@.len() - i,
    {
        v.push((client_id, ids[i]));
        i += 1;
        proof {
            assert(v@ =~= old(v)@ + owned_by(client_id, ids@).take(i as int));
        }
    }
    proof {
        assert(owned_by(client_id, ids@).take(i as int) =~= owned_by(client_id, ids@));
    }
}

fn covers(target: FrameTarget, s: &Surface) -> (r: bool)
    ensures
        r == target.covers(s@.visible_on),
{
    match target {
        FrameTarget::Output(id) => s.visible_on.contains(id),
        FrameTarget::Offscreen => s.visible_on.is_empty(),
    }
}

fn due(state: &CompositorState, target: FrameTarget) -> (r: (Vec<ClientObjectId>, Vec<ClientObjectId>))
    ensures
        r.0@ == state@.callbacks_due(target, state@.surf.surfaces.order),
        r.1@ == state@.feedbacks_due(target, state@.surf.surfaces.order),
{
    let ghost keys = state@.surf.surfaces.order;
    let mut callbacks: Vec<ClientObjectId> = Vec::new();
    let mut feedbacks: Vec<ClientObjectId> = Vec::new();
    let mut i: usize = 0;
    proof {
        assert(callbacks@ =~= state@.callbacks_due(target, keys.take(0)));
        assert(feedbacks@ =~= state@.feedbacks_due(target, keys.take(0)));
    }
    while i < state.surf.surfaces.len()
        invariant
            i <= keys.len(),
            keys == state@.surf.surfaces.order,
            callbacks@ == state@.callbacks_due(target, keys.take(i as int)),
            feedbacks@ == state@.feedbacks_due(target, keys.take(i as int)),
        decreases keys.len() - i,
    {
        proof {
            assert(keys.take(i + 1).drop_last() =~= keys.take(i as int));
        }
        let s = state.surf.surfaces.value_at(i);
        if covers(target, s) {
            push_owned(&mut callbacks, s.client_id, &s.frame_callbacks);
            push_owned(&mut feedbacks, s.client_id, &s.presentation_feedbacks);
        }
        i += 1;
    }
    proof {
        assert(keys.take(i as int) =~= keys);
    }
    (callbacks, feedbacks)
}

fn drain_one(s: &mut Surface, target: FrameTarget)
    ensures
        forall|k: ClientObjectId| final(s)@ == #[trigger] drained(target)(k, old(s)@),
{
    if covers(target, s) {
        s.frame_callbacks = Vec::new();
        s.presentation_feedbacks = Vec::new();
        proof {
            assert(s@.frame_callbacks =~= Seq::<u32>::empty());
            assert(s@.presentation_feedbacks =~= Seq::<u32>::empty());
        }
    }
}

fn drain_frames(state: &mut CompositorState, target: FrameTarget)
    ensures
        final(state)@ == old(state)@.drain_frames(target),
{
    let ghost f = drained(target);
    let ghost before = state@.surf.surfaces;
    let n: usize = state.surf.surfaces.len();
    let mut i: usize = 0;
    state.surf.surfaces.known();
    proof {
        before.lemma_each(f);
    }
    while i < n
        invariant
            i <= n,
            n == before.order.len(),
            before.ok(),
            f == drained(target),
            state@ == (StateView {
                surf: SurfacesView { surfaces: before.each_first(i as int, f), ..old(state)@.surf },
                ..old(state)@
            }),
        decreases n - i,
    {
        proof {
            before.lemma_each_step(i as int, f);
        }
        let s = state.surf.surfaces.value_at_mut(i);
        drain_one(s, target);
        i += 1;
    }
}

fn settle(state: &mut CompositorState, keys: &Vec<ClientObjectId>, timestamp: u32)
    ensures
        final(state)@ == old(state)@.settle(keys@, 0, seq![ArgView::Uint(timestamp)]),
{
    let mut i: usize = 0;
    while i < keys.len()
        invariant
            i <= keys@.len(),
            state@ == old(state)@.settle(keys@.take(i as int), 0, seq![ArgView::Uint(timestamp)]),
        decreases keys@.len() - i,
    {
        proof {
            assert(keys@.take(i + 1).drop_last() =~= keys@.take(i as int));
        }
        let key = keys[i];
        state.tell(key.0, build_message(key.1, 0, one_arg(timestamp)));
        state.unregister(key.0, key.1);
        i += 1;
    }
    proof {
        assert(keys@.take(i as int) =~= keys@);
    }
}

fn settle_presented(state: &mut CompositorState, keys: &Vec<ClientObjectId>, presented: Presentation)
    ensures
        final(state)@ == old(state)@.settle(keys@, PRESENTED, presented.told()),
{
    let mut i: usize = 0;
    while i < keys.len()
        invariant
            i <= keys@.len(),
            state@ == old(state)@.settle(keys@.take(i as int), PRESENTED, presented.told()),
        decreases keys@.len() - i,
    {
        proof {
            assert(keys@.take(i + 1).drop_last() =~= keys@.take(i as int));
        }
        let key = keys[i];
        state.tell(key.0, build_message(key.1, PRESENTED, presented.tell()));
        state.unregister(key.0, key.1);
        i += 1;
    }
    proof {
        assert(keys@.take(i as int) =~= keys@);
    }
}

fn settle_discarded(state: &mut CompositorState, keys: &Vec<ClientObjectId>)
    ensures
        final(state)@ == old(state)@.settle(keys@, DISCARDED, Seq::empty()),
{
    let mut i: usize = 0;
    while i < keys.len()
        invariant
            i <= keys@.len(),
            state@ == old(state)@.settle(keys@.take(i as int), DISCARDED, Seq::empty()),
        decreases keys@.len() - i,
    {
        proof {
            assert(keys@.take(i + 1).drop_last() =~= keys@.take(i as int));
        }
        let key = keys[i];
        state.tell(key.0, build_message(key.1, DISCARDED, no_args()));
        state.unregister(key.0, key.1);
        i += 1;
    }
    proof {
        assert(keys@.take(i as int) =~= keys@);
    }
}

/// Fire the pending frame callbacks and presentation feedbacks of the surfaces
/// `target` covers.
///
/// `presented` describes the frame reaching the screen, and `None` says nothing
/// was put anywhere - which is the honest answer for a surface no output is
/// showing, and makes its presentation feedback `discarded` rather than a
/// `presented` naming a time nothing happened.
pub fn fire_frame_callbacks(
    state: &mut CompositorState,
    timestamp_ms: u32,
    target: FrameTarget,
    presented: Option<Presentation>,
)
    ensures
        final(state)@ == old(state)@.fire_frame_callbacks(timestamp_ms, target, presented),
{
    let (callbacks, feedbacks) = due(state, target);
    drain_frames(state, target);
    settle(state, &callbacks, timestamp_ms);
    match presented {
        Some(p) => {
            settle_presented(state, &feedbacks, p);
        },
        None => {
            settle_discarded(state, &feedbacks);
        },
    }
}

} // verus!
