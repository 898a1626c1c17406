//! Frame pacing: what is composed, for which output, and when.
use crate::scene::compose::{build, Scene, SceneView};
use crate::scene::cursor::{build_cursor, Cursor, CursorView, next_serial_after};
use crate::scene::damage::{damaged, output_damage};
use crate::scene::images::{CacheView, SceneCache};
use crate::scene::paint::ElementView;
use crate::seqs::lemma_filter_push;
use crate::shell::Shell;
use crate::state::compositor_state::{CompositorState, StateView};
use crate::state::memory::serial_after;
use crate::state::types::{OutputId, OutputView};
use crate::table::{Dict, KeySet, set_put, set_without, Table};
use vstd::prelude::*;

verus! {

/// What has been published for each output, and which outputs are owed more.
pub struct FramePacer {
    /// The newest scene composed for each output.
    ///
    /// Kept so that every publication can carry all of them. The frame slot
    /// holds one value and a new publication replaces it, so a frame carrying
    /// only the output being served would drop the scene of an output whose
    /// backend had not drawn it yet.
    pub published: Table<OutputId, Scene>,
    /// Outputs whose published scene is out of date.
    pub stale: KeySet<OutputId>,
    /// Outputs whose backend has asked for a frame and not been given one.
    ///
    /// A request outlives the moment it was made. An output that asks while
    /// nothing has changed is not turned away - it is served as soon as
    /// something does.
    pub waiting: KeySet<OutputId>,
    /// Source of scene serials.
    pub next_serial: u64,
    /// The cursor as last built, carried into every frame.
    pub cursor: Cursor,
    /// Source of cursor serials, bumped each time the cursor is rebuilt.
    pub next_cursor_serial: u64,
    /// Textures kept between scenes.
    pub cache: SceneCache,
}

/// What is known of the pacing.
#[verifier::ext_equal]
pub struct PacerView {
    pub published: Dict<OutputId, SceneView>,
    pub stale: Seq<OutputId>,
    pub waiting: Seq<OutputId>,
    pub next_serial: u64,
    pub cursor: CursorView,
    pub next_cursor_serial: u64,
    pub cache: CacheView,
}

impl View for FramePacer {
    type V = PacerView;

    open spec fn view(&self) -> PacerView {
        PacerView {
            published: self.published@,
            stale: self.stale@,
            waiting: self.waiting@,
            next_serial: self.next_serial,
            cursor: self.cursor@,
            next_cursor_serial: self.next_cursor_serial,
            cache: self.cache@,
        }
    }
}

/// A set of outputs with more of them.
pub open spec fn put_outputs(s: Seq<OutputId>, outputs: Seq<OutputView>) -> Seq<OutputId>
    decreases outputs.len(),
{
    if outputs.len() == 0 {
        s
    } else {
        set_put(put_outputs(s, outputs.drop_last()), outputs.last().id)
    }
}

/// Whether an output is there.
pub open spec fn live(state: StateView) -> spec_fn(OutputId) -> bool {
    |id: OutputId| state.output(id) is Some
}

/// Whether a scene's output is there.
pub open spec fn live_scene(state: StateView) -> spec_fn(OutputId, SceneView) -> bool {
    |id: OutputId, s: SceneView| state.output(id) is Some
}

/// Whether an output is among some.
pub open spec fn among(waiting: Seq<OutputId>) -> spec_fn(OutputId) -> bool {
    |id: OutputId| waiting.contains(id)
}

impl StateView {
    /// With no change left to draw.
    pub open spec fn drawn(self) -> Self {
        StateView { dirty: false, ..self }
    }

    /// With no change of the pointer left to draw.
    pub open spec fn cursor_drawn(self) -> Self {
        StateView { cursor_dirty: false, ..self }
    }
}

impl PacerView {
    /// Nothing published, and nothing owed.
    pub open spec fn fresh() -> Self {
        PacerView {
            published: Dict::empty(),
            stale: Seq::empty(),
            waiting: Seq::empty(),
            next_serial: 1,
            cursor: CursorView::nowhere(),
            next_cursor_serial: 1,
            cache: CacheView::fresh(),
        }
    }

    /// With every output's scene out of date, if anything has changed.
    pub open spec fn invalidate(self, state: StateView) -> Self {
        if state.dirty {
            PacerView { stale: put_outputs(self.stale, state.out.outputs), ..self }
        } else {
            self
        }
    }

    /// With an output waiting for a frame.
    pub open spec fn request(self, id: OutputId) -> Self {
        PacerView { waiting: set_put(self.waiting, id), ..self }
    }

    /// With what the cache has no reason to keep dropped.
    pub open spec fn collect(self, state: StateView) -> Self {
        PacerView { cache: self.cache.gc(state), ..self }
    }

    /// With nothing remembered of outputs that are gone.
    pub open spec fn forget_gone_outputs(self, state: StateView) -> Self {
        PacerView {
            published: self.published.keep(live_scene(state)),
            stale: self.stale.filter(live(state)),
            waiting: self.waiting.filter(live(state)),
            ..self
        }
    }

    /// With the pointer's picture built again, if it has changed.
    pub open spec fn point(self, state: StateView) -> Self {
        if state.cursor_dirty {
            PacerView {
                cursor: CursorView { serial: self.next_cursor_serial, ..state.cursor_now(self.cache) },
                next_cursor_serial: serial_after(self.next_cursor_serial),
                cache: state.cursor_painting(self.cache).cache,
                ..self
            }
        } else {
            self
        }
    }

    /// The outputs that are both waiting and out of date.
    pub open spec fn due(self) -> Seq<OutputId> {
        self.stale.filter(among(self.waiting))
    }

    /// A scene with its damage against the last one published for its output,
    /// if there is one.
    pub open spec fn against(self, scene: SceneView) -> SceneView {
        if self.published.has(scene.output_id) {
            let previous = self.published.at(scene.output_id);
            SceneView {
                damage: damaged(previous, scene),
                damage_from: Some(previous.serial),
                ..scene
            }
        } else {
            scene
        }
    }

    /// With an output composed for and no longer owed anything.
    pub open spec fn serve<S: Shell>(self, state: StateView, shell: S, id: OutputId) -> Self {
        PacerView {
            published: self.published.put(id, self.against(state.scene(shell, self.cache, id, self.next_serial))),
            stale: set_without(self.stale, id),
            waiting: set_without(self.waiting, id),
            next_serial: serial_after(self.next_serial),
            cache: state.composed(shell, self.cache, id).cache,
            ..self
        }
    }

    /// With several outputs composed for.
    pub open spec fn serve_each<S: Shell>(self, state: StateView, shell: S, ids: Seq<OutputId>) -> Self
        decreases ids.len(),
    {
        if ids.len() == 0 {
            self
        } else {
            self.serve_each(state, shell, ids.drop_last()).serve(state, shell, ids.last())
        }
    }

    /// What is owed once what has changed is known, and the pointer built.
    pub open spec fn ready(self, state: StateView) -> Self {
        self.invalidate(state).point(state.drawn())
    }

    /// With every output that is waiting and out of date composed for.
    pub open spec fn publish<S: Shell>(self, state: StateView, shell: S) -> Self {
        let ready = self.ready(state);
        if ready.due().len() == 0 {
            ready
        } else {
            let now = state.drawn().cursor_drawn();
            ready.collect(now).serve_each(now, shell, ready.due())
        }
    }

    /// Whether there is anything to publish: a scene, or the pointer.
    pub open spec fn publishes(self, state: StateView) -> bool {
        state.cursor_dirty || self.ready(state).due().len() > 0
    }

    /// The state after publishing: nothing left to draw, and if anything was
    /// composed, no damage left to tell of.
    pub open spec fn published_state(self, state: StateView) -> StateView {
        if self.ready(state).due().len() == 0 {
            state.drawn().cursor_drawn()
        } else {
            state.drawn().cursor_drawn().clear_buffer_damage()
        }
    }
}

impl FramePacer {
    /// Nothing published yet
    pub fn new() -> (r: Self)
        ensures
            r@ == PacerView::fresh(),
    {
        let r = FramePacer {
            published: Table::new(),
            stale: KeySet::new(),
            waiting: KeySet::new(),
            next_serial: 1,
            cursor: Cursor { output: None, elements: Vec::new(), serial: 0 },
            next_cursor_serial: 1,
            cache: SceneCache::new(),
        };
        proof {
            assert(r@.cursor.elements =~= Seq::<ElementView>::empty());
        }
        r
    }

    /// Note that compositor state has moved on, so every output's scene is out
    /// of date.
    ///
    /// State is tracked as one flag rather than per output because almost
    /// everything that changes it could affect any output.
    fn invalidate(&mut self, state: &CompositorState)
        ensures
            final(self)@ == old(self)@.invalidate(state@),
    {
        if !state.dirty {
            return;
        }
        let ghost all = state@.out.outputs;
        let mut i: usize = 0;
        while i < state.out.outputs.len()
            invariant
                i <= all.len(),
                all == state@.out.outputs,
                self@ == (PacerView { stale: put_outputs(old(self)@.stale, all.take(i as int)), ..old(self)@ }),
            decreases all.len() - i,
        {
            proof {
                assert(all.take(i + 1).drop_last() =~= all.take(i as int));
                assert(all[i as int] == state.out.outputs@[i as int]@);
            }
            self.stale.insert(state.out.outputs[i].id);
            i += 1;
        }
        proof {
            assert(all.take(i as int) =~= all);
        }
    }

    /// Record that a backend is ready for another frame on this output.
    pub fn request(&mut self, output_id: OutputId)
        ensures
            final(self)@ == old(self)@.request(output_id),
    {
        self.waiting.insert(output_id);
    }

    /// Drop cache entries whose reason to exist has passed.
    ///
    /// Called from housekeeping as well as before composing, because an idle
    /// output may not compose for a long time.
    pub fn collect(&mut self, state: &CompositorState)
        ensures
            final(self)@ == old(self)@.collect(state@),
    {
        self.cache.gc(state);
    }

    /// Drop everything remembered about outputs that no longer exist.
    pub fn forget_gone_outputs(&mut self, state: &CompositorState)
        ensures
            final(self)@ == old(self)@.forget_gone_outputs(state@),
    {
        self.published.retain(
            |id: &OutputId, s: &Scene| -> (r: bool)
                ensures
                    r == live_scene(state@)(*id, s@)
            { state.output(*id).is_some() },
            Ghost(live_scene(state@)),
        );
        self.stale.retain(
            |id: &OutputId| -> (r: bool)
                ensures
                    r == live(state@)(*id)
            { state.output(*id).is_some() },
            Ghost(live(state@)),
        );
        self.waiting.retain(
            |id: &OutputId| -> (r: bool)
                ensures
                    r == live(state@)(*id)
            { state.output(*id).is_some() },
            Ghost(live(state@)),
        );
    }

    fn point(&mut self, state: &CompositorState)
        ensures
            final(self)@ == old(self)@.point(state@),
    {
        if state.cursor_dirty {
            let mut cursor = build_cursor(state, &mut self.cache);
            cursor.serial = self.next_cursor_serial;
            self.cursor = cursor;
            self.next_cursor_serial = next_serial_after(self.next_cursor_serial);
        }
    }

    fn due(&self) -> (r: Vec<OutputId>)
        ensures
            r@ == self@.due(),
    {
        let ghost all = self@.stale;
        let ghost p = among(self@.waiting);
        let mut r: Vec<OutputId> = Vec::new();
        let mut i: usize = 0;
        proof {
            assert(all.take(0).filter(p) =~= Seq::<OutputId>::empty()) by {
                reveal(Seq::filter);
            }
        }
        while i < self.stale.len()
            invariant
                i <= all.len(),
                all == self.stale@,
                p == among(self@.waiting),
                r@ == all.take(i as int).filter(p),
            decreases all.len() - i,
        {
            let id = self.stale.key_at(i);
            proof {
                assert(all.take(i + 1) =~= all.take(i as int).push(id));
                lemma_filter_push(all.take(i as int), id, p);
            }
            if self.waiting.contains(id) {
                r.push(id);
            }
            i += 1;
        }
        proof {
            assert(all.take(i as int) =~= all);
        }
        r
    }

    fn serve<S: Shell>(&mut self, state: &CompositorState, shell: &S, id: OutputId)
        ensures
            final(self)@ == old(self)@.serve(state@, *shell, id),
    {
        let mut scene = build(id, self.next_serial, state, shell, &mut self.cache);
        if let Some(previous) = self.published.get(id) {
            scene.damage = output_damage(previous, &scene);
            scene.damage_from = Some(previous.serial);
        }
        self.published.insert(id, scene);
        self.stale.remove(id);
        self.waiting.remove(id);
        self.next_serial = next_serial_after(self.next_serial);
    }

    fn serve_each<S: Shell>(&mut self, state: &CompositorState, shell: &S, ids: &Vec<OutputId>)
        ensures
            final(self)@ == old(self)@.serve_each(state@, *shell, ids@),
    {
        let mut i: usize = 0;
        while i < ids.len()
            invariant
                i <= ids@.len(),
                self@ == old(self)@.serve_each(state@, *shell, ids@.take(i as int)),
            decreases ids@.len() - i,
        {
            proof {
                assert(ids@.take(i + 1).drop_last() =~= ids@.take(i as int));
            }
            self.serve(state, shell, ids[i]);
            i += 1;
        }
        proof {
            assert(ids@.take(i as int) =~= ids@);
        }
    }

    /// Compose for every output that is both waiting and out of date. Returns
    /// whether there is anything to publish.
    ///
    /// What is published is every scene and the cursor: the slot holds one
    /// frame and a backend that has not kept up gets the newest.
    pub fn publish<S: Shell>(&mut self, state: &mut CompositorState, shell: &S) -> (r: bool)
        ensures
            final(self)@ == old(self)@.publish(old(state)@, *shell),
            final(state)@ == old(self)@.published_state(old(state)@),
            r == old(self)@.publishes(old(state)@),
    {
        self.invalidate(state);
        state.dirty = false;
        let cursor_moved: bool = state.cursor_dirty;
        self.point(state);
        state.cursor_dirty = false;
        let due = self.due();
        if due.len() == 0 {
            return cursor_moved;
        }
        self.collect(state);
        self.serve_each(state, shell, &due);
        state.clear_buffer_damage();
        true
    }
}

} // verus!
