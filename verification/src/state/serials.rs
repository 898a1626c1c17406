//! Serials, and the bells that are ringing.
use crate::state::compositor_state::{
    BELL_DURATION, CompositorState, DisplaysView, InputsView, RECENT_INPUT_SERIALS, StateView,
};
use crate::state::types::OutputId;
use crate::table::Dict;
use vstd::prelude::*;

verus! {

/// The last items of a sequence, as many as there may be.
pub open spec fn newest<A>(s: Seq<A>, most: int) -> Seq<A> {
    if s.len() <= most {
        s
    } else {
        s.skip(s.len() - most)
    }
}

/// Add to a list that keeps only its newest items.
pub fn push_newest(v: &mut Vec<u32>, n: u32, most: usize)
    ensures
        final(v)@ == newest(old(v)@.push(n), most as int),
{
    v.push(n);
    let ghost all = v@;
    let ghost mut gone: int = 0;
    proof {
        assert(all.skip(0) =~= all);
    }
    while v.len() > most
        invariant
            0 <= gone <= all.len(),
            v@ == all.skip(gone),
            gone > 0 ==> v@.len() >= most,
        decreases v@.len(),
    {
        let _ = v.remove(0);
        proof {
            assert(all.skip(gone).remove(0) =~= all.skip(gone + 1));
            gone = gone + 1;
        }
    }
}

impl StateView {
    /// After an input serial has been sent to a client: the newest few are
    /// remembered.
    pub open spec fn record_input_serial(self, client_id: u32, serial: u32) -> Self {
        let before = if self.input.recent_input_serials.has(client_id) {
            self.input.recent_input_serials.at(client_id)
        } else {
            Seq::empty()
        };
        StateView { input: InputsView { recent_input_serials: self.input.recent_input_serials.put(
                client_id,
                newest(before.push(serial), RECENT_INPUT_SERIALS as int),
            ), ..self.input }, ..self }
    }

    /// Whether a serial is one a client was recently given.
    pub open spec fn recent_input_serial(self, client_id: u32, serial: u32) -> bool {
        self.input.recent_input_serials.has(client_id) && self.input.recent_input_serials.at(client_id).contains(serial)
    }

    /// With an output flashing from now on for a while.
    pub open spec fn ring_bell(self, output_id: OutputId, now: u64) -> Self {
        StateView { dirty: true, out: DisplaysView { bell_until: self.out.bell_until.put(output_id, (now + BELL_DURATION) as u64), ..self.out }, ..self }
    }

    /// The bells that have not finished.
    pub open spec fn bells_left(self, now: u64) -> Dict<u32, u64> {
        self.out.bell_until.keep(|o: u32, until: u64| until > now)
    }

    /// Whether any bell has finished.
    pub open spec fn bell_done(self, now: u64) -> bool {
        self.out.bell_until.any(|o: u32, until: u64| until <= now)
    }
}

impl CompositorState {
    /// Flash an output.
    pub fn ring_bell(&mut self, output_id: OutputId, now: u64)
        requires
            now <= u64::MAX - BELL_DURATION,
        ensures
            final(self)@ == old(self)@.ring_bell(output_id, now),
    {
        self.out.bell_until.insert(output_id, now + BELL_DURATION);
        self.dirty = true;
    }

    /// Drop bells that have finished. Returns true if anything changed, which
    /// is what puts the flash back off the screen.
    pub fn expire_bells(&mut self, now: u64) -> (r: bool)
        ensures
            r == old(self)@.bell_done(now),
            final(self)@ == (StateView { dirty: old(self)@.dirty || r, out: DisplaysView { bell_until: old(self)@.bells_left(now), ..old(self)@.out }, ..old(self)@ }),
    {
        let changed = self.out.bell_until.any(
            |o: &u32, until: &u64| -> (r: bool) ensures r == (*until <= now) { *until <= now },
            Ghost(|o: u32, until: u64| until <= now),
        );
        self.out.bell_until.retain(
            |o: &u32, until: &u64| -> (r: bool) ensures r == (*until > now) { *until > now },
            Ghost(|o: u32, until: u64| until > now),
        );
        if changed {
            self.dirty = true;
        }
        changed
    }

    /// Note a serial the compositor has just sent a client on an input event.
    ///
    /// Only input events are recorded. A serial from a configure or a frame
    /// callback is not evidence the user did anything, and honouring one would
    /// let a client take the clipboard whenever it liked.
    pub fn record_input_serial(&mut self, client_id: u32, serial: u32)
        ensures
            final(self)@ == old(self)@.record_input_serial(client_id, serial),
    {
        if let Some(serials) = self.input.recent_input_serials.get_mut(client_id) {
            push_newest(serials, serial, RECENT_INPUT_SERIALS);
        } else {
            let mut serials: Vec<u32> = Vec::new();
            proof {
                assert(serials@ =~= Seq::<u32>::empty());
            }
            push_newest(&mut serials, serial, RECENT_INPUT_SERIALS);
            self.input.recent_input_serials.insert(client_id, serials);
        }
    }

    /// Whether a serial a client quoted is one it was recently given.
    pub fn is_recent_input_serial(&self, client_id: u32, serial: u32) -> (r: bool)
        ensures
            r == self@.recent_input_serial(client_id, serial),
    {
        match self.input.recent_input_serials.get(client_id) {
            None => false,
            Some(serials) => {
                let mut i: usize = 0;
                while i < serials.len()
                    invariant
                        i <= serials@.len(),
                        self@.input.recent_input_serials.has(client_id),
                        self@.input.recent_input_serials.at(client_id) == serials@,
                        forall|j: int| 0 <= j < i ==> serials@[j] != serial,
                    decreases serials@.len() - i,
                {
                    if serials[i] == serial {
                        return true;
                    }
                    i += 1;
                }
                false
            },
        }
    }
}

} // verus!
