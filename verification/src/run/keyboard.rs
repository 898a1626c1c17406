//! What a key does.
use crate::protocol::messages::Notice;
use crate::state::compositor_state::{CompositorState, InputsView, StateView};
use crate::state::types::ModifierState;
use crate::table::{KeySet, set_put, set_without};
use vstd::prelude::*;

verus! {

/// The evdev code of the escape key.
pub const KEY_ESC: u32 = 1;

/// How far evdev codes are below the backend's.
pub const KEYCODE_OFFSET: u32 = 8;

/// What is to be done about a key next.
#[derive(Debug, Clone, Copy, PartialEq, Eq, Structural)]
pub enum KeyStep {
    /// Nothing
    Done,
    /// Ask the shell whether it takes the press
    Ask,
    /// Tell the client
    Deliver,
}

/// The evdev code of a backend's keycode.
pub open spec fn evdev(keycode: u32) -> u32 {
    if keycode < KEYCODE_OFFSET {
        0
    } else {
        (keycode - KEYCODE_OFFSET) as u32
    }
}

/// The evdev code of a backend's keycode.
pub fn evdev_key(keycode: u32) -> (r: u32)
    ensures
        r == evdev(keycode),
{
    if keycode < KEYCODE_OFFSET {
        0
    } else {
        keycode - KEYCODE_OFFSET
    }
}

impl StateView {
    /// With a key held or not, and what the modifiers are now.
    pub open spec fn note_key(self, key: u32, pressed: bool, modifiers: ModifierState) -> Self {
        StateView {
            input: InputsView {
                pressed_keys: if pressed {
                    set_put(self.input.pressed_keys, key)
                } else {
                    set_without(self.input.pressed_keys, key)
                },
                modifiers,
                ..self.input
            },
            ..self
        }
    }

    /// Whether a key press ends a drag.
    pub open spec fn escapes(self, key: u32, pressed: bool) -> bool {
        pressed && key == KEY_ESC && self.data.drag is Some
    }

    /// What is to be done about a key next: a press that ended a drag is done
    /// with, as is the release of a press that nobody was told of. Of any other
    /// press the shell is asked, and of any other release the client is told.
    pub open spec fn key_step(self, consumed: Seq<u32>, key: u32, pressed: bool) -> KeyStep {
        if self.escapes(key, pressed) {
            KeyStep::Done
        } else if pressed {
            KeyStep::Ask
        } else if consumed.contains(key) {
            KeyStep::Done
        } else {
            KeyStep::Deliver
        }
    }

    /// With a key pressed or released, before anyone is told.
    pub open spec fn start_key(self, key: u32, pressed: bool, modifiers: ModifierState) -> Self {
        let noted = self.note_key(key, pressed, modifiers);
        if self.escapes(key, pressed) {
            noted.cancel_drag()
        } else {
            noted
        }
    }

    /// The keys whose press nobody was told of, after a key is pressed or
    /// released.
    pub open spec fn consumed_after(self, consumed: Seq<u32>, key: u32, pressed: bool) -> Seq<u32> {
        if self.escapes(key, pressed) {
            set_put(consumed, key)
        } else if pressed {
            consumed
        } else {
            set_without(consumed, key)
        }
    }

    /// The keyboards of a client told of a key, and of the modifiers before it
    /// if they have changed, for the first few keyboards there are.
    pub open spec fn keyboards_told(
        self,
        client_id: u32,
        time: u32,
        key: u32,
        pressed: bool,
        modifiers_changed: bool,
        n: nat,
    ) -> Self
        decreases n,
    {
        if n == 0 || n > self.input.keyboards.len() {
            self
        } else {
            let before = self.keyboards_told(client_id, time, key, pressed, modifiers_changed, (n - 1) as nat);
            let k = self.input.keyboards[n - 1];
            if k.client_id == client_id {
                let modified = if modifiers_changed {
                    before.serial_taken().notice(
                        client_id,
                        Notice::KeyboardModifiers { serial: before.next_serial, keyboard: k.object_id },
                    )
                } else {
                    before
                };
                modified.serial_taken().notice(
                    client_id,
                    Notice::KeyboardKey { serial: modified.next_serial, time, keyboard: k.object_id, key, pressed },
                )
            } else {
                before
            }
        }
    }

    /// With the client that has the focus told of a key.
    pub open spec fn deliver_key(self, time: u32, key: u32, pressed: bool, modifiers_changed: bool) -> Self {
        match self.input.focused_surface {
            Some(s) => self.keyboards_told(s.0, time, key, pressed, modifiers_changed, self.input.keyboards.len()),
            None => self,
        }
    }
}

fn same_modifiers(a: ModifierState, b: ModifierState) -> (r: bool)
    ensures
        r == (a == b),
{
    a.depressed == b.depressed && a.latched == b.latched && a.locked == b.locked && a.group == b.group
}

fn note_key(state: &mut CompositorState, key: u32, pressed: bool, modifiers: ModifierState)
    ensures
        final(state)@ == old(state)@.note_key(key, pressed, modifiers),
{
    if pressed {
        state.input.pressed_keys.insert(key);
    } else {
        state.input.pressed_keys.remove(key);
    }
    state.input.modifiers = modifiers;
}

/// A key has been pressed or released, and leaves the modifiers as given.
/// `consumed` are the keys whose press was taken before the client could see
/// it; their release is swallowed too. Returns what to do next, and whether the
/// modifiers have changed.
pub fn start_key(
    state: &mut CompositorState,
    consumed: &mut KeySet<u32>,
    key: u32,
    pressed: bool,
    modifiers: ModifierState,
) -> (r: (KeyStep, bool))
    ensures
        final(state)@ == old(state)@.start_key(key, pressed, modifiers),
        final(consumed)@ == old(state)@.consumed_after(old(consumed)@, key, pressed),
        r.0 == old(state)@.key_step(old(consumed)@, key, pressed),
        r.1 == (old(state)@.input.modifiers != modifiers),
{
    let changed = !same_modifiers(state.input.modifiers, modifiers);
    note_key(state, key, pressed, modifiers);
    if pressed {
        if key == KEY_ESC && state.data.drag.is_some() {
            state.cancel_drag();
            consumed.insert(key);
            return (KeyStep::Done, changed);
        }
        return (KeyStep::Ask, changed);
    }
    if consumed.remove(key) {
        (KeyStep::Done, changed)
    } else {
        (KeyStep::Deliver, changed)
    }
}

/// Tell the client that has the focus of a key.
pub fn deliver_key(state: &mut CompositorState, time_ms: u32, key: u32, pressed: bool, modifiers_changed: bool)
    ensures
        final(state)@ == old(state)@.deliver_key(time_ms, key, pressed, modifiers_changed),
{
    let client_id: u32 = match state.input.focused_surface {
        Some(s) => s.0,
        None => {
            return;
        },
    };
    let n: usize = state.input.keyboards.len();
    let mut i: usize = 0;
    while i < n
        invariant
            i <= n,
            n == old(state)@.input.keyboards.len(),
            state@.input.keyboards == old(state)@.input.keyboards,
            state@ == old(state)@.keyboards_told(client_id, time_ms, key, pressed, modifiers_changed, i as nat),
        decreases n - i,
    {
        let k = state.input.keyboards[i];
        if k.client_id == client_id {
            if modifiers_changed {
                let serial = state.take_serial();
                state.notice(client_id, Notice::KeyboardModifiers { serial, keyboard: k.object_id });
            }
            let serial = state.take_serial();
            state.notice(
                client_id,
                Notice::KeyboardKey { serial, time: time_ms, keyboard: k.object_id, key, pressed },
            );
        }
        i += 1;
    }
}

/// The shell has answered whether it takes a press. If it does the client never
/// sees it, nor the matching release.
pub fn finish_key(
    state: &mut CompositorState,
    consumed: &mut KeySet<u32>,
    time_ms: u32,
    key: u32,
    modifiers_changed: bool,
    taken: bool,
)
    ensures
        final(state)@ == if taken {
            old(state)@
        } else {
            old(state)@.deliver_key(time_ms, key, true, modifiers_changed)
        },
        final(consumed)@ == if taken {
            set_put(old(consumed)@, key)
        } else {
            old(consumed)@
        },
{
    if taken {
        consumed.insert(key);
    } else {
        deliver_key(state, time_ms, key, true, modifiers_changed);
    }
}

} // verus!
