//! The compositor's keyboard: the keymap every client is handed, and the
//! modifier masks a key leaves.
//!
//! This belongs to the compositor, not the backend. A keymap and the modifier
//! state derived from it have to agree, and only one of them can be
//! authoritative. So a backend reports only which physical key moved, and the
//! xkb state kept beside this works out what it means.
use crate::state::types::ModifierState;
use vstd::prelude::*;
use vstd::string::*;

verus! {

impl ModifierState {
    /// No modifier at all.
    pub open spec fn clear() -> Self {
        ModifierState { depressed: 0, latched: 0, locked: 0, group: 0 }
    }
}

/// The compositor's keyboard.
pub struct Keyboard {
    /// The keymap as text, generated once and sent to every client. `None` if
    /// none could be compiled, in which case clients are sent no keymap and the
    /// modifiers stay clear.
    keymap_string: Option<String>,
}

impl View for Keyboard {
    type V = Option<Seq<char>>;

    closed spec fn view(&self) -> Option<Seq<char>> {
        match self.keymap_string {
            Some(s) => Some(s@),
            None => None,
        }
    }
}

/// Whether a keymap is to be compiled again, without options.
///
/// An option xkb does not recognise it ignores on its own; should the options
/// break compilation outright, the plain keymap is used rather than none at
/// all - a broken option string should cost the options, not the whole
/// keyboard.
pub fn needs_plain_keymap(compiled: bool, xkb_options: Option<&str>) -> (r: bool)
    ensures
        r == (!compiled && xkb_options is Some),
{
    !compiled && xkb_options.is_some()
}

impl Keyboard {
    /// A keyboard with the keymap that compiled, if one did. A keymap that says
    /// nothing is none.
    pub fn new(keymap: Option<String>) -> (r: Self)
        ensures
            r@ == match keymap {
                Some(s) => if s@.len() == 0 {
                    None
                } else {
                    Some(s@)
                },
                None => None,
            },
    {
        let keymap_string: Option<String> = match keymap {
            Some(s) => if s.as_str().unicode_len() == 0 {
                None
            } else {
                Some(s)
            },
            None => None,
        };
        Keyboard { keymap_string }
    }

    /// The keymap text handed to clients, if one compiled.
    pub fn keymap_string(&self) -> (r: Option<&str>)
        ensures
            match r {
                Some(s) => self@ == Some(s@),
                None => self@ is None,
            },
    {
        match &self.keymap_string {
            Some(s) => Some(s.as_str()),
            None => None,
        }
    }

    /// The four masks after a key, from what the xkb state makes of it.
    ///
    /// With no keymap there is no xkb state, and the modifiers are clear, which
    /// is what a keyboard with nothing to map should report.
    pub fn update_key(masks: Option<ModifierState>) -> (r: ModifierState)
        ensures
            r == match masks {
                Some(m) => m,
                None => ModifierState::clear(),
            },
    {
        match masks {
            Some(m) => m,
            None => ModifierState { depressed: 0, latched: 0, locked: 0, group: 0 },
        }
    }
}

} // verus!
