//! Parsing of config-file key and mouse combinations.
use crate::state::types::plus;
use crate::table::KeySet;
use vstd::prelude::*;
use vstd::string::*;

verus! {

/// A modifier key, matched on physical key rather than an xkb mask.
#[derive(Debug, Clone, Copy, PartialEq, Eq, Structural)]
pub enum Modifier {
    Shift,
    Ctrl,
    Alt,
    Super,
}

pub const KEY_LEFTSHIFT: u32 = 42;

pub const KEY_RIGHTSHIFT: u32 = 54;

pub const KEY_LEFTCTRL: u32 = 29;

pub const KEY_RIGHTCTRL: u32 = 97;

pub const KEY_LEFTALT: u32 = 56;

pub const KEY_RIGHTALT: u32 = 100;

pub const KEY_LEFTMETA: u32 = 125;

pub const KEY_RIGHTMETA: u32 = 126;

impl Modifier {
    /// The evdev keycodes of a modifier, left and right.
    pub open spec fn keys(self) -> (u32, u32) {
        match self {
            Modifier::Shift => (KEY_LEFTSHIFT, KEY_RIGHTSHIFT),
            Modifier::Ctrl => (KEY_LEFTCTRL, KEY_RIGHTCTRL),
            Modifier::Alt => (KEY_LEFTALT, KEY_RIGHTALT),
            Modifier::Super => (KEY_LEFTMETA, KEY_RIGHTMETA),
        }
    }

    /// Whether either key of a modifier is among those held.
    pub open spec fn down(self, pressed: Seq<u32>) -> bool {
        pressed.contains(self.keys().0) || pressed.contains(self.keys().1)
    }

    /// Whether either physical key for this modifier is currently held.
    pub fn held(self, pressed_keys: &KeySet<u32>) -> (r: bool)
        ensures
            r == self.down(pressed_keys@),
    {
        let (left, right) = match self {
            Modifier::Shift => (KEY_LEFTSHIFT, KEY_RIGHTSHIFT),
            Modifier::Ctrl => (KEY_LEFTCTRL, KEY_RIGHTCTRL),
            Modifier::Alt => (KEY_LEFTALT, KEY_RIGHTALT),
            Modifier::Super => (KEY_LEFTMETA, KEY_RIGHTMETA),
        };
        pressed_keys.contains(left) || pressed_keys.contains(right)
    }
}

/// A set of modifiers.
#[derive(Debug, Clone, Copy, PartialEq, Eq, Structural)]
pub struct Modifiers {
    pub shift: bool,
    pub ctrl: bool,
    pub alt: bool,
    pub logo: bool,
}

impl Modifiers {
    /// No modifiers.
    pub open spec fn none() -> Self {
        Modifiers { shift: false, ctrl: false, alt: false, logo: false }
    }

    /// Whether a modifier is in the set.
    pub open spec fn has(self, m: Modifier) -> bool {
        match m {
            Modifier::Shift => self.shift,
            Modifier::Ctrl => self.ctrl,
            Modifier::Alt => self.alt,
            Modifier::Super => self.logo,
        }
    }

    /// The set with a modifier.
    pub open spec fn plus(self, m: Modifier) -> Self {
        match m {
            Modifier::Shift => Modifiers { shift: true, ..self },
            Modifier::Ctrl => Modifiers { ctrl: true, ..self },
            Modifier::Alt => Modifiers { alt: true, ..self },
            Modifier::Super => Modifiers { logo: true, ..self },
        }
    }

    /// No modifiers
    pub fn empty() -> (r: Self)
        ensures
            r == Modifiers::none(),
    {
        Modifiers { shift: false, ctrl: false, alt: false, logo: false }
    }

    /// Whether a modifier is in the set
    pub fn contains(self, m: Modifier) -> (r: bool)
        ensures
            r == self.has(m),
    {
        match m {
            Modifier::Shift => self.shift,
            Modifier::Ctrl => self.ctrl,
            Modifier::Alt => self.alt,
            Modifier::Super => self.logo,
        }
    }

    /// Put a modifier into the set
    pub fn insert(&mut self, m: Modifier)
        ensures
            *final(self) == old(self).plus(m),
    {
        match m {
            Modifier::Shift => {
                self.shift = true;
            },
            Modifier::Ctrl => {
                self.ctrl = true;
            },
            Modifier::Alt => {
                self.alt = true;
            },
            Modifier::Super => {
                self.logo = true;
            },
        }
    }

    /// Whether every modifier of the set is held.
    pub open spec fn all_down(self, pressed: Seq<u32>) -> bool {
        forall|m: Modifier| self.has(m) ==> #[trigger] m.down(pressed)
    }

    fn all_held(self, pressed_keys: &KeySet<u32>) -> (r: bool)
        ensures
            r == self.all_down(pressed_keys@),
    {
        let r = (!self.shift || Modifier::Shift.held(pressed_keys)) && (!self.ctrl || Modifier::Ctrl.held(
            pressed_keys,
        )) && (!self.alt || Modifier::Alt.held(pressed_keys)) && (!self.logo || Modifier::Super.held(pressed_keys));
        proof {
            let p = pressed_keys@;
            if r {
                assert forall|m: Modifier| self.has(m) implies #[trigger] m.down(p) by {
                    match m {
                        Modifier::Shift => {},
                        Modifier::Ctrl => {},
                        Modifier::Alt => {},
                        Modifier::Super => {},
                    }
                }
            } else {
                assert((self.has(Modifier::Shift) && !Modifier::Shift.down(p)) || (self.has(Modifier::Ctrl)
                    && !Modifier::Ctrl.down(p)) || (self.has(Modifier::Alt) && !Modifier::Alt.down(p)) || (self.has(
                    Modifier::Super,
                ) && !Modifier::Super.down(p)));
            }
        }
        r
    }
}

/// A mouse button, as an evdev code.
#[derive(Debug, Clone, Copy, PartialEq, Eq, Structural)]
pub struct MouseButton(pub u32);

impl MouseButton {
    /// `BTN_LEFT`.
    pub const LEFT: u32 = 0x110;

    /// `BTN_RIGHT`.
    pub const RIGHT: u32 = 0x111;

    /// `BTN_MIDDLE`.
    pub const MIDDLE: u32 = 0x112;
}

/// Whether a character counts as blank at either end of a name.
pub open spec fn blank(c: char) -> bool {
    let n = c as u32;
    0x9 <= n <= 0xd || n == 0x20 || n == 0x85 || n == 0xa0 || n == 0x1680 || 0x2000 <= n <= 0x200a || n == 0x2028
        || n == 0x2029 || n == 0x202f || n == 0x205f || n == 0x3000
}

/// A text without the blanks in front.
pub open spec fn trimmed_front(s: Seq<char>) -> Seq<char>
    decreases s.len(),
{
    if s.len() > 0 && blank(s[0]) {
        trimmed_front(s.subrange(1, s.len() as int))
    } else {
        s
    }
}

/// A text without the blanks behind.
pub open spec fn trimmed_back(s: Seq<char>) -> Seq<char>
    decreases s.len(),
{
    if s.len() > 0 && blank(s.last()) {
        trimmed_back(s.drop_last())
    } else {
        s
    }
}

/// A text without the blanks at either end.
pub open spec fn trimmed(s: Seq<char>) -> Seq<char> {
    trimmed_back(trimmed_front(s))
}

/// What stands between the plus signs of a text.
pub open spec fn pieces(s: Seq<char>) -> Seq<Seq<char>>
    decreases s.len(),
{
    if s.len() == 0 {
        seq![Seq::empty()]
    } else {
        let before = pieces(s.drop_last());
        if s.last() == '+' {
            before.push(Seq::empty())
        } else {
            before.drop_last().push(before.last().push(s.last()))
        }
    }
}

/// A character with an ASCII capital made small.
pub open spec fn small(c: char) -> char {
    if 'A' <= c <= 'Z' {
        ((c as u8) + 32) as u8 as char
    } else {
        c
    }
}

/// A character with a small ASCII letter made a capital.
pub open spec fn capital(c: char) -> char {
    if 'a' <= c <= 'z' {
        ((c as u8) - 32) as u8 as char
    } else {
        c
    }
}

/// A text with its ASCII capitals made small.
pub open spec fn smalls(s: Seq<char>) -> Seq<char> {
    s.map_values(|c: char| small(c))
}

/// A text with its small ASCII letters made capitals.
pub open spec fn capitals(s: Seq<char>) -> Seq<char> {
    s.map_values(|c: char| capital(c))
}

/// The modifier a small-letter name stands for.
pub open spec fn modifier_named(u: Seq<char>) -> Option<Modifier> {
    if u == "shift"@ {
        Some(Modifier::Shift)
    } else if u == "ctrl"@ {
        Some(Modifier::Ctrl)
    } else if u == "control"@ {
        Some(Modifier::Ctrl)
    } else if u == "alt"@ {
        Some(Modifier::Alt)
    } else if u == "super"@ {
        Some(Modifier::Super)
    } else if u == "logo"@ {
        Some(Modifier::Super)
    } else if u == "meta"@ {
        Some(Modifier::Super)
    } else if u == "win"@ {
        Some(Modifier::Super)
    } else {
        None
    }
}

/// The key of a letter or a digit.
pub open spec fn character_key(c: char) -> Option<u32> {
    match c {
        'A' => Some(30),
        'B' => Some(48),
        'C' => Some(46),
        'D' => Some(32),
        'E' => Some(18),
        'F' => Some(33),
        'G' => Some(34),
        'H' => Some(35),
        'I' => Some(23),
        'J' => Some(36),
        'K' => Some(37),
        'L' => Some(38),
        'M' => Some(50),
        'N' => Some(49),
        'O' => Some(24),
        'P' => Some(25),
        'Q' => Some(16),
        'R' => Some(19),
        'S' => Some(31),
        'T' => Some(20),
        'U' => Some(22),
        'V' => Some(47),
        'W' => Some(17),
        'X' => Some(45),
        'Y' => Some(21),
        'Z' => Some(44),
        '0' => Some(11),
        '1' => Some(2),
        '2' => Some(3),
        '3' => Some(4),
        '4' => Some(5),
        '5' => Some(6),
        '6' => Some(7),
        '7' => Some(8),
        '8' => Some(9),
        '9' => Some(10),
        _ => None,
    }
}

/// The key of a function key's name.
pub open spec fn function_key(u: Seq<char>) -> Option<u32> {
    if u == "F1"@ {
        Some(59)
    } else if u == "F2"@ {
        Some(60)
    } else if u == "F3"@ {
        Some(61)
    } else if u == "F4"@ {
        Some(62)
    } else if u == "F5"@ {
        Some(63)
    } else if u == "F6"@ {
        Some(64)
    } else if u == "F7"@ {
        Some(65)
    } else if u == "F8"@ {
        Some(66)
    } else if u == "F9"@ {
        Some(67)
    } else if u == "F10"@ {
        Some(68)
    } else if u == "F11"@ {
        Some(87)
    } else if u == "F12"@ {
        Some(88)
    } else {
        None
    }
}

/// The key of an editing key's name.
pub open spec fn editing_key(u: Seq<char>) -> Option<u32> {
    if u == "TAB"@ {
        Some(15)
    } else if u == "ESC"@ {
        Some(1)
    } else if u == "ESCAPE"@ {
        Some(1)
    } else if u == "SPACE"@ {
        Some(57)
    } else if u == "ENTER"@ {
        Some(28)
    } else if u == "RETURN"@ {
        Some(28)
    } else if u == "BACKSPACE"@ {
        Some(14)
    } else if u == "INSERT"@ {
        Some(110)
    } else if u == "DELETE"@ {
        Some(111)
    } else {
        None
    }
}

/// The key of a navigation key's name.
pub open spec fn navigation_key(u: Seq<char>) -> Option<u32> {
    if u == "HOME"@ {
        Some(102)
    } else if u == "END"@ {
        Some(107)
    } else if u == "PAGEUP"@ {
        Some(104)
    } else if u == "PAGEDOWN"@ {
        Some(109)
    } else if u == "UP"@ {
        Some(103)
    } else if u == "DOWN"@ {
        Some(108)
    } else if u == "LEFT"@ {
        Some(105)
    } else if u == "RIGHT"@ {
        Some(106)
    } else {
        None
    }
}

/// The evdev code of a key, by its name in capitals.
pub open spec fn key_named(u: Seq<char>) -> Option<u32> {
    if u.len() == 1 {
        character_key(u[0])
    } else if function_key(u) is Some {
        function_key(u)
    } else if editing_key(u) is Some {
        editing_key(u)
    } else {
        navigation_key(u)
    }
}

/// The evdev code of a mouse button, by its name in capitals.
pub open spec fn button_named(u: Seq<char>) -> Option<u32> {
    if u == "LEFT"@ {
        Some(0x110)
    } else if u == "LEFTCLICK"@ {
        Some(0x110)
    } else if u == "RIGHT"@ {
        Some(0x111)
    } else if u == "RIGHTCLICK"@ {
        Some(0x111)
    } else if u == "MIDDLE"@ {
        Some(0x112)
    } else if u == "MIDDLECLICK"@ {
        Some(0x112)
    } else {
        None
    }
}

/// What is wrong with a combination.
pub enum Fault {
    /// A part is empty
    Empty,
    /// More than one part is not a modifier
    Many,
    /// Every part is a modifier
    Missing,
}

/// What parts of a combination come to: its modifiers, and the one part that
/// is none, or the first thing wrong.
pub open spec fn combined(parts: Seq<Seq<char>>) -> Result<(Modifiers, Option<Seq<char>>), Fault>
    decreases parts.len(),
{
    if parts.len() == 0 {
        Ok((Modifiers::none(), None))
    } else {
        match combined(parts.drop_last()) {
            Err(e) => Err(e),
            Ok((m, t)) => {
                let part = trimmed(parts.last());
                if part.len() == 0 {
                    Err(Fault::Empty)
                } else {
                    match modifier_named(smalls(part)) {
                        Some(x) => Ok((m.plus(x), t)),
                        None => if t is Some {
                            Err(Fault::Many)
                        } else {
                            Ok((m, Some(part)))
                        },
                    }
                }
            },
        }
    }
}

/// The modifiers and the trigger of a combination.
pub open spec fn split_of(spec: Seq<char>) -> Result<(Modifiers, Seq<char>), Fault> {
    match combined(pieces(spec)) {
        Err(e) => Err(e),
        Ok((m, Some(t))) => Ok((m, t)),
        Ok((m, None)) => Err(Fault::Missing),
    }
}

/// What is said of a fault.
pub open spec fn fault_text(e: Fault, spec: Seq<char>) -> Seq<char> {
    match e {
        Fault::Empty => "empty part in keybind \""@ + spec + "\""@,
        Fault::Many => "more than one key in keybind \""@ + spec + "\""@,
        Fault::Missing => "keybind \""@ + spec + "\" names no key, only modifiers"@,
    }
}

/// What is said of a trigger nobody knows.
pub open spec fn unknown_text(what: Seq<char>, name: Seq<char>, spec: Seq<char>) -> Seq<char> {
    what + name + "\" in keybind \""@ + spec + "\""@
}

fn is_blank(c: char) -> (r: bool)
    ensures
        r == blank(c),
{
    let n: u32 = c as u32;
    (0x9 <= n && n <= 0xd) || n == 0x20 || n == 0x85 || n == 0xa0 || n == 0x1680 || (0x2000 <= n && n <= 0x200a) || n
        == 0x2028 || n == 0x2029 || n == 0x202f || n == 0x205f || n == 0x3000
}

fn trim(s: &str) -> (r: &str)
    ensures
        r@ == trimmed(s@),
{
    let n: usize = s.unicode_len();
    let mut a: usize = 0;
    proof {
        assert(s@.subrange(0, n as int) =~= s@);
    }
    while a < n && is_blank(s.get_char(a))
        invariant
            a <= n,
            n == s@.len(),
            trimmed_front(s@) == trimmed_front(s@.subrange(a as int, n as int)),
        decreases n - a,
    {
        proof {
            let rest = s@.subrange(a as int, n as int);
            assert(rest.subrange(1, rest.len() as int) =~= s@.subrange(a + 1, n as int));
        }
        a += 1;
    }
    let mut b: usize = n;
    let ghost front = s@.subrange(a as int, n as int);
    proof {
        assert(trimmed_front(s@) == front);
        assert(front.take(front.len() as int) =~= front);
    }
    while a < b && is_blank(s.get_char(b - 1))
        invariant
            a <= b <= n,
            n == s@.len(),
            trimmed(s@) == trimmed_back(s@.subrange(a as int, b as int)),
        decreases b,
    {
        proof {
            assert(s@.subrange(a as int, b as int).drop_last() =~= s@.subrange(a as int, b - 1));
        }
        b -= 1;
    }
    s.substring_char(a, b)
}

/// What texts hold.
pub open spec fn texts_view(v: Seq<&str>) -> Seq<Seq<char>> {
    v.map_values(|s: &str| s@)
}

fn split(s: &str) -> (r: Vec<&str>)
    ensures
        texts_view(r@) == pieces(s@),
{
    let n: usize = s.unicode_len();
    let mut parts: Vec<&str> = Vec::new();
    let mut start: usize = 0;
    let mut i: usize = 0;
    proof {
        assert(s@.subrange(0, 0) =~= Seq::<char>::empty());
        assert(texts_view(parts@).push(s@.subrange(0, 0)) =~= pieces(s@.take(0)));
    }
    while i < n
        invariant
            start <= i <= n,
            n == s@.len(),
            texts_view(parts@).push(s@.subrange(start as int, i as int)) == pieces(s@.take(i as int)),
        decreases n - i,
    {
        proof {
            assert(s@.take(i + 1).drop_last() =~= s@.take(i as int));
        }
        let ghost before = texts_view(parts@);
        if s.get_char(i) == '+' {
            let piece = s.substring_char(start, i);
            parts.push(piece);
            start = i + 1;
            proof {
                assert(texts_view(parts@) =~= before.push(piece@));
                assert(s@.subrange(start as int, i + 1) =~= Seq::<char>::empty());
            }
        } else {
            proof {
                let piece = s@.subrange(start as int, i as int);
                assert(s@.subrange(start as int, i + 1) =~= piece.push(s@[i as int]));
                assert(before.push(piece).drop_last() =~= before);
            }
        }
        i += 1;
    }
    let piece = s.substring_char(start, n);
    let ghost before = texts_view(parts@);
    parts.push(piece);
    proof {
        assert(texts_view(parts@) =~= before.push(piece@));
        assert(s@.take(n as int) =~= s@);
    }
    parts
}

fn to_small(c: char) -> (r: char)
    ensures
        r == small(c),
{
    if 'A' <= c && c <= 'Z' {
        ((c as u8) + 32) as char
    } else {
        c
    }
}

fn to_capital(c: char) -> (r: char)
    ensures
        r == capital(c),
{
    if 'a' <= c && c <= 'z' {
        ((c as u8) - 32) as char
    } else {
        c
    }
}

fn small_is(s: &str, name: &str) -> (r: bool)
    ensures
        r == (smalls(s@) == name@),
{
    let n: usize = s.unicode_len();
    if n != name.unicode_len() {
        return false;
    }
    let mut i: usize = 0;
    while i < n
        invariant
            i <= n,
            n == s@.len(),
            n == name@.len(),
            forall|j: int| 0 <= j < i ==> #[trigger] small(s@[j]) == name@[j],
        decreases n - i,
    {
        if to_small(s.get_char(i)) != name.get_char(i) {
            proof {
                assert(smalls(s@)[i as int] != name@[i as int]);
            }
            return false;
        }
        i += 1;
    }
    proof {
        assert(smalls(s@) =~= name@);
    }
    true
}

fn capital_is(s: &str, name: &str) -> (r: bool)
    ensures
        r == (capitals(s@) == name@),
{
    let n: usize = s.unicode_len();
    if n != name.unicode_len() {
        return false;
    }
    let mut i: usize = 0;
    while i < n
        invariant
            i <= n,
            n == s@.len(),
            n == name@.len(),
            forall|j: int| 0 <= j < i ==> #[trigger] capital(s@[j]) == name@[j],
        decreases n - i,
    {
        if to_capital(s.get_char(i)) != name.get_char(i) {
            proof {
                assert(capitals(s@)[i as int] != name@[i as int]);
            }
            return false;
        }
        i += 1;
    }
    proof {
        assert(capitals(s@) =~= name@);
    }
    true
}

fn modifier_by_name(name: &str) -> (r: Option<Modifier>)
    ensures
        r == modifier_named(smalls(name@)),
{
    if small_is(name, "shift") {
        Some(Modifier::Shift)
    } else if small_is(name, "ctrl") {
        Some(Modifier::Ctrl)
    } else if small_is(name, "control") {
        Some(Modifier::Ctrl)
    } else if small_is(name, "alt") {
        Some(Modifier::Alt)
    } else if small_is(name, "super") {
        Some(Modifier::Super)
    } else if small_is(name, "logo") {
        Some(Modifier::Super)
    } else if small_is(name, "meta") {
        Some(Modifier::Super)
    } else if small_is(name, "win") {
        Some(Modifier::Super)
    } else {
        None
    }
}

fn character_code(c: char) -> (r: Option<u32>)
    ensures
        r == character_key(c),
{
    match c {
        'A' => Some(30),
        'B' => Some(48),
        'C' => Some(46),
        'D' => Some(32),
        'E' => Some(18),
        'F' => Some(33),
        'G' => Some(34),
        'H' => Some(35),
        'I' => Some(23),
        'J' => Some(36),
        'K' => Some(37),
        'L' => Some(38),
        'M' => Some(50),
        'N' => Some(49),
        'O' => Some(24),
        'P' => Some(25),
        'Q' => Some(16),
        'R' => Some(19),
        'S' => Some(31),
        'T' => Some(20),
        'U' => Some(22),
        'V' => Some(47),
        'W' => Some(17),
        'X' => Some(45),
        'Y' => Some(21),
        'Z' => Some(44),
        '0' => Some(11),
        '1' => Some(2),
        '2' => Some(3),
        '3' => Some(4),
        '4' => Some(5),
        '5' => Some(6),
        '6' => Some(7),
        '7' => Some(8),
        '8' => Some(9),
        '9' => Some(10),
        _ => None,
    }
}

fn function_code(name: &str) -> (r: Option<u32>)
    ensures
        r == function_key(capitals(name@)),
{
    if capital_is(name, "F1") {
        Some(59)
    } else if capital_is(name, "F2") {
        Some(60)
    } else if capital_is(name, "F3") {
        Some(61)
    } else if capital_is(name, "F4") {
        Some(62)
    } else if capital_is(name, "F5") {
        Some(63)
    } else if capital_is(name, "F6") {
        Some(64)
    } else if capital_is(name, "F7") {
        Some(65)
    } else if capital_is(name, "F8") {
        Some(66)
    } else if capital_is(name, "F9") {
        Some(67)
    } else if capital_is(name, "F10") {
        Some(68)
    } else if capital_is(name, "F11") {
        Some(87)
    } else if capital_is(name, "F12") {
        Some(88)
    } else {
        None
    }
}

fn editing_code(name: &str) -> (r: Option<u32>)
    ensures
        r == editing_key(capitals(name@)),
{
    if capital_is(name, "TAB") {
        Some(15)
    } else if capital_is(name, "ESC") {
        Some(1)
    } else if capital_is(name, "ESCAPE") {
        Some(1)
    } else if capital_is(name, "SPACE") {
        Some(57)
    } else if capital_is(name, "ENTER") {
        Some(28)
    } else if capital_is(name, "RETURN") {
        Some(28)
    } else if capital_is(name, "BACKSPACE") {
        Some(14)
    } else if capital_is(name, "INSERT") {
        Some(110)
    } else if capital_is(name, "DELETE") {
        Some(111)
    } else {
        None
    }
}

fn navigation_code(name: &str) -> (r: Option<u32>)
    ensures
        r == navigation_key(capitals(name@)),
{
    if capital_is(name, "HOME") {
        Some(102)
    } else if capital_is(name, "END") {
        Some(107)
    } else if capital_is(name, "PAGEUP") {
        Some(104)
    } else if capital_is(name, "PAGEDOWN") {
        Some(109)
    } else if capital_is(name, "UP") {
        Some(103)
    } else if capital_is(name, "DOWN") {
        Some(108)
    } else if capital_is(name, "LEFT") {
        Some(105)
    } else if capital_is(name, "RIGHT") {
        Some(106)
    } else {
        None
    }
}

/// Look up a key by the name a user would type in a config file.
pub fn key_by_name(name: &str) -> (r: Option<u32>)
    ensures
        r == key_named(capitals(name@)),
{
    if name.unicode_len() == 1 {
        return character_code(to_capital(name.get_char(0)));
    }
    let found = function_code(name);
    if found.is_some() {
        return found;
    }
    let found = editing_code(name);
    if found.is_some() {
        return found;
    }
    navigation_code(name)
}

/// Look up a mouse button by the name a user would type in a config file.
pub fn button_by_name(name: &str) -> (r: Option<MouseButton>)
    ensures
        match r {
            Some(b) => button_named(capitals(name@)) == Some(b.0),
            None => button_named(capitals(name@)) is None,
        },
{
    if capital_is(name, "LEFT") {
        Some(MouseButton(MouseButton::LEFT))
    } else if capital_is(name, "LEFTCLICK") {
        Some(MouseButton(MouseButton::LEFT))
    } else if capital_is(name, "RIGHT") {
        Some(MouseButton(MouseButton::RIGHT))
    } else if capital_is(name, "RIGHTCLICK") {
        Some(MouseButton(MouseButton::RIGHT))
    } else if capital_is(name, "MIDDLE") {
        Some(MouseButton(MouseButton::MIDDLE))
    } else if capital_is(name, "MIDDLECLICK") {
        Some(MouseButton(MouseButton::MIDDLE))
    } else {
        None
    }
}

fn quoted(head: &str, spec: &str, tail: &str) -> (r: String)
    ensures
        r@ == head@ + spec@ + tail@,
{
    let mut r = String::from_str(head);
    r.append(spec);
    r.append(tail);
    r
}

fn unknown(what: &str, name: &str, spec: &str) -> (r: String)
    ensures
        r@ == unknown_text(what@, name@, spec@),
{
    let mut r = String::from_str(what);
    r.append(name);
    r.append("\" in keybind \"");
    r.append(spec);
    r.append("\"");
    r
}

/// Split a combo string into its modifiers and the trigger.
pub fn split_modifiers(spec: &str) -> (r: Result<(Modifiers, &str), String>)
    ensures
        match r {
            Ok((m, t)) => split_of(spec@) == Ok::<(Modifiers, Seq<char>), Fault>((m, t@)),
            Err(text) => split_of(spec@) is Err && text@ == fault_text(split_of(spec@)->Err_0, spec@),
        },
{
    let parts = split(spec);
    let ghost all = pieces(spec@);
    let mut modifiers = Modifiers::empty();
    let mut trigger: Option<&str> = None;
    let mut i: usize = 0;
    while i < parts.len()
        invariant
            i <= parts@.len(),
            all == pieces(spec@),
            all == texts_view(parts@),
            combined(all.take(i as int)) == Ok::<(Modifiers, Option<Seq<char>>), Fault>(
                (
                    modifiers,
                    match trigger {
                        Some(t) => Some(t@),
                        None => None,
                    },
                ),
            ),
        decreases parts@.len() - i,
    {
        proof {
            assert(all.take(i + 1).drop_last() =~= all.take(i as int));
            assert(all.take(i + 1).last() == parts@[i as int]@);
        }
        let part = trim(parts[i]);
        if part.unicode_len() == 0 {
            proof {
                lemma_fault_stays(all, i + 1);
            }
            return Err(quoted("empty part in keybind \"", spec, "\""));
        }
        if let Some(m) = modifier_by_name(part) {
            modifiers.insert(m);
        } else if trigger.is_some() {
            proof {
                lemma_fault_stays(all, i + 1);
            }
            return Err(quoted("more than one key in keybind \"", spec, "\""));
        } else {
            trigger = Some(part);
        }
        i += 1;
    }
    proof {
        assert(all.take(i as int) =~= all);
    }
    match trigger {
        Some(t) => Ok((modifiers, t)),
        None => Err(quoted("keybind \"", spec, "\" names no key, only modifiers")),
    }
}

/// Parts that come after the first thing wrong change nothing.
proof fn lemma_fault_stays(parts: Seq<Seq<char>>, n: int)
    requires
        0 <= n <= parts.len(),
        combined(parts.take(n)) is Err,
    ensures
        combined(parts) == combined(parts.take(n)),
    decreases parts.len(),
{
    if n < parts.len() {
        assert(parts.drop_last().take(n) =~= parts.take(n));
        lemma_fault_stays(parts.drop_last(), n);
    } else {
        assert(parts.take(n) =~= parts);
    }
}

/// A modifier set plus one key, parsed from a config string like `"Alt+F4"`.
#[derive(Debug, Clone, Copy, PartialEq, Eq)]
pub struct KeyCombo {
    pub modifiers: Modifiers,
    pub key: u32,
}

impl KeyCombo {
    /// What a combo string means.
    pub open spec fn parsed(spec: Seq<char>) -> Option<KeyCombo> {
        match split_of(spec) {
            Ok((modifiers, name)) => match key_named(capitals(name)) {
                Some(key) => Some(KeyCombo { modifiers, key }),
                None => None,
            },
            Err(_) => None,
        }
    }

    /// Whether a key press satisfies the combo, with some keys held.
    pub open spec fn satisfied(self, evdev_key: u32, pressed: Seq<u32>) -> bool {
        evdev_key == self.key && self.modifiers.all_down(pressed)
    }

    /// What is said of a combo string that means nothing.
    pub open spec fn complaint(spec: Seq<char>) -> Seq<char> {
        match split_of(spec) {
            Ok((modifiers, name)) => unknown_text("unknown key \""@, name, spec),
            Err(e) => fault_text(e, spec),
        }
    }

    /// Parse a combo string: modifier names and one key name, joined by `+`,
    /// in any order and case-insensitive (`"Alt+F4"`, `"ctrl+shift+q"`).
    pub fn parse(spec: &str) -> (r: Result<Self, String>)
        ensures
            match r {
                Ok(combo) => KeyCombo::parsed(spec@) == Some(combo),
                Err(text) => KeyCombo::parsed(spec@) is None && text@ == KeyCombo::complaint(spec@),
            },
    {
        let (modifiers, name) = match split_modifiers(spec) {
            Ok(found) => found,
            Err(e) => {
                return Err(e);
            },
        };
        match key_by_name(name) {
            Some(key) => Ok(KeyCombo { modifiers, key }),
            None => Err(unknown("unknown key \"", name, spec)),
        }
    }

    /// Whether this combo is satisfied by a key press: `evdev_key` is this
    /// combo's key, and every modifier it names is currently held.
    pub fn matches(self, evdev_key: u32, pressed_keys: &KeySet<u32>) -> (r: bool)
        ensures
            r == self.satisfied(evdev_key, pressed_keys@),
    {
        evdev_key == self.key && self.modifiers.all_held(pressed_keys)
    }
}

/// A modifier set plus one mouse button, parsed from a config string like
/// `"Alt+LeftClick"`.
#[derive(Debug, Clone, Copy, PartialEq, Eq)]
pub struct MouseCombo {
    pub modifiers: Modifiers,
    pub button: MouseButton,
}

impl MouseCombo {
    /// What a combo string means.
    pub open spec fn parsed(spec: Seq<char>) -> Option<MouseCombo> {
        match split_of(spec) {
            Ok((modifiers, name)) => match button_named(capitals(name)) {
                Some(code) => Some(MouseCombo { modifiers, button: MouseButton(code) }),
                None => None,
            },
            Err(_) => None,
        }
    }

    /// Whether a button press satisfies the combo, with some keys held.
    pub open spec fn satisfied(self, button: MouseButton, pressed: Seq<u32>) -> bool {
        button == self.button && self.modifiers.all_down(pressed)
    }

    /// What is said of a combo string that means nothing.
    pub open spec fn complaint(spec: Seq<char>) -> Seq<char> {
        match split_of(spec) {
            Ok((modifiers, name)) => unknown_text("unknown mouse button \""@, name, spec),
            Err(e) => fault_text(e, spec),
        }
    }

    /// Parse a combo string the same way [`KeyCombo::parse`] does, but with a
    /// mouse button instead of a key.
    pub fn parse(spec: &str) -> (r: Result<Self, String>)
        ensures
            match r {
                Ok(combo) => MouseCombo::parsed(spec@) == Some(combo),
                Err(text) => MouseCombo::parsed(spec@) is None && text@ == MouseCombo::complaint(spec@),
            },
    {
        let (modifiers, name) = match split_modifiers(spec) {
            Ok(found) => found,
            Err(e) => {
                return Err(e);
            },
        };
        match button_by_name(name) {
            Some(button) => Ok(MouseCombo { modifiers, button }),
            None => Err(unknown("unknown mouse button \"", name, spec)),
        }
    }

    /// Whether this combo is satisfied by a button press and modifier keys
    pub fn matches(self, button: MouseButton, pressed_keys: &KeySet<u32>) -> (r: bool)
        ensures
            r == self.satisfied(button, pressed_keys@),
    {
        button == self.button && self.modifiers.all_held(pressed_keys)
    }
}

} // verus!
