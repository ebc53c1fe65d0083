//! Key codes, key combinations, and the pressed state of the modifier keys.
//!
//! A key is identified by its kernel input-event code. Each of the four
//! modifiers (shift, control, alt, super) exists as a left and a right
//! physical key; the engine tracks both sides independently and matches
//! bindings on the combined (left-or-right) state.

use vstd::prelude::*;

verus! {

/// Input-event value of a key release.
pub const RELEASE: i32 = 0;

/// Input-event value of a key press.
pub const PRESS: i32 = 1;

/// Input-event value of a key auto-repeat.
pub const REPEAT: i32 = 2;

/// Kernel input-event code of the left shift key.
pub const KEY_LEFTSHIFT: u16 = 42;

/// Kernel input-event code of the right shift key.
pub const KEY_RIGHTSHIFT: u16 = 54;

/// Kernel input-event code of the left control key.
pub const KEY_LEFTCTRL: u16 = 29;

/// Kernel input-event code of the right control key.
pub const KEY_RIGHTCTRL: u16 = 97;

/// Kernel input-event code of the left alt key.
pub const KEY_LEFTALT: u16 = 56;

/// Kernel input-event code of the right alt key.
pub const KEY_RIGHTALT: u16 = 100;

/// Kernel input-event code of the left super (meta) key.
pub const KEY_LEFTMETA: u16 = 125;

/// Kernel input-event code of the right super (meta) key.
pub const KEY_RIGHTMETA: u16 = 126;

/// One of the four modifiers a key combination can require.
#[derive(Debug, Clone, Copy, PartialEq, Eq, Structural)]
pub enum Modifier {
    Shift,
    Control,
    Alt,
    Windows,
}

/// A physical key together with the exact modifier flags it is matched
/// under. Equality is structural over all five fields.
#[derive(Debug, Clone, Copy, PartialEq, Eq, Structural)]
pub struct KeyCombo {
    pub key: u16,
    pub shift: bool,
    pub control: bool,
    pub alt: bool,
    pub windows: bool,
}

/// A key press or release as it is written to the output device:
/// a key code and a value (0 = release, 1 = press, 2 = repeat).
#[derive(Debug, Clone, Copy, PartialEq, Eq, Structural)]
pub struct KeyEvent {
    pub code: u16,
    pub value: i32,
}

/// Pressed state of the left and the right key of one modifier.
#[derive(Debug, Clone, Copy, PartialEq, Eq, Structural)]
pub struct ModifierPair {
    pub left: bool,
    pub right: bool,
}

/// Pressed state of all eight modifier keys.
#[derive(Debug, Clone, Copy, PartialEq, Eq, Structural)]
pub struct ModifierState {
    pub shift: ModifierPair,
    pub control: ModifierPair,
    pub alt: ModifierPair,
    pub windows: ModifierPair,
}

impl ModifierPair {
    /// A modifier counts as held when either of its sides is down.
    pub open spec fn combined(self) -> bool {
        self.left || self.right
    }

    pub open spec fn released() -> ModifierPair {
        ModifierPair { left: false, right: false }
    }
}

impl ModifierState {
    /// All eight modifier keys released, the state at startup.
    pub open spec fn all_released() -> ModifierState {
        ModifierState {
            shift: ModifierPair::released(),
            control: ModifierPair::released(),
            alt: ModifierPair::released(),
            windows: ModifierPair::released(),
        }
    }

    pub open spec fn pair(self, m: Modifier) -> ModifierPair {
        match m {
            Modifier::Shift => self.shift,
            Modifier::Control => self.control,
            Modifier::Alt => self.alt,
            Modifier::Windows => self.windows,
        }
    }

    pub open spec fn with_pair(self, m: Modifier, p: ModifierPair) -> ModifierState {
        match m {
            Modifier::Shift => ModifierState { shift: p, ..self },
            Modifier::Control => ModifierState { control: p, ..self },
            Modifier::Alt => ModifierState { alt: p, ..self },
            Modifier::Windows => ModifierState { windows: p, ..self },
        }
    }

    /// The exact key combination a pressed key forms under this modifier
    /// state: each flag is the combined left-or-right state, so combos
    /// differing only in which side is held are identical.
    pub open spec fn combo_for(self, code: u16) -> KeyCombo {
        KeyCombo {
            key: code,
            shift: self.shift.combined(),
            control: self.control.combined(),
            alt: self.alt.combined(),
            windows: self.windows.combined(),
        }
    }
}

impl ModifierState {
    /// Whether a modifier counts as held: either of its sides is down.
    pub fn combined(&self, m: Modifier) -> (r: bool)
        ensures
            r == self.pair(m).combined(),
    {
        match m {
            Modifier::Shift => self.shift.left || self.shift.right,
            Modifier::Control => self.control.left || self.control.right,
            Modifier::Alt => self.alt.left || self.alt.right,
            Modifier::Windows => self.windows.left || self.windows.right,
        }
    }

    /// The pressed state of a modifier's left and right key.
    pub fn dual(&self, m: Modifier) -> (r: (bool, bool))
        ensures
            r.0 == self.pair(m).left,
            r.1 == self.pair(m).right,
    {
        match m {
            Modifier::Shift => (self.shift.left, self.shift.right),
            Modifier::Control => (self.control.left, self.control.right),
            Modifier::Alt => (self.alt.left, self.alt.right),
            Modifier::Windows => (self.windows.left, self.windows.right),
        }
    }
}

impl Default for ModifierState {
    /// The startup state: every modifier key released.
    fn default() -> (r: ModifierState)
        ensures
            r == ModifierState::all_released(),
    {
        ModifierState {
            shift: ModifierPair { left: false, right: false },
            control: ModifierPair { left: false, right: false },
            alt: ModifierPair { left: false, right: false },
            windows: ModifierPair { left: false, right: false },
        }
    }
}

/// Whether `code` is one of the eight modifier keys the engine tracks.
pub open spec fn spec_is_modifier_code(code: u16) -> bool {
    code == KEY_LEFTSHIFT || code == KEY_RIGHTSHIFT || code == KEY_LEFTCTRL || code
        == KEY_RIGHTCTRL || code == KEY_LEFTALT || code == KEY_RIGHTALT || code == KEY_LEFTMETA
        || code == KEY_RIGHTMETA
}

/// Whether `code` is one of the eight modifier keys the engine tracks.
#[verifier::when_used_as_spec(spec_is_modifier_code)]
pub fn is_modifier_code(code: u16) -> (r: bool)
    ensures
        r == spec_is_modifier_code(code),
{
    code == KEY_LEFTSHIFT || code == KEY_RIGHTSHIFT || code == KEY_LEFTCTRL || code
        == KEY_RIGHTCTRL || code == KEY_LEFTALT || code == KEY_RIGHTALT || code == KEY_LEFTMETA
        || code == KEY_RIGHTMETA
}

/// Code of the left-hand key of a modifier.
pub open spec fn spec_left_code(m: Modifier) -> u16 {
    match m {
        Modifier::Shift => KEY_LEFTSHIFT,
        Modifier::Control => KEY_LEFTCTRL,
        Modifier::Alt => KEY_LEFTALT,
        Modifier::Windows => KEY_LEFTMETA,
    }
}

/// Code of the right-hand key of a modifier.
pub open spec fn spec_right_code(m: Modifier) -> u16 {
    match m {
        Modifier::Shift => KEY_RIGHTSHIFT,
        Modifier::Control => KEY_RIGHTCTRL,
        Modifier::Alt => KEY_RIGHTALT,
        Modifier::Windows => KEY_RIGHTMETA,
    }
}

#[verifier::when_used_as_spec(spec_left_code)]
pub fn left_code(m: Modifier) -> (r: u16)
    ensures
        r == spec_left_code(m),
{
    match m {
        Modifier::Shift => KEY_LEFTSHIFT,
        Modifier::Control => KEY_LEFTCTRL,
        Modifier::Alt => KEY_LEFTALT,
        Modifier::Windows => KEY_LEFTMETA,
    }
}

#[verifier::when_used_as_spec(spec_right_code)]
pub fn right_code(m: Modifier) -> (r: u16)
    ensures
        r == spec_right_code(m),
{
    match m {
        Modifier::Shift => KEY_RIGHTSHIFT,
        Modifier::Control => KEY_RIGHTCTRL,
        Modifier::Alt => KEY_RIGHTALT,
        Modifier::Windows => KEY_RIGHTMETA,
    }
}

/// Two key combinations are equal exactly when all five fields agree:
/// the key code and each of the four modifier flags. Equality never
/// looks at subset or superset relations between the flag sets.
pub proof fn lemma_key_combo_eq(a: KeyCombo, b: KeyCombo)
    ensures
        (a == b) <==> (a.key == b.key && a.shift == b.shift && a.control == b.control && a.alt
            == b.alt && a.windows == b.windows),
{
}

/// Combos formed from the same key under modifier states that differ only
/// in which physical side of each modifier is held are identical.
pub proof fn lemma_combo_side_independent(m1: ModifierState, m2: ModifierState, code: u16)
    requires
        m1.shift.combined() == m2.shift.combined(),
        m1.control.combined() == m2.control.combined(),
        m1.alt.combined() == m2.alt.combined(),
        m1.windows.combined() == m2.windows.combined(),
    ensures
        m1.combo_for(code) == m2.combo_for(code),
{
}

} // verus!
