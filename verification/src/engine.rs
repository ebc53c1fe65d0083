//! The remapping engine: modifier-state tracking, the mode state machine,
//! binding lookup, and the action dispatcher.
//!
//! The engine is pure state: feeding it a key event returns the events to
//! write to the output device, a mode switch to announce, or a command to
//! spawn, as plain values. When a matched rule carries an application
//! filter, the engine asks its caller for the focused window class and
//! finishes the decision in a second step.

use vstd::prelude::*;

use crate::config::{Action, ActionV};
use crate::keys::{
    spec_is_modifier_code, spec_left_code, spec_right_code, KeyCombo, KeyEvent, Modifier,
    ModifierPair, ModifierState, KEY_LEFTALT, KEY_LEFTCTRL, KEY_LEFTMETA, KEY_LEFTSHIFT,
    KEY_RIGHTALT, KEY_RIGHTCTRL, KEY_RIGHTMETA, KEY_RIGHTSHIFT, PRESS, RELEASE, REPEAT,
};
use crate::keys::{is_modifier_code, left_code, right_code};
use crate::modes::{cycle_next, find_index, lemma_find_index_char};
use crate::strutil::{contains_str, str_eq_str};
use crate::table::{assoc_get, BindingTable, KeyMatchStruct, RuleV, SwitchKeyMap};

verus! {

/// What the words of a shell command are under shell-word splitting, or
/// none when the command is not splittable (mismatched quotes). The
/// result is a function of the command string alone.
pub uninterp spec fn shell_words(s: Seq<char>) -> Option<Seq<Seq<char>>>;

/// Relies on `shlex::split`: splits a command into shell words; the
/// result depends on the command string alone.
#[verifier::external_body]
fn shlex_split(s: &str) -> (r: Option<Vec<String>>)
    ensures
        match r {
            Some(v) => shell_words(s@) == Some(v.deep_view()),
            None => shell_words(s@) is None,
        },
{
    shlex::split(s)
}

/// What dispatching one event leads to: events for the output device, a
/// completed mode switch to announce, a command to spawn detached, or a
/// shell command that could not be split.
#[derive(Debug)]
pub enum Outcome {
    Events(Vec<KeyEvent>),
    SwitchedMode(String),
    RunShell(String, Vec<String>),
    InvalidCommand(String),
}

/// Mathematical model of an [`Outcome`].
#[verifier::ext_equal]
pub enum OutcomeV {
    Events(Seq<KeyEvent>),
    SwitchedMode(Seq<char>),
    RunShell(Seq<char>, Seq<Seq<char>>),
    InvalidCommand(Seq<char>),
}

impl View for Outcome {
    type V = OutcomeV;

    open spec fn view(&self) -> OutcomeV {
        match self {
            Outcome::Events(v) => OutcomeV::Events(v@),
            Outcome::SwitchedMode(m) => OutcomeV::SwitchedMode(m@),
            Outcome::RunShell(p, a) => OutcomeV::RunShell(p@, a.deep_view()),
            Outcome::InvalidCommand(c) => OutcomeV::InvalidCommand(c@),
        }
    }
}

/// A match that still needs the focused application class before it can
/// be dispatched: the rule, and the triggering key event.
#[derive(Debug)]
pub struct PendingMatch {
    pub rule: KeyMatchStruct,
    pub code: u16,
    pub value: i32,
}

/// One step of event handling: either finished, or waiting for the
/// focused application class.
#[derive(Debug)]
pub enum Step {
    Done(Outcome),
    NeedsClass(PendingMatch),
}

/// Mathematical model of a [`Step`].
#[verifier::ext_equal]
pub enum StepV {
    Done(OutcomeV),
    NeedsClass(RuleV, u16, i32),
}

impl View for Step {
    type V = StepV;

    open spec fn view(&self) -> StepV {
        match self {
            Step::Done(o) => StepV::Done(o@),
            Step::NeedsClass(p) => StepV::NeedsClass(p.rule@, p.code, p.value),
        }
    }
}

/// The outcome of a shell action: the command split into a program and
/// its arguments, or the command reported as invalid when it cannot be
/// split or splits into no words.
pub open spec fn spec_shell_outcome(cmd: Seq<char>) -> OutcomeV {
    match shell_words(cmd) {
        None => OutcomeV::InvalidCommand(cmd),
        Some(ws) => if ws.len() == 0 {
            OutcomeV::InvalidCommand(cmd)
        } else {
            OutcomeV::RunShell(ws[0], ws.skip(1))
        },
    }
}

/// The modifier state with the slot of one modifier-key code set.
pub open spec fn spec_update_modifier(ms: ModifierState, code: u16, pressed: bool) -> ModifierState {
    if code == KEY_LEFTSHIFT {
        ModifierState { shift: ModifierPair { left: pressed, ..ms.shift }, ..ms }
    } else if code == KEY_RIGHTSHIFT {
        ModifierState { shift: ModifierPair { right: pressed, ..ms.shift }, ..ms }
    } else if code == KEY_LEFTCTRL {
        ModifierState { control: ModifierPair { left: pressed, ..ms.control }, ..ms }
    } else if code == KEY_RIGHTCTRL {
        ModifierState { control: ModifierPair { right: pressed, ..ms.control }, ..ms }
    } else if code == KEY_LEFTALT {
        ModifierState { alt: ModifierPair { left: pressed, ..ms.alt }, ..ms }
    } else if code == KEY_RIGHTALT {
        ModifierState { alt: ModifierPair { right: pressed, ..ms.alt }, ..ms }
    } else if code == KEY_LEFTMETA {
        ModifierState { windows: ModifierPair { left: pressed, ..ms.windows }, ..ms }
    } else if code == KEY_RIGHTMETA {
        ModifierState { windows: ModifierPair { right: pressed, ..ms.windows }, ..ms }
    } else {
        ms
    }
}

/// The dual state a modifier is driven to before a remapped tap: left
/// unchanged when the combined state already matches the target's flag,
/// both sides pressed when the flag demands a press, both released
/// otherwise.
pub open spec fn expect_pair(cur: ModifierPair, desired: bool) -> ModifierPair {
    if cur.combined() == desired {
        cur
    } else if desired {
        ModifierPair { left: true, right: true }
    } else {
        ModifierPair { left: false, right: false }
    }
}

/// The key events that drive one modifier from `cur` to `des`: a press
/// or release for exactly the sides that differ, left side first.
pub open spec fn pair_change_events(m: Modifier, cur: ModifierPair, des: ModifierPair) -> Seq<
    KeyEvent,
> {
    let l: Seq<KeyEvent> = if !cur.left && des.left {
        seq![(KeyEvent { code: spec_left_code(m), value: PRESS })]
    } else if cur.left && !des.left {
        seq![(KeyEvent { code: spec_left_code(m), value: RELEASE })]
    } else {
        Seq::empty()
    };
    let r: Seq<KeyEvent> = if !cur.right && des.right {
        seq![(KeyEvent { code: spec_right_code(m), value: PRESS })]
    } else if cur.right && !des.right {
        seq![(KeyEvent { code: spec_right_code(m), value: RELEASE })]
    } else {
        Seq::empty()
    };
    l + r
}

/// The full event sequence of a remapped tap under modifier state `ms`:
/// drive each modifier to its expected state in the order shift, control,
/// alt, super; press and release the target key; then restore the
/// modifiers in the reverse order.
pub open spec fn remap_events(ms: ModifierState, target: KeyCombo) -> Seq<KeyEvent> {
    let es = expect_pair(ms.shift, target.shift);
    let ec = expect_pair(ms.control, target.control);
    let ea = expect_pair(ms.alt, target.alt);
    let ew = expect_pair(ms.windows, target.windows);
    pair_change_events(Modifier::Shift, ms.shift, es) + pair_change_events(
        Modifier::Control,
        ms.control,
        ec,
    ) + pair_change_events(Modifier::Alt, ms.alt, ea) + pair_change_events(
        Modifier::Windows,
        ms.windows,
        ew,
    ) + seq![
        (KeyEvent { code: target.key, value: PRESS }),
        (KeyEvent { code: target.key, value: RELEASE }),
    ] + pair_change_events(Modifier::Windows, ew, ms.windows) + pair_change_events(
        Modifier::Alt,
        ea,
        ms.alt,
    ) + pair_change_events(Modifier::Control, ec, ms.control) + pair_change_events(
        Modifier::Shift,
        es,
        ms.shift,
    )
}

/// The remapping engine. Owned by a single event loop; mutated only
/// through its methods.
#[derive(Debug)]
pub struct Engine {
    pub modifiers: ModifierState,
    pub current_mode: Option<String>,
    pub all_modes: Vec<String>,
    pub switch_mode_keys: SwitchKeyMap,
    pub cycle_switch_mode_key: Option<KeyCombo>,
    pub lookup_table: BindingTable,
}

/// The parts of an engine fixed at construction: everything but the
/// modifier state and the current mode.
pub open spec fn same_static(a: Engine, b: Engine) -> bool {
    a.all_modes == b.all_modes && a.switch_mode_keys == b.switch_mode_keys
        && a.cycle_switch_mode_key == b.cycle_switch_mode_key && a.lookup_table == b.lookup_table
}

/// No observable part of the engine differs.
pub open spec fn engine_unchanged(a: Engine, b: Engine) -> bool {
    a.modifiers == b.modifiers && a.current_mode == b.current_mode && same_static(a, b)
}

impl Engine {
    /// The name the binding table is consulted under: the current mode's
    /// name, or the empty sentinel when no mode is current.
    pub open spec fn current_mode_key(self) -> Seq<char> {
        match self.current_mode {
            Some(m) => m@,
            None => Seq::empty(),
        }
    }

    /// The declared mode names, in declaration order.
    pub open spec fn mode_names(self) -> Seq<Seq<char>> {
        self.all_modes.deep_view()
    }

    /// The rule the current mode binds `combo` to, before any
    /// application filtering.
    pub open spec fn spec_find_rule(self, combo: KeyCombo) -> Option<RuleV> {
        match assoc_get(self.lookup_table@, self.current_mode_key()) {
            Some(t) => assoc_get(t, combo),
            None => None,
        }
    }

    /// The mode a pressed combo switches to, if any: the cycle key moves
    /// to the successor of the current mode in declaration order; failing
    /// that, a mode's own switch key moves to that mode. Nothing switches
    /// while no mode is current.
    pub open spec fn spec_next_mode(self, combo: KeyCombo) -> Option<Seq<char>> {
        match self.current_mode {
            None => None,
            Some(cur) => {
                let cyc = if self.cycle_switch_mode_key matches Some(k) && combo == k {
                    cycle_next(self.mode_names(), cur@)
                } else {
                    None
                };
                match cyc {
                    Some(m) => Some(m),
                    None => assoc_get(self.switch_mode_keys@, combo),
                }
            },
        }
    }

    /// Records the pressed or released state of one modifier key in its
    /// slot; nothing else changes. The raw event is still forwarded by
    /// the caller.
    pub fn update_modifier_state(&mut self, code: u16, pressed: bool)
        requires
            spec_is_modifier_code(code),
        ensures
            final(self).modifiers == spec_update_modifier(old(self).modifiers, code, pressed),
            final(self).current_mode == old(self).current_mode,
            same_static(*old(self), *final(self)),
    {
        if code == KEY_LEFTSHIFT {
            self.modifiers.shift.left = pressed;
        } else if code == KEY_RIGHTSHIFT {
            self.modifiers.shift.right = pressed;
        } else if code == KEY_LEFTCTRL {
            self.modifiers.control.left = pressed;
        } else if code == KEY_RIGHTCTRL {
            self.modifiers.control.right = pressed;
        } else if code == KEY_LEFTALT {
            self.modifiers.alt.left = pressed;
        } else if code == KEY_RIGHTALT {
            self.modifiers.alt.right = pressed;
        } else if code == KEY_LEFTMETA {
            self.modifiers.windows.left = pressed;
        } else {
            self.modifiers.windows.right = pressed;
        }
    }

    /// The dual state a modifier must be driven to so that its combined
    /// state matches `pressed`, preserving whichever side the user holds
    /// when no change is needed.
    pub fn get_expect_state(&self, modifier: Modifier, pressed: bool) -> (r: (bool, bool))
        ensures
            (ModifierPair { left: r.0, right: r.1 }) == expect_pair(
                self.modifiers.pair(modifier),
                pressed,
            ),
    {
        let cur = match modifier {
            Modifier::Shift => (self.modifiers.shift.left, self.modifiers.shift.right),
            Modifier::Control => (self.modifiers.control.left, self.modifiers.control.right),
            Modifier::Alt => (self.modifiers.alt.left, self.modifiers.alt.right),
            Modifier::Windows => (self.modifiers.windows.left, self.modifiers.windows.right),
        };
        if (cur.0 || cur.1) == pressed {
            cur
        } else if pressed {
            (true, true)
        } else {
            (false, false)
        }
    }

    /// Drives one modifier to the desired dual state, appending a press
    /// or release for exactly the sides that must change, and returns the
    /// dual state from before the call for later restoration.
    pub fn send_modifier(
        &mut self,
        events: &mut Vec<KeyEvent>,
        modifier: Modifier,
        desired: (bool, bool),
    ) -> (prev: (bool, bool))
        ensures
            prev.0 == old(self).modifiers.pair(modifier).left,
            prev.1 == old(self).modifiers.pair(modifier).right,
            final(self).modifiers == old(self).modifiers.with_pair(
                modifier,
                (ModifierPair { left: desired.0, right: desired.1 }),
            ),
            final(self).current_mode == old(self).current_mode,
            same_static(*old(self), *final(self)),
            final(events)@ == old(events)@ + pair_change_events(
                modifier,
                old(self).modifiers.pair(modifier),
                (ModifierPair { left: desired.0, right: desired.1 }),
            ),
    {
        let cur = match modifier {
            Modifier::Shift => (self.modifiers.shift.left, self.modifiers.shift.right),
            Modifier::Control => (self.modifiers.control.left, self.modifiers.control.right),
            Modifier::Alt => (self.modifiers.alt.left, self.modifiers.alt.right),
            Modifier::Windows => (self.modifiers.windows.left, self.modifiers.windows.right),
        };
        let lk = left_code(modifier);
        let rk = right_code(modifier);
        if !cur.0 && desired.0 {
            events.push(KeyEvent { code: lk, value: PRESS });
        } else if cur.0 && !desired.0 {
            events.push(KeyEvent { code: lk, value: RELEASE });
        }
        if !cur.1 && desired.1 {
            events.push(KeyEvent { code: rk, value: PRESS });
        } else if cur.1 && !desired.1 {
            events.push(KeyEvent { code: rk, value: RELEASE });
        }
        let pair = ModifierPair { left: desired.0, right: desired.1 };
        match modifier {
            Modifier::Shift => {
                self.modifiers.shift = pair;
            },
            Modifier::Control => {
                self.modifiers.control = pair;
            },
            Modifier::Alt => {
                self.modifiers.alt = pair;
            },
            Modifier::Windows => {
                self.modifiers.windows = pair;
            },
        }
        proof {
            assert(events@ =~= old(events)@ + pair_change_events(
                modifier,
                old(self).modifiers.pair(modifier),
                pair,
            ));
        }
        cur
    }

    /// Executes a matched action. A remap synthesizes the minimum
    /// modifier changes around a tap of the target key and restores the
    /// modifier state exactly; a shell action is split into a program and
    /// arguments for the caller to spawn, with nothing emitted.
    /// Synthesizes the event sequence of one remapped tap and leaves the
    /// tracked modifier state exactly as it was.
    #[verifier::rlimit(100)]
    fn remap_tap(&mut self, target: &KeyCombo) -> (events: Vec<KeyEvent>)
        ensures
            final(self).modifiers == old(self).modifiers,
            final(self).current_mode == old(self).current_mode,
            same_static(*old(self), *final(self)),
            events@ == remap_events(old(self).modifiers, *target),
    {
        let ghost ms = self.modifiers;
        let expect_shift = self.get_expect_state(Modifier::Shift, target.shift);
        let expect_control = self.get_expect_state(Modifier::Control, target.control);
        let expect_alt = self.get_expect_state(Modifier::Alt, target.alt);
        let expect_windows = self.get_expect_state(Modifier::Windows, target.windows);
        let ghost es = expect_pair(ms.shift, target.shift);
        let ghost ec = expect_pair(ms.control, target.control);
        let ghost ea = expect_pair(ms.alt, target.alt);
        let ghost ew = expect_pair(ms.windows, target.windows);

        let mut events: Vec<KeyEvent> = Vec::new();
        let prev_shift = self.send_modifier(&mut events, Modifier::Shift, expect_shift);
        let prev_control = self.send_modifier(&mut events, Modifier::Control, expect_control);
        let prev_alt = self.send_modifier(&mut events, Modifier::Alt, expect_alt);
        let prev_windows = self.send_modifier(&mut events, Modifier::Windows, expect_windows);
        let ghost b1 = pair_change_events(Modifier::Shift, ms.shift, es);
        let ghost b2 = pair_change_events(Modifier::Control, ms.control, ec);
        let ghost b3 = pair_change_events(Modifier::Alt, ms.alt, ea);
        let ghost b4 = pair_change_events(Modifier::Windows, ms.windows, ew);
        proof {
            assert(events@ =~= b1 + b2 + b3 + b4);
        }

        events.push(KeyEvent { code: target.key, value: PRESS });
        events.push(KeyEvent { code: target.key, value: RELEASE });
        let ghost tap = seq![
            (KeyEvent { code: target.key, value: PRESS }),
            (KeyEvent { code: target.key, value: RELEASE }),
        ];
        proof {
            assert(events@ =~= b1 + b2 + b3 + b4 + tap);
        }

        let _ = self.send_modifier(&mut events, Modifier::Windows, prev_windows);
        let _ = self.send_modifier(&mut events, Modifier::Alt, prev_alt);
        let _ = self.send_modifier(&mut events, Modifier::Control, prev_control);
        let _ = self.send_modifier(&mut events, Modifier::Shift, prev_shift);
        let ghost b5 = pair_change_events(Modifier::Windows, ew, ms.windows);
        let ghost b6 = pair_change_events(Modifier::Alt, ea, ms.alt);
        let ghost b7 = pair_change_events(Modifier::Control, ec, ms.control);
        let ghost b8 = pair_change_events(Modifier::Shift, es, ms.shift);
        proof {
            assert(final(self).modifiers =~= ms);
            assert(events@ =~= b1 + b2 + b3 + b4 + tap + b5 + b6 + b7 + b8);
            assert(remap_events(ms, *target) == b1 + b2 + b3 + b4 + tap + b5 + b6 + b7 + b8);
        }
        events
    }

    pub fn dispatch_action(&mut self, action: &Action) -> (r: Outcome)
        ensures
            engine_unchanged(*old(self), *final(self)),
            (action@ matches ActionV::Remap(t) ==> r@ == OutcomeV::Events(
                remap_events(old(self).modifiers, t),
            )),
            (action@ matches ActionV::Shell(cmd) ==> r@ == spec_shell_outcome(cmd)),
    {
        match action {
            Action::Remap(target) => {
                let events = self.remap_tap(target);
                Outcome::Events(events)
            },
            Action::Shell(command) => {
                match shlex_split(command.as_str()) {
                    None => Outcome::InvalidCommand(command.clone()),
                    Some(mut words) => {
                        if words.len() == 0 {
                            Outcome::InvalidCommand(command.clone())
                        } else {
                            let ghost ws = words.deep_view();
                            let args = words.split_off(1);
                            let program = words.pop().unwrap();
                            proof {
                                assert(program@ == ws[0]);
                                assert(args.deep_view() =~= ws.skip(1));
                            }
                            Outcome::RunShell(program, args)
                        }
                    },
                }
            },
        }
    }

    /// The rule the current mode binds `combo` to, before application
    /// filtering; nothing when the combo is unbound, and always nothing
    /// while modes are configured but none is current.
    pub fn find_action(&self, key_combo: &KeyCombo) -> (r: Option<&KeyMatchStruct>)
        ensures
            match r {
                Some(rule) => self.spec_find_rule(*key_combo) == Some(rule@),
                None => self.spec_find_rule(*key_combo) is None,
            },
    {
        proof {
            reveal_strlit("");
            assert(""@ =~= Seq::<char>::empty());
        }
        let table = match &self.current_mode {
            Some(m) => self.lookup_table.get(m.as_str()),
            None => self.lookup_table.get(""),
        };
        match table {
            Some(t) => t.get(key_combo),
            None => None,
        }
    }

    /// The mode the pressed combo switches to, if it is a switch key.
    pub fn check_mode_switching(&self, key_combo: &KeyCombo) -> (r: Option<String>)
        ensures
            match r {
                Some(m) => self.spec_next_mode(*key_combo) == Some(m@),
                None => self.spec_next_mode(*key_combo) is None,
            },
    {
        let cur = match &self.current_mode {
            Some(c) => c,
            None => {
                return None;
            },
        };
        let mut next: Option<String> = None;
        if let Some(ck) = &self.cycle_switch_mode_key {
            if *key_combo == *ck {
                match find_mode_index(&self.all_modes, cur.as_str()) {
                    Some(i) => {
                        let j = if i + 1 < self.all_modes.len() {
                            i + 1
                        } else {
                            0
                        };
                        next = Some(self.all_modes[j].clone());
                    },
                    None => {},
                }
            }
        }
        if next.is_none() {
            match self.switch_mode_keys.get(key_combo) {
                Some(m) => {
                    next = Some(m.clone());
                },
                None => {},
            }
        }
        next
    }
}

impl Engine {
    /// Feeds one key event through the pipeline. Modifier keys update the
    /// tracked state and are forwarded; releases of other keys are
    /// forwarded; a press or repeat forms a combo, which may switch the
    /// mode (consuming the press), dispatch a binding, ask for the
    /// focused application class, or be forwarded unmatched.
    pub fn handle_key_event(&mut self, code: u16, value: i32) -> (r: Step)
        ensures
            spec_is_modifier_code(code) ==> {
                &&& final(self).modifiers == spec_update_modifier(
                    old(self).modifiers,
                    code,
                    value == PRESS || value == REPEAT,
                )
                &&& final(self).current_mode == old(self).current_mode
                &&& same_static(*old(self), *final(self))
                &&& r@ == StepV::Done(OutcomeV::Events(seq![(KeyEvent { code, value })]))
            },
            !spec_is_modifier_code(code) && value == RELEASE ==> engine_unchanged(
                *old(self),
                *final(self),
            ) && r@ == StepV::Done(OutcomeV::Events(seq![(KeyEvent { code, value })])),
            !spec_is_modifier_code(code) && value != RELEASE ==> {
                let combo = old(self).modifiers.combo_for(code);
                match old(self).spec_next_mode(combo) {
                    Some(next) => {
                        &&& (final(self).current_mode matches Some(m) && m@ == next)
                        &&& final(self).modifiers == old(self).modifiers
                        &&& same_static(*old(self), *final(self))
                        &&& r@ == StepV::Done(OutcomeV::SwitchedMode(next))
                    },
                    None => match old(self).spec_find_rule(combo) {
                        None => engine_unchanged(*old(self), *final(self)) && r@ == StepV::Done(
                            OutcomeV::Events(seq![(KeyEvent { code, value })]),
                        ),
                        Some(rule) => if !rule.needs_class() {
                            match rule.action {
                                ActionV::Remap(t) => engine_unchanged(*old(self), *final(self))
                                    && r@ == StepV::Done(
                                    OutcomeV::Events(remap_events(old(self).modifiers, t)),
                                ),
                                ActionV::Shell(cmd) => engine_unchanged(*old(self), *final(self))
                                    && r@ == StepV::Done(spec_shell_outcome(cmd)),
                            }
                        } else {
                            engine_unchanged(*old(self), *final(self)) && r@ == StepV::NeedsClass(
                                rule,
                                code,
                                value,
                            )
                        },
                    },
                }
            },
    {
        if is_modifier_code(code) {
            let pressed = value == PRESS || value == REPEAT;
            self.update_modifier_state(code, pressed);
            return Step::Done(Outcome::Events(single_event(code, value)));
        }
        if value == RELEASE {
            return Step::Done(Outcome::Events(single_event(code, value)));
        }
        let key_combo = KeyCombo {
            key: code,
            shift: self.modifiers.shift.left || self.modifiers.shift.right,
            control: self.modifiers.control.left || self.modifiers.control.right,
            alt: self.modifiers.alt.left || self.modifiers.alt.right,
            windows: self.modifiers.windows.left || self.modifiers.windows.right,
        };
        proof {
            assert(key_combo == self.modifiers.combo_for(code));
        }
        if let Some(next) = self.check_mode_switching(&key_combo) {
            self.current_mode = Some(next.clone());
            return Step::Done(Outcome::SwitchedMode(next));
        }
        let found: Option<KeyMatchStruct> = match self.find_action(&key_combo) {
            Some(rule) => Some(rule.duplicate()),
            None => None,
        };
        match found {
            None => Step::Done(Outcome::Events(single_event(code, value))),
            Some(rule) => {
                if rule.in_.len() == 0 && rule.not_in.len() == 0 {
                    let outcome = self.dispatch_action(&rule.action);
                    Step::Done(outcome)
                } else {
                    Step::NeedsClass(PendingMatch { rule, code, value })
                }
            },
        }
    }

    /// Finishes a match that waited for the focused application class.
    /// With no class available (the focus query failed) or with the rule
    /// filtered out, the triggering key is forwarded so it is never
    /// silently dropped; otherwise the action is dispatched.
    pub fn resolve_with_class(&mut self, pending: PendingMatch, class: Option<&str>) -> (r:
        Outcome)
        ensures
            engine_unchanged(*old(self), *final(self)),
            match class {
                None => r@ == OutcomeV::Events(
                    seq![(KeyEvent { code: pending.code, value: pending.value })],
                ),
                Some(cl) => if pending.rule@.applies_to(cl@) {
                    match pending.rule@.action {
                        ActionV::Remap(t) => r@ == OutcomeV::Events(
                            remap_events(old(self).modifiers, t),
                        ),
                        ActionV::Shell(cmd) => r@ == spec_shell_outcome(cmd),
                    }
                } else {
                    r@ == OutcomeV::Events(
                        seq![(KeyEvent { code: pending.code, value: pending.value })],
                    )
                },
            },
    {
        match class {
            None => Outcome::Events(single_event(pending.code, pending.value)),
            Some(cl) => {
                if rule_applies(&pending.rule, cl) {
                    self.dispatch_action(&pending.rule.action)
                } else {
                    Outcome::Events(single_event(pending.code, pending.value))
                }
            },
        }
    }
}

/// A buffer holding one key event.
fn single_event(code: u16, value: i32) -> (r: Vec<KeyEvent>)
    ensures
        r@ == seq![(KeyEvent { code, value })],
{
    let mut events: Vec<KeyEvent> = Vec::new();
    events.push(KeyEvent { code, value });
    proof {
        assert(events@ =~= seq![(KeyEvent { code, value })]);
    }
    events
}

/// Index of the first mode whose name is `name`.
fn find_mode_index(names: &Vec<String>, name: &str) -> (r: Option<usize>)
    ensures
        match r {
            Some(i) => i < names.len() && find_index(names.deep_view(), name@) == Some(i as int),
            None => find_index(names.deep_view(), name@) is None,
        },
{
    let n = names.len();
    let mut i: usize = 0;
    while i < n
        invariant
            i <= n,
            n == names.len(),
            forall|j: int| 0 <= j < i ==> names.deep_view()[j] != name@,
        decreases n - i,
    {
        if str_eq_str(names[i].as_str(), name) {
            proof {
                let nv = names.deep_view();
                assert(nv[i as int] == name@);
                lemma_find_index_char(nv, name@);
                match find_index(nv, name@) {
                    Some(k) => {
                        if k < i {
                            assert(nv[k] == name@);
                            assert(false);
                        }
                        if k > i {
                            assert(nv[i as int] != name@);
                            assert(false);
                        }
                    },
                    None => {
                        assert(false);
                    },
                }
            }
            return Some(i);
        }
        i = i + 1;
    }
    proof {
        lemma_find_index_char(names.deep_view(), name@);
    }
    None
}

/// Whether a rule applies for the focused application class: the class
/// must be in the allow-list when one is given, and must not be in the
/// deny-list when one is given. An empty allow-list admits every class;
/// an empty deny-list excludes none.
pub fn rule_applies(rule: &KeyMatchStruct, class: &str) -> (r: bool)
    ensures
        r == rule@.applies_to(class@),
{
    let allow_ok = rule.in_.len() == 0 || contains_str(&rule.in_, class);
    let deny_ok = rule.not_in.len() == 0 || !contains_str(&rule.not_in, class);
    allow_ok && deny_ok
}

} // verus!
