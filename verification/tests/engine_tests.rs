use remapd::config::{Action, Config, Group, KeyBinding, Mode, Options};
use remapd::engine::{rule_applies, Engine, Outcome, Step};
use remapd::keys::{KeyCombo, KeyEvent, PRESS, RELEASE, REPEAT};
use remapd::parser::parse_key_combo;
use remapd::table::KeyMatchStruct;

fn combo(s: &str) -> KeyCombo {
    parse_key_combo(s).unwrap()
}

fn shell_binding(trigger: &str, cmd: &str) -> KeyBinding {
    KeyBinding {
        key_combo: combo(trigger),
        shell: Some(String::from(cmd)),
        remap: None,
        desc: None,
    }
}

fn remap_binding(trigger: &str, target: &str) -> KeyBinding {
    KeyBinding {
        key_combo: combo(trigger),
        shell: None,
        remap: Some(combo(target)),
        desc: None,
    }
}

fn group(bindings: Vec<KeyBinding>) -> Group {
    Group { key_bindings: bindings, in_: None, not_in: None }
}

/// A config without modes: one group of bindings, applied everywhere.
fn flat_config(bindings: Vec<KeyBinding>) -> Config {
    Config {
        modmap: None,
        modes: None,
        groups: vec![(String::from("main"), group(bindings))],
        options: None,
    }
}

/// The config of the mode-switch scenario: modes `[normal, insert]`,
/// `options.mode_switch_key = "C-z"`, `default_mode = normal`.
fn two_mode_config() -> Config {
    Config {
        modmap: None,
        modes: Some(vec![
            (
                String::from("normal"),
                Mode { groups: vec![String::from("main")], switch_key: None },
            ),
            (
                String::from("insert"),
                Mode { groups: vec![String::from("main")], switch_key: Some(combo("C-i")) },
            ),
        ]),
        groups: vec![(
            String::from("main"),
            Group {
                key_bindings: vec![shell_binding("C-a", "true")],
                in_: None,
                not_in: None,
            },
        )],
        options: Some(Options {
            mode_switch_key: Some(combo("C-z")),
            default_mode: Some(String::from("normal")),
        }),
    }
}

fn expect_events(step: Step) -> Vec<KeyEvent> {
    match step {
        Step::Done(Outcome::Events(v)) => v,
        other => panic!("expected emitted events, got {:?}", other),
    }
}

fn expect_switch(step: Step) -> String {
    match step {
        Step::Done(Outcome::SwitchedMode(m)) => m,
        other => panic!("expected a mode switch, got {:?}", other),
    }
}

#[test]
fn modifier_keys_update_state_and_are_forwarded() {
    let config = flat_config(vec![]);
    let mut e = Engine::new(&config);
    let out = expect_events(e.handle_key_event(42, PRESS));
    assert_eq!(out, vec![KeyEvent { code: 42, value: PRESS }]);
    assert!(e.modifiers.shift.left);
    assert!(!e.modifiers.shift.right);

    let out = expect_events(e.handle_key_event(42, RELEASE));
    assert_eq!(out, vec![KeyEvent { code: 42, value: RELEASE }]);
    assert!(!e.modifiers.shift.left);

    // A repeat of a modifier key counts as held.
    expect_events(e.handle_key_event(97, REPEAT));
    assert!(e.modifiers.control.right);
}

#[test]
fn unmatched_key_is_forwarded_verbatim() {
    // An unbound key (F13, code 183) passes through with the same code
    // and value.
    let config = flat_config(vec![shell_binding("C-a", "true")]);
    let mut e = Engine::new(&config);
    let out = expect_events(e.handle_key_event(183, PRESS));
    assert_eq!(out, vec![KeyEvent { code: 183, value: PRESS }]);
    let out = expect_events(e.handle_key_event(183, RELEASE));
    assert_eq!(out, vec![KeyEvent { code: 183, value: RELEASE }]);
}

#[test]
fn releases_of_bound_keys_are_forwarded_not_dispatched() {
    let config = flat_config(vec![shell_binding("a", "true")]);
    let mut e = Engine::new(&config);
    let out = expect_events(e.handle_key_event(30, RELEASE));
    assert_eq!(out, vec![KeyEvent { code: 30, value: RELEASE }]);
}

#[test]
fn shell_binding_emits_no_events_and_hands_out_the_command() {
    // A binding with `shell: "notify-send hi"` dispatches without any key
    // events.
    let config = flat_config(vec![shell_binding("C-a", "notify-send hi")]);
    let mut e = Engine::new(&config);
    expect_events(e.handle_key_event(29, PRESS));
    match e.handle_key_event(30, PRESS) {
        Step::Done(Outcome::RunShell(program, args)) => {
            assert_eq!(program, "notify-send");
            assert_eq!(args, vec![String::from("hi")]);
        },
        other => panic!("expected a shell dispatch, got {:?}", other),
    }
}

#[test]
fn malformed_shell_command_is_a_nonfatal_error() {
    let config = flat_config(vec![shell_binding("C-a", "echo \"unclosed")]);
    let mut e = Engine::new(&config);
    expect_events(e.handle_key_event(29, PRESS));
    match e.handle_key_event(30, PRESS) {
        Step::Done(Outcome::InvalidCommand(cmd)) => assert_eq!(cmd, "echo \"unclosed"),
        other => panic!("expected an invalid-command outcome, got {:?}", other),
    }
    // The engine keeps running: the next event is handled normally.
    let out = expect_events(e.handle_key_event(183, PRESS));
    assert_eq!(out, vec![KeyEvent { code: 183, value: PRESS }]);
}

#[test]
fn empty_shell_command_is_a_nonfatal_error() {
    let config = flat_config(vec![shell_binding("C-a", "")]);
    let mut e = Engine::new(&config);
    expect_events(e.handle_key_event(29, PRESS));
    match e.handle_key_event(30, PRESS) {
        Step::Done(Outcome::InvalidCommand(cmd)) => assert_eq!(cmd, ""),
        other => panic!("expected an invalid-command outcome, got {:?}", other),
    }
}

#[test]
fn remap_with_shift_held_releases_and_restores_it() {
    // Binding Ctrl-j -> Remap(Down) dispatched while physical shift is
    // held: release(LeftShift), press(Down), release(Down),
    // re-press(LeftShift) - and nothing else.
    let config = flat_config(vec![remap_binding("C-j", "down")]);
    let mut e = Engine::new(&config);
    expect_events(e.handle_key_event(42, PRESS));
    let action = Action::Remap(combo("down"));
    match e.dispatch_action(&action) {
        Outcome::Events(out) => {
            assert_eq!(
                out,
                vec![
                    KeyEvent { code: 42, value: RELEASE },
                    KeyEvent { code: 108, value: PRESS },
                    KeyEvent { code: 108, value: RELEASE },
                    KeyEvent { code: 42, value: PRESS },
                ]
            );
        },
        other => panic!("expected emitted events, got {:?}", other),
    }
    // The tracked state is restored: shift still held on its left side.
    assert!(e.modifiers.shift.left);
    assert!(!e.modifiers.shift.right);
}

#[test]
fn remap_round_trip_restores_every_modifier() {
    // Dispatching Remap(target) while a modifier is held and the target
    // does not require it leaves that modifier's dual state unchanged.
    let config = flat_config(vec![]);
    let mut e = Engine::new(&config);
    expect_events(e.handle_key_event(54, PRESS));  // right shift
    expect_events(e.handle_key_event(56, PRESS));  // left alt
    let before = e.modifiers;
    let action = Action::Remap(combo("C-down"));
    match e.dispatch_action(&action) {
        Outcome::Events(out) => {
            // Control must be pressed for the tap and released after it;
            // shift and alt released before it and re-pressed after it.
            assert_eq!(
                out,
                vec![
                    KeyEvent { code: 54, value: RELEASE },
                    KeyEvent { code: 29, value: PRESS },
                    KeyEvent { code: 97, value: PRESS },
                    KeyEvent { code: 56, value: RELEASE },
                    KeyEvent { code: 108, value: PRESS },
                    KeyEvent { code: 108, value: RELEASE },
                    KeyEvent { code: 56, value: PRESS },
                    KeyEvent { code: 29, value: RELEASE },
                    KeyEvent { code: 97, value: RELEASE },
                    KeyEvent { code: 54, value: PRESS },
                ]
            );
        },
        other => panic!("expected emitted events, got {:?}", other),
    }
    assert_eq!(e.modifiers, before);
}

#[test]
fn remap_keeps_already_matching_modifiers_untouched() {
    // The target requires control and control is already held on the
    // right side: no modifier events at all, only the tap.
    let config = flat_config(vec![]);
    let mut e = Engine::new(&config);
    expect_events(e.handle_key_event(97, PRESS));
    let action = Action::Remap(combo("C-down"));
    match e.dispatch_action(&action) {
        Outcome::Events(out) => {
            assert_eq!(
                out,
                vec![
                    KeyEvent { code: 108, value: PRESS },
                    KeyEvent { code: 108, value: RELEASE },
                ]
            );
        },
        other => panic!("expected emitted events, got {:?}", other),
    }
    assert!(e.modifiers.control.right);
    assert!(!e.modifiers.control.left);
}

#[test]
fn matching_is_exact_on_modifier_flags() {
    // C-a is bound; pressing a with control AND shift held matches
    // nothing, because flag equality is exact, not subset-based.
    let config = flat_config(vec![shell_binding("C-a", "true")]);
    let mut e = Engine::new(&config);
    expect_events(e.handle_key_event(29, PRESS));
    expect_events(e.handle_key_event(42, PRESS));
    let out = expect_events(e.handle_key_event(30, PRESS));
    assert_eq!(out, vec![KeyEvent { code: 30, value: PRESS }]);
}

#[test]
fn left_and_right_sides_match_the_same_combo() {
    // A combo formed with the right control matches a binding written
    // C-a just as the left control does.
    let config = flat_config(vec![shell_binding("C-a", "true")]);
    let mut e = Engine::new(&config);
    expect_events(e.handle_key_event(97, PRESS));
    match e.handle_key_event(30, PRESS) {
        Step::Done(Outcome::RunShell(program, _)) => assert_eq!(program, "true"),
        other => panic!("expected a shell dispatch, got {:?}", other),
    }
}

#[test]
fn repeats_of_bound_keys_dispatch_too() {
    let config = flat_config(vec![shell_binding("C-a", "true")]);
    let mut e = Engine::new(&config);
    expect_events(e.handle_key_event(29, PRESS));
    match e.handle_key_event(30, REPEAT) {
        Step::Done(Outcome::RunShell(program, _)) => assert_eq!(program, "true"),
        other => panic!("expected a shell dispatch, got {:?}", other),
    }
}

#[test]
fn later_group_wins_on_combo_collision() {
    // Two groups in the same mode both bind C-a; the group listed later
    // in the mode's groups array decides the action.
    let config = Config {
        modmap: None,
        modes: Some(vec![(
            String::from("normal"),
            Mode {
                groups: vec![String::from("first"), String::from("second")],
                switch_key: None,
            },
        )]),
        groups: vec![
            (String::from("first"), group(vec![shell_binding("C-a", "one")])),
            (String::from("second"), group(vec![shell_binding("C-a", "two")])),
        ],
        options: Some(Options {
            mode_switch_key: None,
            default_mode: Some(String::from("normal")),
        }),
    };
    let mut e = Engine::new(&config);
    expect_events(e.handle_key_event(29, PRESS));
    match e.handle_key_event(30, PRESS) {
        Step::Done(Outcome::RunShell(program, _)) => assert_eq!(program, "two"),
        other => panic!("expected a shell dispatch, got {:?}", other),
    }
}

#[test]
fn later_binding_wins_within_a_group() {
    let config = flat_config(vec![
        shell_binding("C-a", "one"),
        shell_binding("C-a", "two"),
    ]);
    let mut e = Engine::new(&config);
    expect_events(e.handle_key_event(29, PRESS));
    match e.handle_key_event(30, PRESS) {
        Step::Done(Outcome::RunShell(program, _)) => assert_eq!(program, "two"),
        other => panic!("expected a shell dispatch, got {:?}", other),
    }
}

#[test]
fn unknown_group_names_are_silently_skipped() {
    let config = Config {
        modmap: None,
        modes: Some(vec![(
            String::from("normal"),
            Mode {
                groups: vec![String::from("missing"), String::from("main")],
                switch_key: None,
            },
        )]),
        groups: vec![(String::from("main"), group(vec![shell_binding("C-a", "true")]))],
        options: Some(Options {
            mode_switch_key: None,
            default_mode: Some(String::from("normal")),
        }),
    };
    let mut e = Engine::new(&config);
    expect_events(e.handle_key_event(29, PRESS));
    match e.handle_key_event(30, PRESS) {
        Step::Done(Outcome::RunShell(program, _)) => assert_eq!(program, "true"),
        other => panic!("expected a shell dispatch, got {:?}", other),
    }
}

#[test]
fn cycle_key_toggles_between_two_modes() {
    // Pressing C-z once in normal switches to insert; pressing it again
    // returns to normal; neither press is forwarded.
    let config = two_mode_config();
    let mut e = Engine::new(&config);
    assert_eq!(e.current_mode.as_deref(), Some("normal"));

    expect_events(e.handle_key_event(29, PRESS));
    let m = expect_switch(e.handle_key_event(44, PRESS));
    assert_eq!(m, "insert");
    assert_eq!(e.current_mode.as_deref(), Some("insert"));

    expect_events(e.handle_key_event(44, RELEASE));
    let m = expect_switch(e.handle_key_event(44, PRESS));
    assert_eq!(m, "normal");
    assert_eq!(e.current_mode.as_deref(), Some("normal"));
}

#[test]
fn cycling_as_many_times_as_there_are_modes_returns_to_the_start() {
    let mut config = two_mode_config();
    if let Some(modes) = &mut config.modes {
        modes.push((
            String::from("visual"),
            Mode { groups: vec![String::from("main")], switch_key: None },
        ));
    }
    let mut e = Engine::new(&config);
    expect_events(e.handle_key_event(29, PRESS));
    assert_eq!(expect_switch(e.handle_key_event(44, PRESS)), "insert");
    expect_events(e.handle_key_event(44, RELEASE));
    assert_eq!(expect_switch(e.handle_key_event(44, PRESS)), "visual");
    expect_events(e.handle_key_event(44, RELEASE));
    assert_eq!(expect_switch(e.handle_key_event(44, PRESS)), "normal");
}

#[test]
fn direct_switch_key_activates_its_mode() {
    let config = two_mode_config();
    let mut e = Engine::new(&config);
    expect_events(e.handle_key_event(29, PRESS));
    let m = expect_switch(e.handle_key_event(23, PRESS));  // C-i
    assert_eq!(m, "insert");
}

#[test]
fn no_mode_current_matches_nothing() {
    // Modes are configured but no default mode is set: no binding can
    // match and no switch key fires until a mode is made current.
    let mut config = two_mode_config();
    config.options = Some(Options { mode_switch_key: Some(combo("C-z")), default_mode: None });
    let mut e = Engine::new(&config);
    assert!(e.current_mode.is_none());
    expect_events(e.handle_key_event(29, PRESS));
    // The bound combo C-a falls through.
    let out = expect_events(e.handle_key_event(30, PRESS));
    assert_eq!(out, vec![KeyEvent { code: 30, value: PRESS }]);
    // The cycle key falls through too.
    let out = expect_events(e.handle_key_event(44, PRESS));
    assert_eq!(out, vec![KeyEvent { code: 44, value: PRESS }]);
}

#[test]
fn allow_list_admits_only_its_classes() {
    // Allow-list {"A"}, deny-list {}: the binding matches only when the
    // focused class is "A".
    let rule = KeyMatchStruct {
        in_: vec![String::from("A")],
        not_in: vec![],
        action: Action::Shell(String::from("true")),
    };
    assert!(rule_applies(&rule, "A"));
    assert!(!rule_applies(&rule, "B"));
    assert!(!rule_applies(&rule, ""));
}

#[test]
fn deny_list_excludes_only_its_classes() {
    // Allow-list {}, deny-list {"B"}: the binding matches for every
    // class except "B".
    let rule = KeyMatchStruct {
        in_: vec![],
        not_in: vec![String::from("B")],
        action: Action::Shell(String::from("true")),
    };
    assert!(rule_applies(&rule, "A"));
    assert!(!rule_applies(&rule, "B"));
    assert!(rule_applies(&rule, "C"));
}

#[test]
fn both_filters_are_anded() {
    let rule = KeyMatchStruct {
        in_: vec![String::from("A"), String::from("B")],
        not_in: vec![String::from("B")],
        action: Action::Shell(String::from("true")),
    };
    assert!(rule_applies(&rule, "A"));
    assert!(!rule_applies(&rule, "B"));
    assert!(!rule_applies(&rule, "C"));
}

/// A config whose single binding carries an allow-list.
fn filtered_config() -> Config {
    Config {
        modmap: None,
        modes: None,
        groups: vec![(
            String::from("main"),
            Group {
                key_bindings: vec![shell_binding("C-a", "true")],
                in_: Some(vec![String::from("term")]),
                not_in: None,
            },
        )],
        options: None,
    }
}

#[test]
fn filtered_match_asks_for_the_window_class() {
    let config = filtered_config();
    let mut e = Engine::new(&config);
    expect_events(e.handle_key_event(29, PRESS));
    let pending = match e.handle_key_event(30, PRESS) {
        Step::NeedsClass(p) => p,
        other => panic!("expected a pending match, got {:?}", other),
    };
    assert_eq!(pending.code, 30);
    assert_eq!(pending.value, PRESS);
    match e.resolve_with_class(pending, Some("term")) {
        Outcome::RunShell(program, _) => assert_eq!(program, "true"),
        other => panic!("expected a shell dispatch, got {:?}", other),
    }
}

#[test]
fn filtered_out_match_forwards_the_key() {
    let config = filtered_config();
    let mut e = Engine::new(&config);
    expect_events(e.handle_key_event(29, PRESS));
    let pending = match e.handle_key_event(30, PRESS) {
        Step::NeedsClass(p) => p,
        other => panic!("expected a pending match, got {:?}", other),
    };
    match e.resolve_with_class(pending, Some("editor")) {
        Outcome::Events(out) => assert_eq!(out, vec![KeyEvent { code: 30, value: PRESS }]),
        other => panic!("expected the key forwarded, got {:?}", other),
    }
}

#[test]
fn failed_focus_query_still_forwards_the_key() {
    let config = filtered_config();
    let mut e = Engine::new(&config);
    expect_events(e.handle_key_event(29, PRESS));
    let pending = match e.handle_key_event(30, PRESS) {
        Step::NeedsClass(p) => p,
        other => panic!("expected a pending match, got {:?}", other),
    };
    match e.resolve_with_class(pending, None) {
        Outcome::Events(out) => assert_eq!(out, vec![KeyEvent { code: 30, value: PRESS }]),
        other => panic!("expected the key forwarded, got {:?}", other),
    }
}

#[test]
fn unfiltered_match_never_asks_for_the_class() {
    let config = flat_config(vec![shell_binding("C-a", "true")]);
    let mut e = Engine::new(&config);
    expect_events(e.handle_key_event(29, PRESS));
    assert!(matches!(e.handle_key_event(30, PRESS), Step::Done(_)));
}

#[test]
fn key_combo_equality_is_over_all_five_fields() {
    let a = combo("C-a");
    let b = KeyCombo { key: 30, shift: false, control: true, alt: false, windows: false };
    assert_eq!(a, b);
    assert_ne!(a, KeyCombo { key: 31, ..b });
    assert_ne!(a, KeyCombo { shift: true, ..b });
    assert_ne!(a, KeyCombo { control: false, ..b });
    assert_ne!(a, KeyCombo { alt: true, ..b });
    assert_ne!(a, KeyCombo { windows: true, ..b });
}
