use remapd::config::{Action, Config, ConfigError, Group, KeyBinding, Mode, Options};
use remapd::keys::{KeyCombo, Modifier};
use remapd::parser::{parse_key, parse_key_combo, parse_modifier, ParseError};

#[test]
fn modifier_names_resolve() {
    assert!(matches!(parse_modifier("shift"), Some(Modifier::Shift)));
    assert!(matches!(parse_modifier("SHIFT"), Some(Modifier::Shift)));
    assert!(matches!(parse_modifier("C"), Some(Modifier::Control)));
    assert!(matches!(parse_modifier("c"), Some(Modifier::Control)));
    assert!(matches!(parse_modifier("ctrl"), Some(Modifier::Control)));
    assert!(matches!(parse_modifier("Control"), Some(Modifier::Control)));
    assert!(matches!(parse_modifier("M"), Some(Modifier::Alt)));
    assert!(matches!(parse_modifier("meta"), Some(Modifier::Alt)));
    assert!(matches!(parse_modifier("alt"), Some(Modifier::Alt)));
    assert!(matches!(parse_modifier("super"), Some(Modifier::Windows)));
    assert!(matches!(parse_modifier("win"), Some(Modifier::Windows)));
    assert!(matches!(parse_modifier("windows"), Some(Modifier::Windows)));
}

#[test]
fn unknown_modifier_is_rejected() {
    assert!(parse_modifier("hyper").is_none());
    assert!(parse_modifier("").is_none());
    assert!(parse_modifier("shiftt").is_none());
}

#[test]
fn key_names_resolve_through_kernel_table() {
    assert_eq!(parse_key("a").unwrap(), 30);
    assert_eq!(parse_key("A").unwrap(), 30);
    assert_eq!(parse_key("KEY_A").unwrap(), 30);
    assert_eq!(parse_key("z").unwrap(), 44);
    assert_eq!(parse_key("j").unwrap(), 36);
    assert_eq!(parse_key("down").unwrap(), 108);
    assert_eq!(parse_key("f13").unwrap(), 183);
}

#[test]
fn key_aliases_resolve() {
    assert_eq!(parse_key("shift_l").unwrap(), 42);
    assert_eq!(parse_key("shift_r").unwrap(), 54);
    assert_eq!(parse_key("ctrl_l").unwrap(), 29);
    assert_eq!(parse_key("control_l").unwrap(), 29);
    assert_eq!(parse_key("ctrl_r").unwrap(), 97);
    assert_eq!(parse_key("alt_l").unwrap(), 56);
    assert_eq!(parse_key("alt_r").unwrap(), 100);
    assert_eq!(parse_key("super_l").unwrap(), 125);
    assert_eq!(parse_key("win_r").unwrap(), 126);
}

#[test]
fn key_codes_agree_with_kernel_constants() {
    assert_eq!(remapd::keys::KEY_LEFTSHIFT, evdev::Key::KEY_LEFTSHIFT.code());
    assert_eq!(remapd::keys::KEY_RIGHTSHIFT, evdev::Key::KEY_RIGHTSHIFT.code());
    assert_eq!(remapd::keys::KEY_LEFTCTRL, evdev::Key::KEY_LEFTCTRL.code());
    assert_eq!(remapd::keys::KEY_RIGHTCTRL, evdev::Key::KEY_RIGHTCTRL.code());
    assert_eq!(remapd::keys::KEY_LEFTALT, evdev::Key::KEY_LEFTALT.code());
    assert_eq!(remapd::keys::KEY_RIGHTALT, evdev::Key::KEY_RIGHTALT.code());
    assert_eq!(remapd::keys::KEY_LEFTMETA, evdev::Key::KEY_LEFTMETA.code());
    assert_eq!(remapd::keys::KEY_RIGHTMETA, evdev::Key::KEY_RIGHTMETA.code());
}

#[test]
fn unknown_key_is_rejected_with_its_name() {
    match parse_key("notakey") {
        Err(ParseError::UnknownKey(k)) => assert_eq!(k, "notakey"),
        other => panic!("expected an unknown-key error, got {:?}", other),
    }
    match parse_key("") {
        Err(ParseError::UnknownKey(k)) => assert_eq!(k, ""),
        other => panic!("expected an unknown-key error, got {:?}", other),
    }
}

#[test]
fn combo_with_one_modifier() {
    let c = parse_key_combo("C-z").unwrap();
    assert_eq!(
        c,
        KeyCombo { key: 44, shift: false, control: true, alt: false, windows: false }
    );
}

#[test]
fn combo_with_several_modifiers() {
    let c = parse_key_combo("C-M-x").unwrap();
    assert_eq!(c.key, 45);
    assert!(c.control);
    assert!(c.alt);
    assert!(!c.shift);
    assert!(!c.windows);

    let c = parse_key_combo("shift-super-a").unwrap();
    assert_eq!(c.key, 30);
    assert!(c.shift);
    assert!(c.windows);
}

#[test]
fn combo_without_modifiers() {
    let c = parse_key_combo("f13").unwrap();
    assert_eq!(
        c,
        KeyCombo { key: 183, shift: false, control: false, alt: false, windows: false }
    );
}

#[test]
fn combo_with_unknown_modifier_names_the_segment() {
    match parse_key_combo("hyper-x") {
        Err(ParseError::UnknownModifier(m)) => assert_eq!(m, "hyper"),
        other => panic!("expected an unknown-modifier error, got {:?}", other),
    }
    // The first failing segment decides the error.
    match parse_key_combo("bad1-bad2-x") {
        Err(ParseError::UnknownModifier(m)) => assert_eq!(m, "bad1"),
        other => panic!("expected an unknown-modifier error, got {:?}", other),
    }
}

#[test]
fn combo_with_unknown_key_names_the_segment() {
    match parse_key_combo("C-notakey") {
        Err(ParseError::UnknownKey(k)) => assert_eq!(k, "notakey"),
        other => panic!("expected an unknown-key error, got {:?}", other),
    }
}

#[test]
fn parse_error_messages() {
    let e = ParseError::UnknownModifier(String::from("hyper"));
    assert_eq!(e.message(), "unknown modifier: hyper");
    let e = ParseError::UnknownKey(String::from("notakey"));
    assert_eq!(e.message(), "failed to parse key: notakey");
}

fn combo(s: &str) -> KeyCombo {
    parse_key_combo(s).unwrap()
}

#[test]
fn validate_accepts_exactly_one_action() {
    let config = Config {
        modmap: None,
        modes: None,
        groups: vec![(
            String::from("g"),
            Group {
                key_bindings: vec![
                    KeyBinding {
                        key_combo: combo("C-a"),
                        shell: Some(String::from("true")),
                        remap: None,
                        desc: None,
                    },
                    KeyBinding {
                        key_combo: combo("C-b"),
                        shell: None,
                        remap: Some(combo("down")),
                        desc: Some(String::from("go down")),
                    },
                ],
                in_: None,
                not_in: None,
            },
        )],
        options: None,
    };
    assert!(config.validate().is_ok());
}

#[test]
fn validate_rejects_binding_without_action() {
    let config = Config {
        modmap: None,
        modes: None,
        groups: vec![(
            String::from("g"),
            Group {
                key_bindings: vec![KeyBinding {
                    key_combo: combo("C-a"),
                    shell: None,
                    remap: None,
                    desc: None,
                }],
                in_: None,
                not_in: None,
            },
        )],
        options: None,
    };
    assert_eq!(config.validate(), Err(ConfigError::InvalidBinding(combo("C-a"))));
}

#[test]
fn validate_rejects_binding_with_two_actions() {
    let config = Config {
        modmap: None,
        modes: None,
        groups: vec![(
            String::from("g"),
            Group {
                key_bindings: vec![KeyBinding {
                    key_combo: combo("C-a"),
                    shell: Some(String::from("true")),
                    remap: Some(combo("down")),
                    desc: None,
                }],
                in_: None,
                not_in: None,
            },
        )],
        options: None,
    };
    assert_eq!(config.validate(), Err(ConfigError::InvalidBinding(combo("C-a"))));
}

#[test]
fn get_action_prefers_shell() {
    let b = KeyBinding {
        key_combo: combo("C-a"),
        shell: Some(String::from("true")),
        remap: None,
        desc: None,
    };
    match b.get_action() {
        Action::Shell(cmd) => assert_eq!(cmd, "true"),
        other => panic!("expected a shell action, got {:?}", other),
    }
    let b = KeyBinding { key_combo: combo("C-b"), shell: None, remap: Some(combo("up")), desc: None };
    match b.get_action() {
        Action::Remap(t) => assert_eq!(t, combo("up")),
        other => panic!("expected a remap action, got {:?}", other),
    }
}

#[test]
fn options_and_modes_parse_into_the_schema() {
    let config = Config {
        modmap: Some(vec![(58, 29)]),
        modes: Some(vec![(
            String::from("normal"),
            Mode { groups: vec![String::from("g")], switch_key: Some(combo("C-n")) },
        )]),
        groups: vec![(
            String::from("g"),
            Group { key_bindings: vec![], in_: None, not_in: None },
        )],
        options: Some(Options {
            mode_switch_key: Some(combo("C-z")),
            default_mode: Some(String::from("normal")),
        }),
    };
    assert!(config.validate().is_ok());
}
