//! Parsing of key names, modifier names, and key-combination strings of
//! the form `"C-M-x"`: dash-separated modifier names followed by a key
//! name. Key names are resolved through the kernel key-name table; a few
//! extra aliases (`SHIFT_R`, `CTRL_L`, ...) are accepted on top of it.

use vstd::prelude::*;
use vstd::string::StrSliceExecFns;
use vstd::string::StringExecFns;

use crate::keys::{
    KeyCombo, Modifier, KEY_LEFTALT, KEY_LEFTCTRL, KEY_LEFTMETA, KEY_LEFTSHIFT, KEY_RIGHTALT,
    KEY_RIGHTCTRL, KEY_RIGHTMETA, KEY_RIGHTSHIFT,
};
use crate::strutil::{str_eq_str, to_upper, upper_seq};

verus! {

/// An error from parsing a combo string: the offending modifier segment,
/// or the offending key segment.
#[derive(Debug)]
pub enum ParseError {
    UnknownModifier(String),
    UnknownKey(String),
}

impl ParseError {
    /// The error rendered for display.
    pub fn message(&self) -> (r: String)
        ensures
            match self {
                ParseError::UnknownModifier(m) => r@ == "unknown modifier: "@ + m@,
                ParseError::UnknownKey(k) => r@ == "failed to parse key: "@ + k@,
            },
    {
        match self {
            ParseError::UnknownModifier(m) => {
                let mut s = "unknown modifier: ".to_owned();
                s.append(m.as_str());
                s
            },
            ParseError::UnknownKey(k) => {
                let mut s = "failed to parse key: ".to_owned();
                s.append(k.as_str());
                s
            },
        }
    }
}

/// The key code the kernel key-name table gives to a name such as
/// `"KEY_A"`, or none when the name is not in the table. The result is a
/// function of the name alone.
pub uninterp spec fn evdev_key_code(name: Seq<char>) -> Option<u16>;

/// Relies on `evdev::Key::from_str`: looks the name up in the table of
/// key constants; the result depends on the name alone.
#[verifier::external_body]
fn key_from_name(name: &str) -> (r: Option<u16>)
    ensures
        r == evdev_key_code(name@),
{
    match <evdev::Key as core::str::FromStr>::from_str(name) {
        Ok(k) => Some(k.code()),
        Err(_) => None,
    }
}

/// The modifier a name stands for, compared ASCII-case-insensitively.
pub open spec fn spec_parse_modifier(s: Seq<char>) -> Option<Modifier> {
    let u = upper_seq(s);
    if u == "SHIFT"@ {
        Some(Modifier::Shift)
    } else if u == "C"@ || u == "CTRL"@ || u == "CONTROL"@ {
        Some(Modifier::Control)
    } else if u == "M"@ || u == "META"@ || u == "ALT"@ {
        Some(Modifier::Alt)
    } else if u == "SUPER"@ || u == "WIN"@ || u == "WINDOWS"@ {
        Some(Modifier::Windows)
    } else {
        None
    }
}

/// The modifier a name stands for: `shift`, `c`/`ctrl`/`control`,
/// `m`/`meta`/`alt`, or `super`/`win`/`windows`, in any ASCII case.
pub fn parse_modifier(modifier: &str) -> (r: Option<Modifier>)
    ensures
        r == spec_parse_modifier(modifier@),
{
    let u = to_upper(modifier);
    let s = u.as_str();
    if str_eq_str(s, "SHIFT") {
        Some(Modifier::Shift)
    } else if str_eq_str(s, "C") || str_eq_str(s, "CTRL") || str_eq_str(s, "CONTROL") {
        Some(Modifier::Control)
    } else if str_eq_str(s, "M") || str_eq_str(s, "META") || str_eq_str(s, "ALT") {
        Some(Modifier::Alt)
    } else if str_eq_str(s, "SUPER") || str_eq_str(s, "WIN") || str_eq_str(s, "WINDOWS") {
        Some(Modifier::Windows)
    } else {
        None
    }
}

/// The extra left/right key-name aliases accepted on top of the kernel
/// table, already upper-cased.
pub open spec fn alias_code(u: Seq<char>) -> Option<u16> {
    if u == "SHIFT_R"@ {
        Some(KEY_RIGHTSHIFT)
    } else if u == "SHIFT_L"@ {
        Some(KEY_LEFTSHIFT)
    } else if u == "CONTROL_R"@ || u == "CTRL_R"@ {
        Some(KEY_RIGHTCTRL)
    } else if u == "CONTROL_L"@ || u == "CTRL_L"@ {
        Some(KEY_LEFTCTRL)
    } else if u == "ALT_R"@ {
        Some(KEY_RIGHTALT)
    } else if u == "ALT_L"@ {
        Some(KEY_LEFTALT)
    } else if u == "SUPER_R"@ || u == "WIN_R"@ {
        Some(KEY_RIGHTMETA)
    } else if u == "SUPER_L"@ || u == "WIN_L"@ {
        Some(KEY_LEFTMETA)
    } else {
        None
    }
}

/// The code a key name resolves to: the upper-cased name looked up in the
/// kernel table as written, then with `KEY_` prefixed, then among the
/// aliases.
pub open spec fn spec_parse_key(s: Seq<char>) -> Option<u16> {
    let u = upper_seq(s);
    match evdev_key_code(u) {
        Some(c) => Some(c),
        None => match evdev_key_code("KEY_"@ + u) {
            Some(c) => Some(c),
            None => alias_code(u),
        },
    }
}

/// Resolves a key name to its code, or reports the name that failed.
pub fn parse_key(input: &str) -> (r: Result<u16, ParseError>)
    ensures
        match r {
            Ok(code) => spec_parse_key(input@) == Some(code),
            Err(e) => spec_parse_key(input@) is None && (e matches ParseError::UnknownKey(k) && k@
                == input@),
        },
{
    let name = to_upper(input);
    if let Some(code) = key_from_name(name.as_str()) {
        return Ok(code);
    }
    let mut prefixed = "KEY_".to_owned();
    prefixed.append(name.as_str());
    if let Some(code) = key_from_name(prefixed.as_str()) {
        return Ok(code);
    }
    let s = name.as_str();
    if str_eq_str(s, "SHIFT_R") {
        Ok(KEY_RIGHTSHIFT)
    } else if str_eq_str(s, "SHIFT_L") {
        Ok(KEY_LEFTSHIFT)
    } else if str_eq_str(s, "CONTROL_R") || str_eq_str(s, "CTRL_R") {
        Ok(KEY_RIGHTCTRL)
    } else if str_eq_str(s, "CONTROL_L") || str_eq_str(s, "CTRL_L") {
        Ok(KEY_LEFTCTRL)
    } else if str_eq_str(s, "ALT_R") {
        Ok(KEY_RIGHTALT)
    } else if str_eq_str(s, "ALT_L") {
        Ok(KEY_LEFTALT)
    } else if str_eq_str(s, "SUPER_R") || str_eq_str(s, "WIN_R") {
        Ok(KEY_RIGHTMETA)
    } else if str_eq_str(s, "SUPER_L") || str_eq_str(s, "WIN_L") {
        Ok(KEY_LEFTMETA)
    } else {
        Err(ParseError::UnknownKey(input.to_owned()))
    }
}

/// Index of the first dash in a character sequence.
pub open spec fn first_dash(s: Seq<char>) -> Option<int>
    decreases s.len(),
{
    if s.len() == 0 {
        None
    } else if s[0] == '-' {
        Some(0)
    } else {
        match first_dash(s.drop_first()) {
            Some(i) => Some(i + 1),
            None => None,
        }
    }
}

/// What `first_dash` returns is the first dash: a dash within bounds with
/// none before it, or nothing when the sequence has no dash at all.
pub proof fn lemma_first_dash_char(s: Seq<char>)
    ensures
        match first_dash(s) {
            Some(i) => 0 <= i < s.len() && s[i] == '-' && forall|j: int| 0 <= j < i ==> s[j] != '-',
            None => forall|j: int| 0 <= j < s.len() ==> s[j] != '-',
        },
    decreases s.len(),
{
    if s.len() > 0 && s[0] != '-' {
        let t = s.drop_first();
        lemma_first_dash_char(t);
        assert(forall|j: int| 0 <= j < t.len() ==> t[j] == s[j + 1]);
        match first_dash(t) {
            Some(i) => {
                assert(first_dash(s) == Some(i + 1));
                assert(forall|j: int| 1 <= j < i + 1 ==> s[j] == t[j - 1]);
            },
            None => {
                assert(forall|j: int| 1 <= j < s.len() ==> s[j] == t[j - 1]);
            },
        }
    }
}

/// Finds the first dash of a string slice.
fn find_dash(s: &str) -> (r: Option<usize>)
    ensures
        match r {
            Some(i) => first_dash(s@) == Some(i as int),
            None => first_dash(s@) is None,
        },
{
    let n = s.unicode_len();
    let mut i: usize = 0;
    while i < n
        invariant
            i <= n,
            n == s@.len(),
            forall|j: int| 0 <= j < i ==> s@[j] != '-',
        decreases n - i,
    {
        if s.get_char(i) == '-' {
            proof {
                lemma_first_dash_char(s@);
            }
            return Some(i);
        }
        i = i + 1;
    }
    proof {
        lemma_first_dash_char(s@);
    }
    None
}

/// The result of parsing a combo string: a combo, or the segment that
/// failed as a modifier name, or the segment that failed as a key name.
#[verifier::ext_equal]
pub enum ComboParse {
    Parsed(KeyCombo),
    BadModifier(Seq<char>),
    BadKey(Seq<char>),
}

/// The combo with the flag of one modifier switched on.
pub open spec fn set_flag(c: KeyCombo, m: Modifier) -> KeyCombo {
    match m {
        Modifier::Shift => KeyCombo { shift: true, ..c },
        Modifier::Control => KeyCombo { control: true, ..c },
        Modifier::Alt => KeyCombo { alt: true, ..c },
        Modifier::Windows => KeyCombo { windows: true, ..c },
    }
}

/// Parsing a combo string: every dash-separated segment before the last
/// must name a modifier, the last segment must name a key; the first
/// segment that fails decides the error.
pub open spec fn spec_parse_key_combo(s: Seq<char>) -> ComboParse
    decreases s.len(),
    via spec_parse_key_combo_decreases
{
    match first_dash(s) {
        None => match spec_parse_key(s) {
            Some(code) => ComboParse::Parsed(
                KeyCombo { key: code, shift: false, control: false, alt: false, windows: false },
            ),
            None => ComboParse::BadKey(s),
        },
        Some(i) => {
            let seg = s.take(i);
            let rest = s.skip(i + 1);
            match spec_parse_modifier(seg) {
                None => ComboParse::BadModifier(seg),
                Some(m) => match spec_parse_key_combo(rest) {
                    ComboParse::Parsed(c) => ComboParse::Parsed(set_flag(c, m)),
                    e => e,
                },
            }
        },
    }
}

#[via_fn]
proof fn spec_parse_key_combo_decreases(s: Seq<char>) {
    lemma_first_dash_char(s);
}

/// The parse result with extra modifier flags switched on.
pub open spec fn apply_flags(p: ComboParse, sh: bool, ct: bool, al: bool, wi: bool) -> ComboParse {
    match p {
        ComboParse::Parsed(c) => ComboParse::Parsed(
            KeyCombo {
                key: c.key,
                shift: c.shift || sh,
                control: c.control || ct,
                alt: c.alt || al,
                windows: c.windows || wi,
            },
        ),
        e => e,
    }
}

/// Parses a combo string such as `"C-M-x"`: dash-separated modifier names
/// followed by a key name.
pub fn parse_key_combo(input: &str) -> (r: Result<KeyCombo, ParseError>)
    ensures
        match r {
            Ok(c) => spec_parse_key_combo(input@) == ComboParse::Parsed(c),
            Err(ParseError::UnknownModifier(m)) => spec_parse_key_combo(input@)
                == ComboParse::BadModifier(m@),
            Err(ParseError::UnknownKey(k)) => spec_parse_key_combo(input@) == ComboParse::BadKey(
                k@,
            ),
        },
{
    let mut rest: &str = input;
    let mut shift = false;
    let mut control = false;
    let mut alt = false;
    let mut windows = false;
    let mut dash = find_dash(rest);
    while dash.is_some()
        invariant
            match dash {
                Some(i) => first_dash(rest@) == Some(i as int),
                None => first_dash(rest@) is None,
            },
            spec_parse_key_combo(input@) == apply_flags(
                spec_parse_key_combo(rest@),
                shift,
                control,
                alt,
                windows,
            ),
        decreases rest@.len(),
    {
        let i = dash.unwrap();
        proof {
            lemma_first_dash_char(rest@);
        }
        let seg = rest.substring_char(0, i);
        proof {
            assert(seg@ =~= rest@.take(i as int));
        }
        match parse_modifier(seg) {
            None => {
                return Err(ParseError::UnknownModifier(seg.to_owned()));
            },
            Some(m) => {
                let ghost prev = rest@;
                let n = rest.unicode_len();
                let next = rest.substring_char(i + 1, n);
                proof {
                    assert(next@ =~= prev.skip(i + 1));
                }
                match m {
                    Modifier::Shift => {
                        shift = true;
                    },
                    Modifier::Control => {
                        control = true;
                    },
                    Modifier::Alt => {
                        alt = true;
                    },
                    Modifier::Windows => {
                        windows = true;
                    },
                }
                rest = next;
            },
        }
        dash = find_dash(rest);
    }
    proof {
        lemma_first_dash_char(rest@);
    }
    match parse_key(rest) {
        Ok(code) => Ok(KeyCombo { key: code, shift, control, alt, windows }),
        Err(e) => Err(e),
    }
}

} // verus!
