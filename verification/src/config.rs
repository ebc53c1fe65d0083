//! The configuration schema: bindings, groups, modes and options, together
//! with the load-time validation pass.
//!
//! A binding must carry exactly one action — either a key to remap to or a
//! shell command. Validation rejects anything else before an engine is
//! built, so dispatch never meets a binding without an action.

use vstd::prelude::*;

use crate::keys::KeyCombo;

verus! {

/// What a matched binding does: emit a different key combination, or run
/// a shell command.
#[derive(Debug)]
pub enum Action {
    Remap(KeyCombo),
    Shell(String),
}

/// Mathematical model of an [`Action`]: the command as a character sequence.
#[verifier::ext_equal]
pub enum ActionV {
    Remap(KeyCombo),
    Shell(Seq<char>),
}

impl View for Action {
    type V = ActionV;

    open spec fn view(&self) -> ActionV {
        match self {
            Action::Remap(k) => ActionV::Remap(*k),
            Action::Shell(s) => ActionV::Shell(s@),
        }
    }
}

impl Action {
    /// A copy of this action with the same model.
    pub fn duplicate(&self) -> (r: Action)
        ensures
            r@ == self@,
    {
        match self {
            Action::Remap(k) => Action::Remap(*k),
            Action::Shell(s) => Action::Shell(s.clone()),
        }
    }
}

/// One authored key binding: a trigger combo and the action it stands for.
/// `desc` is a human-readable note with no effect on behaviour.
#[derive(Debug)]
pub struct KeyBinding {
    pub key_combo: KeyCombo,
    pub shell: Option<String>,
    pub remap: Option<KeyCombo>,
    pub desc: Option<String>,
}

/// Mathematical model of a [`KeyBinding`]. The description is not part of
/// the model: it never influences behaviour.
#[verifier::ext_equal]
pub struct BindingV {
    pub key_combo: KeyCombo,
    pub shell: Option<Seq<char>>,
    pub remap: Option<KeyCombo>,
}

impl View for KeyBinding {
    type V = BindingV;

    open spec fn view(&self) -> BindingV {
        BindingV {
            key_combo: self.key_combo,
            shell: match self.shell {
                Some(s) => Some(s@),
                None => None,
            },
            remap: self.remap,
        }
    }
}

impl DeepView for KeyBinding {
    type V = BindingV;

    open spec fn deep_view(&self) -> BindingV {
        self.view()
    }
}

impl BindingV {
    /// A binding is well-formed when exactly one of the two actions is set.
    pub open spec fn wf(self) -> bool {
        (self.shell is Some) != (self.remap is Some)
    }

    /// The action a well-formed binding stands for. The shell command is
    /// inspected first, mirroring dispatch order.
    pub open spec fn spec_action(self) -> ActionV {
        match self.shell {
            Some(s) => ActionV::Shell(s),
            None => match self.remap {
                Some(k) => ActionV::Remap(k),
                None => ActionV::Remap(arbitrary()),
            },
        }
    }
}

impl KeyBinding {
    /// The action this binding stands for.
    pub fn get_action(&self) -> (r: Action)
        requires
            self@.wf(),
        ensures
            r@ == self@.spec_action(),
    {
        if let Some(s) = &self.shell {
            Action::Shell(s.clone())
        } else {
            let k = self.remap;
            Action::Remap(k.unwrap())
        }
    }
}

/// An ordered list of bindings with an optional allow-list (`in_`) and an
/// optional deny-list (`not_in`) of application classes.
#[derive(Debug)]
pub struct Group {
    pub key_bindings: Vec<KeyBinding>,
    pub in_: Option<Vec<String>>,
    pub not_in: Option<Vec<String>>,
}

/// Mathematical model of a [`Group`].
#[verifier::ext_equal]
pub struct GroupV {
    pub key_bindings: Seq<BindingV>,
    pub in_: Option<Seq<Seq<char>>>,
    pub not_in: Option<Seq<Seq<char>>>,
}

impl View for Group {
    type V = GroupV;

    open spec fn view(&self) -> GroupV {
        GroupV {
            key_bindings: self.key_bindings.deep_view(),
            in_: match self.in_ {
                Some(v) => Some(v.deep_view()),
                None => None,
            },
            not_in: match self.not_in {
                Some(v) => Some(v.deep_view()),
                None => None,
            },
        }
    }
}

impl GroupV {
    /// Every binding of the group carries exactly one action.
    pub open spec fn wf(self) -> bool {
        forall|i: int| 0 <= i < self.key_bindings.len() ==> self.key_bindings[i].wf()
    }

    /// The allow-list, with absence meaning the empty list.
    pub open spec fn allow(self) -> Seq<Seq<char>> {
        match self.in_ {
            Some(v) => v,
            None => Seq::empty(),
        }
    }

    /// The deny-list, with absence meaning the empty list.
    pub open spec fn deny(self) -> Seq<Seq<char>> {
        match self.not_in {
            Some(v) => v,
            None => Seq::empty(),
        }
    }
}

/// A mode: the group names whose bindings are live while the mode is
/// current, and an optional combo that activates the mode directly.
#[derive(Debug)]
pub struct Mode {
    pub groups: Vec<String>,
    pub switch_key: Option<KeyCombo>,
}

/// Mathematical model of a [`Mode`].
#[verifier::ext_equal]
pub struct ModeV {
    pub groups: Seq<Seq<char>>,
    pub switch_key: Option<KeyCombo>,
}

impl View for Mode {
    type V = ModeV;

    open spec fn view(&self) -> ModeV {
        ModeV { groups: self.groups.deep_view(), switch_key: self.switch_key }
    }
}

/// Global options: the combo that cycles to the next mode, and the mode
/// that is current at startup.
#[derive(Debug)]
pub struct Options {
    pub mode_switch_key: Option<KeyCombo>,
    pub default_mode: Option<String>,
}

/// Mathematical model of [`Options`].
#[verifier::ext_equal]
pub struct OptionsV {
    pub mode_switch_key: Option<KeyCombo>,
    pub default_mode: Option<Seq<char>>,
}

impl View for Options {
    type V = OptionsV;

    open spec fn view(&self) -> OptionsV {
        OptionsV {
            mode_switch_key: self.mode_switch_key,
            default_mode: match self.default_mode {
                Some(s) => Some(s@),
                None => None,
            },
        }
    }
}

/// The validated configuration: named groups in declaration order, optional
/// named modes in declaration order, and options. `modmap` is parsed but
/// not consulted by the binding or dispatch logic.
#[derive(Debug)]
pub struct Config {
    pub modmap: Option<Vec<(u16, u16)>>,
    pub modes: Option<Vec<(String, Mode)>>,
    pub groups: Vec<(String, Group)>,
    pub options: Option<Options>,
}

/// Mathematical model of a [`Config`].
#[verifier::ext_equal]
pub struct ConfigV {
    pub modmap: Option<Seq<(u16, u16)>>,
    pub modes: Option<Seq<(Seq<char>, ModeV)>>,
    pub groups: Seq<(Seq<char>, GroupV)>,
    pub options: Option<OptionsV>,
}

impl View for Config {
    type V = ConfigV;

    open spec fn view(&self) -> ConfigV {
        ConfigV {
            modmap: match self.modmap {
                Some(v) => Some(v@),
                None => None,
            },
            modes: match self.modes {
                Some(v) => Some(v@.map_values(|p: (String, Mode)| (p.0@, p.1@))),
                None => None,
            },
            groups: self.groups@.map_values(|p: (String, Group)| (p.0@, p.1@)),
            options: match self.options {
                Some(o) => Some(o@),
                None => None,
            },
        }
    }
}

impl ConfigV {
    /// Every binding of every group carries exactly one action.
    pub open spec fn wf(self) -> bool {
        forall|i: int| 0 <= i < self.groups.len() ==> (#[trigger] self.groups[i].1).wf()
    }

    /// The declared mode list, or empty when modes are absent.
    pub open spec fn mode_list(self) -> Seq<(Seq<char>, ModeV)> {
        match self.modes {
            Some(ms) => ms,
            None => Seq::empty(),
        }
    }

    /// The options' cycle-switch key, if any.
    pub open spec fn cycle_key(self) -> Option<KeyCombo> {
        match self.options {
            Some(o) => o.mode_switch_key,
            None => None,
        }
    }

    /// The options' initial mode, if any.
    pub open spec fn default_mode(self) -> Option<Seq<char>> {
        match self.options {
            Some(o) => o.default_mode,
            None => None,
        }
    }
}

/// A configuration error found by validation.
#[derive(Debug, Clone, Copy, PartialEq, Eq, Structural)]
pub enum ConfigError {
    /// A binding with zero or two actions; carries the binding's trigger.
    InvalidBinding(KeyCombo),
}

impl Config {
    /// The load-time validation pass: accepts the configuration exactly
    /// when every binding carries exactly one action, and otherwise names
    /// the trigger combo of an offending binding.
    pub fn validate(&self) -> (r: Result<(), ConfigError>)
        ensures
            r is Ok <==> self@.wf(),
            r matches Err(ConfigError::InvalidBinding(c)) ==> exists|i: int, j: int|
                0 <= i < self@.groups.len() && 0 <= j < self@.groups[i].1.key_bindings.len()
                    && !(#[trigger] self@.groups[i].1.key_bindings[j]).wf()
                    && self@.groups[i].1.key_bindings[j].key_combo == c,
    {
        let ng = self.groups.len();
        let mut i: usize = 0;
        while i < ng
            invariant
                i <= ng,
                ng == self.groups.len(),
                forall|k: int| 0 <= k < i ==> (#[trigger] self@.groups[k].1).wf(),
            decreases ng - i,
        {
            let g = &self.groups[i].1;
            let nb = g.key_bindings.len();
            let mut j: usize = 0;
            while j < nb
                invariant
                    j <= nb,
                    0 <= i < self.groups.len(),
                    nb == self.groups[i as int].1.key_bindings.len(),
                    forall|k: int|
                        0 <= k < j ==> (#[trigger] self@.groups[i as int].1.key_bindings[k]).wf(),
                decreases nb - j,
            {
                let b = &self.groups[i].1.key_bindings[j];
                if b.shell.is_some() == b.remap.is_some() {
                    proof {
                        assert(!self@.groups[i as int].1.key_bindings[j as int].wf());
                        assert(!self@.groups[i as int].1.wf());
                    }
                    return Err(ConfigError::InvalidBinding(b.key_combo));
                }
                j = j + 1;
            }
            proof {
                assert(self@.groups[i as int].1.wf());
            }
            i = i + 1;
        }
        Ok(())
    }
}

} // verus!
