//! The derived binding table: association lists from key combination to
//! match rule, and from mode name to such a table.
//!
//! Entries are appended in construction order and looked up from the most
//! recently added entry backwards, so a later entry for the same key
//! shadows an earlier one — the last write wins, as when groups collide
//! on a combo.

use vstd::prelude::*;

use crate::config::{Action, ActionV};
use crate::keys::KeyCombo;
use crate::strutil::{clone_strings, str_eq_str};

verus! {

/// The value a combo is looked up to: the group's allow-list and
/// deny-list, and the binding's action.
#[derive(Debug)]
pub struct KeyMatchStruct {
    pub in_: Vec<String>,
    pub not_in: Vec<String>,
    pub action: Action,
}

/// Mathematical model of a [`KeyMatchStruct`].
#[verifier::ext_equal]
pub struct RuleV {
    pub in_: Seq<Seq<char>>,
    pub not_in: Seq<Seq<char>>,
    pub action: ActionV,
}

impl View for KeyMatchStruct {
    type V = RuleV;

    open spec fn view(&self) -> RuleV {
        RuleV {
            in_: self.in_.deep_view(),
            not_in: self.not_in.deep_view(),
            action: self.action@,
        }
    }
}

impl RuleV {
    /// Whether looking this rule up must consult the focused application
    /// class: true exactly when either filter list is non-empty.
    pub open spec fn needs_class(self) -> bool {
        self.in_.len() > 0 || self.not_in.len() > 0
    }

    /// Whether the rule applies for the given focused application class:
    /// the class must be in the allow-list (when one is given) and must
    /// not be in the deny-list (when one is given).
    pub open spec fn applies_to(self, class: Seq<char>) -> bool {
        (self.in_.len() == 0 || self.in_.contains(class)) && (self.not_in.len() == 0
            || !self.not_in.contains(class))
    }
}

impl KeyMatchStruct {
    /// A copy of this rule with the same model.
    pub fn duplicate(&self) -> (r: KeyMatchStruct)
        ensures
            r@ == self@,
    {
        KeyMatchStruct {
            in_: clone_strings(&self.in_),
            not_in: clone_strings(&self.not_in),
            action: self.action.duplicate(),
        }
    }
}

/// Lookup in an association list where the entry added last wins.
pub open spec fn assoc_get<K, V>(s: Seq<(K, V)>, key: K) -> Option<V>
    decreases s.len(),
{
    if s.len() == 0 {
        None
    } else if s.last().0 == key {
        Some(s.last().1)
    } else {
        assoc_get(s.drop_last(), key)
    }
}

/// A found value comes from one of the list's entries.
pub proof fn lemma_assoc_get_some<K, V>(s: Seq<(K, V)>, key: K)
    ensures
        (assoc_get(s, key) matches Some(v) ==> exists|i: int|
            0 <= i < s.len() && s[i] == (key, v)),
    decreases s.len(),
{
    if s.len() > 0 && !(s.last().0 == key) {
        lemma_assoc_get_some(s.drop_last(), key);
        if assoc_get(s, key) is Some {
            let v = assoc_get(s, key)->Some_0;
            let i = choose|i: int| 0 <= i < s.drop_last().len() && s.drop_last()[i] == (key, v);
            assert(s[i] == (key, v));
        }
    }
}

/// A table from key combination to match rule, the entry added last
/// winning on collision.
#[derive(Debug)]
pub struct ComboTable {
    pub entries: Vec<(KeyCombo, KeyMatchStruct)>,
}

impl View for ComboTable {
    type V = Seq<(KeyCombo, RuleV)>;

    open spec fn view(&self) -> Seq<(KeyCombo, RuleV)> {
        self.entries@.map_values(|p: (KeyCombo, KeyMatchStruct)| (p.0, p.1@))
    }
}

impl ComboTable {
    pub fn new() -> (r: ComboTable)
        ensures
            r@ == Seq::<(KeyCombo, RuleV)>::empty(),
    {
        let r = ComboTable { entries: Vec::new() };
        proof {
            assert(r@ =~= Seq::<(KeyCombo, RuleV)>::empty());
        }
        r
    }

    pub fn insert(&mut self, combo: KeyCombo, rule: KeyMatchStruct)
        ensures
            final(self)@ == old(self)@.push((combo, rule@)),
    {
        let ghost r = rule@;
        self.entries.push((combo, rule));
        proof {
            assert(final(self)@ =~= old(self)@.push((combo, r)));
        }
    }

    /// The rule bound to `combo`, if any; of several entries for the same
    /// combo the one added last is returned.
    pub fn get(&self, combo: &KeyCombo) -> (r: Option<&KeyMatchStruct>)
        ensures
            match r {
                Some(rule) => assoc_get(self@, *combo) == Some(rule@),
                None => assoc_get(self@, *combo) is None,
            },
    {
        let n = self.entries.len();
        let mut i: usize = n;
        proof {
            assert(self@.take(n as int) =~= self@);
        }
        while i > 0
            invariant
                i <= n,
                n == self.entries.len(),
                assoc_get(self@, *combo) == assoc_get(self@.take(i as int), *combo),
            decreases i,
        {
            i = i - 1;
            proof {
                assert(self@.take(i + 1).last() == self@[i as int]);
                assert(self@.take(i + 1).drop_last() =~= self@.take(i as int));
            }
            if self.entries[i].0 == *combo {
                return Some(&self.entries[i].1);
            }
        }
        None
    }
}

/// The direct-switch keys: a table from key combination to mode name,
/// the mode processed last winning on collision.
#[derive(Debug)]
pub struct SwitchKeyMap {
    pub entries: Vec<(KeyCombo, String)>,
}

impl View for SwitchKeyMap {
    type V = Seq<(KeyCombo, Seq<char>)>;

    open spec fn view(&self) -> Seq<(KeyCombo, Seq<char>)> {
        self.entries@.map_values(|p: (KeyCombo, String)| (p.0, p.1@))
    }
}

impl SwitchKeyMap {
    pub fn new() -> (r: SwitchKeyMap)
        ensures
            r@ == Seq::<(KeyCombo, Seq<char>)>::empty(),
    {
        let r = SwitchKeyMap { entries: Vec::new() };
        proof {
            assert(r@ =~= Seq::<(KeyCombo, Seq<char>)>::empty());
        }
        r
    }

    pub fn insert(&mut self, combo: KeyCombo, mode: String)
        ensures
            final(self)@ == old(self)@.push((combo, mode@)),
    {
        let ghost m = mode@;
        self.entries.push((combo, mode));
        proof {
            assert(final(self)@ =~= old(self)@.push((combo, m)));
        }
    }

    /// The mode directly activated by `combo`, if any.
    pub fn get(&self, combo: &KeyCombo) -> (r: Option<&String>)
        ensures
            match r {
                Some(mode) => assoc_get(self@, *combo) == Some(mode@),
                None => assoc_get(self@, *combo) is None,
            },
    {
        let n = self.entries.len();
        let mut i: usize = n;
        proof {
            assert(self@.take(n as int) =~= self@);
        }
        while i > 0
            invariant
                i <= n,
                n == self.entries.len(),
                assoc_get(self@, *combo) == assoc_get(self@.take(i as int), *combo),
            decreases i,
        {
            i = i - 1;
            proof {
                assert(self@.take(i + 1).last() == self@[i as int]);
                assert(self@.take(i + 1).drop_last() =~= self@.take(i as int));
            }
            if self.entries[i].0 == *combo {
                return Some(&self.entries[i].1);
            }
        }
        None
    }
}

/// The whole binding table: one combo table per mode name, plus the
/// sentinel empty name when no modes are configured.
#[derive(Debug)]
pub struct BindingTable {
    pub entries: Vec<(String, ComboTable)>,
}

impl View for BindingTable {
    type V = Seq<(Seq<char>, Seq<(KeyCombo, RuleV)>)>;

    open spec fn view(&self) -> Seq<(Seq<char>, Seq<(KeyCombo, RuleV)>)> {
        self.entries@.map_values(|p: (String, ComboTable)| (p.0@, p.1@))
    }
}

impl BindingTable {
    pub fn new() -> (r: BindingTable)
        ensures
            r@ == Seq::<(Seq<char>, Seq<(KeyCombo, RuleV)>)>::empty(),
    {
        let r = BindingTable { entries: Vec::new() };
        proof {
            assert(r@ =~= Seq::<(Seq<char>, Seq<(KeyCombo, RuleV)>)>::empty());
        }
        r
    }

    pub fn insert(&mut self, mode: String, table: ComboTable)
        ensures
            final(self)@ == old(self)@.push((mode@, table@)),
    {
        let ghost m = mode@;
        let ghost t = table@;
        self.entries.push((mode, table));
        proof {
            assert(final(self)@ =~= old(self)@.push((m, t)));
        }
    }

    /// The combo table of the mode named `mode`, if any.
    pub fn get(&self, mode: &str) -> (r: Option<&ComboTable>)
        ensures
            match r {
                Some(t) => assoc_get(self@, mode@) == Some(t@),
                None => assoc_get(self@, mode@) is None,
            },
    {
        let n = self.entries.len();
        let mut i: usize = n;
        proof {
            assert(self@.take(n as int) =~= self@);
        }
        while i > 0
            invariant
                i <= n,
                n == self.entries.len(),
                assoc_get(self@, mode@) == assoc_get(self@.take(i as int), mode@),
            decreases i,
        {
            i = i - 1;
            proof {
                assert(self@.take(i + 1).last() == self@[i as int]);
                assert(self@.take(i + 1).drop_last() =~= self@.take(i as int));
            }
            if str_eq_str(self.entries[i].0.as_str(), mode) {
                return Some(&self.entries[i].1);
            }
        }
        None
    }
}

} // verus!
