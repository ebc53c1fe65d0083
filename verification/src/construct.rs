//! One-time construction of the engine from a validated configuration:
//! resolving each mode's group names, flattening the groups' bindings
//! into a combo table where a later group wins on collision, and
//! collecting the direct-switch keys.

use vstd::prelude::*;

use crate::config::{BindingV, Config, ConfigV, Group, GroupV, Mode, ModeV};
use crate::engine::Engine;
use crate::keys::{KeyCombo, ModifierState};
use crate::strutil::{clone_strings, opt_str_view, str_eq_str};
use crate::table::{
    assoc_get, lemma_assoc_get_some, BindingTable, ComboTable, KeyMatchStruct, RuleV, SwitchKeyMap,
};

verus! {

/// The rule a binding of a group resolves to: the group's filters and
/// the binding's action.
pub open spec fn binding_rule(g: GroupV, b: BindingV) -> RuleV {
    RuleV { in_: g.allow(), not_in: g.deny(), action: b.spec_action() }
}

/// The rule a combo gets from one group: of the group's bindings for
/// that combo, the one listed last wins.
pub open spec fn group_lookup(g: GroupV, combo: KeyCombo) -> Option<RuleV>
    decreases g.key_bindings.len(),
{
    if g.key_bindings.len() == 0 {
        None
    } else if g.key_bindings.last().key_combo == combo {
        Some(binding_rule(g, g.key_bindings.last()))
    } else {
        group_lookup(GroupV { key_bindings: g.key_bindings.drop_last(), ..g }, combo)
    }
}

/// The rule a combo gets from a list of groups: the group listed last
/// wins on collision.
pub open spec fn groups_lookup(gs: Seq<GroupV>, combo: KeyCombo) -> Option<RuleV>
    decreases gs.len(),
{
    if gs.len() == 0 {
        None
    } else {
        match group_lookup(gs.last(), combo) {
            Some(r) => Some(r),
            None => groups_lookup(gs.drop_last(), combo),
        }
    }
}

/// A mode's group names resolved to group records in order; names not
/// found are silently skipped.
pub open spec fn resolved_groups(
    groups: Seq<(Seq<char>, GroupV)>,
    names: Seq<Seq<char>>,
) -> Seq<GroupV>
    decreases names.len(),
{
    if names.len() == 0 {
        Seq::empty()
    } else {
        let rest = resolved_groups(groups, names.drop_last());
        match assoc_get(groups, names.last()) {
            Some(g) => rest.push(g),
            None => rest,
        }
    }
}

/// All declared groups, in declaration order.
pub open spec fn all_group_values(gs: Seq<(Seq<char>, GroupV)>) -> Seq<GroupV> {
    gs.map_values(|p: (Seq<char>, GroupV)| p.1)
}

/// The mode a combo switches to directly: of the modes whose switch key
/// is the combo, the one declared last wins.
pub open spec fn spec_switch_key(modes: Seq<(Seq<char>, ModeV)>, combo: KeyCombo) -> Option<
    Seq<char>,
>
    decreases modes.len(),
{
    if modes.len() == 0 {
        None
    } else {
        match modes.last().1.switch_key {
            Some(k) => if k == combo {
                Some(modes.last().0)
            } else {
                spec_switch_key(modes.drop_last(), combo)
            },
            None => spec_switch_key(modes.drop_last(), combo),
        }
    }
}

/// The rule a binding table holds for a combo under a mode key.
pub open spec fn table_rule(
    t: Seq<(Seq<char>, Seq<(KeyCombo, RuleV)>)>,
    mode_key: Seq<char>,
    combo: KeyCombo,
) -> Option<RuleV> {
    match assoc_get(t, mode_key) {
        Some(ct) => assoc_get(ct, combo),
        None => None,
    }
}

/// The rule a configuration assigns to a combo under a mode key: with
/// modes, the named mode's resolved groups decide; without modes, all
/// groups decide under the empty sentinel key and no other key matches.
pub open spec fn spec_table_rule(cfg: ConfigV, mode_key: Seq<char>, combo: KeyCombo) -> Option<
    RuleV,
> {
    match cfg.modes {
        Some(ms) => match assoc_get(ms, mode_key) {
            Some(m) => groups_lookup(resolved_groups(cfg.groups, m.groups), combo),
            None => None,
        },
        None => if mode_key == Seq::<char>::empty() {
            groups_lookup(all_group_values(cfg.groups), combo)
        } else {
            None
        },
    }
}

/// View of a list of named groups.
pub open spec fn pairs_view(groups: Seq<(String, Group)>) -> Seq<(Seq<char>, GroupV)> {
    groups.map_values(|p: (String, Group)| (p.0@, p.1@))
}

/// The group declared under `name`, if any.
fn find_group<'a>(groups: &'a Vec<(String, Group)>, name: &str) -> (r: Option<&'a Group>)
    ensures
        match r {
            Some(g) => assoc_get(pairs_view(groups@), name@) == Some(g@),
            None => assoc_get(pairs_view(groups@), name@) is None,
        },
{
    let ghost gv = pairs_view(groups@);
    let n = groups.len();
    let mut i: usize = n;
    proof {
        assert(gv.take(n as int) =~= gv);
    }
    while i > 0
        invariant
            i <= n,
            n == groups.len(),
            gv == pairs_view(groups@),
            assoc_get(gv, name@) == assoc_get(gv.take(i as int), name@),
        decreases i,
    {
        i = i - 1;
        proof {
            assert(gv.take(i + 1).last() == gv[i as int]);
            assert(gv.take(i + 1).drop_last() =~= gv.take(i as int));
        }
        if str_eq_str(groups[i].0.as_str(), name) {
            return Some(&groups[i].1);
        }
    }
    None
}

/// The group's allow-list or deny-list made concrete, absence meaning
/// the empty list.
fn filter_list(list: &Option<Vec<String>>) -> (r: Vec<String>)
    ensures
        r.deep_view() == (match list {
            Some(v) => v.deep_view(),
            None => Seq::<Seq<char>>::empty(),
        }),
{
    match list {
        Some(v) => clone_strings(v),
        None => {
            let r: Vec<String> = Vec::new();
            proof {
                assert(r.deep_view() =~= Seq::<Seq<char>>::empty());
            }
            r
        },
    }
}

/// Appends every binding of one group to the table, in order, so that
/// the group's later bindings and this group as a whole win on collision.
fn push_group_bindings(t: &mut ComboTable, g: &Group)
    requires
        g@.wf(),
    ensures
        forall|c: KeyCombo|
            assoc_get(final(t)@, c) == (match group_lookup(g@, c) {
                Some(r) => Some(r),
                None => assoc_get(old(t)@, c),
            }),
{
    let ghost gv = g@;
    let in_list = filter_list(&g.in_);
    let not_in_list = filter_list(&g.not_in);
    let nb = g.key_bindings.len();
    let mut j: usize = 0;
    proof {
        assert(gv.key_bindings.take(0) =~= Seq::<BindingV>::empty());
        assert(forall|c: KeyCombo|
            assoc_get(t@, c) == (match group_lookup(
                (GroupV { key_bindings: gv.key_bindings.take(0), ..gv }),
                c,
            ) {
                Some(r) => Some(r),
                None => assoc_get(old(t)@, c),
            }));
    }
    while j < nb
        invariant
            j <= nb,
            nb == g.key_bindings.len(),
            gv == g@,
            gv.wf(),
            in_list.deep_view() == gv.allow(),
            not_in_list.deep_view() == gv.deny(),
            forall|c: KeyCombo|
                assoc_get(t@, c) == (match group_lookup(
                    (GroupV { key_bindings: gv.key_bindings.take(j as int), ..gv }),
                    c,
                ) {
                    Some(r) => Some(r),
                    None => assoc_get(old(t)@, c),
                }),
        decreases nb - j,
    {
        let b = &g.key_bindings[j];
        proof {
            assert(b@ == gv.key_bindings[j as int]);
            assert(gv.key_bindings[j as int].wf());
        }
        let rule = KeyMatchStruct {
            in_: clone_strings(&in_list),
            not_in: clone_strings(&not_in_list),
            action: b.get_action(),
        };
        let ghost rv = rule@;
        let ghost t_before = t@;
        t.insert(b.key_combo, rule);
        proof {
            let gj = GroupV { key_bindings: gv.key_bindings.take(j as int), ..gv };
            let gj1 = GroupV { key_bindings: gv.key_bindings.take(j + 1), ..gv };
            let bv = gv.key_bindings[j as int];
            assert(gj1.key_bindings.last() == bv);
            assert(gj1.key_bindings.drop_last() =~= gj.key_bindings);
            assert((GroupV { key_bindings: gj1.key_bindings.drop_last(), ..gj1 }) =~= gj);
            assert(rv.in_ == gj1.allow());
            assert(rv.not_in == gj1.deny());
            assert(rv.action == bv.spec_action());
            assert(rv =~= binding_rule(gj1, bv));
            assert(t@ == t_before.push((bv.key_combo, rv)));
            assert(t@.drop_last() =~= t_before);
            assert(t@.last() == (bv.key_combo, rv));
            assert forall|c: KeyCombo|
                assoc_get(t@, c) == (match group_lookup(gj1, c) {
                    Some(r) => Some(r),
                    None => assoc_get(old(t)@, c),
                }) by {
                if c == bv.key_combo {
                    assert(assoc_get(t@, c) == Some(rv));
                    assert(group_lookup(gj1, c) == Some(binding_rule(gj1, bv)));
                } else {
                    assert(assoc_get(t@, c) == assoc_get(t_before, c));
                    assert(group_lookup(gj1, c) == group_lookup(gj, c));
                }
            }
        }
        j = j + 1;
    }
    proof {
        assert(gv.key_bindings.take(nb as int) =~= gv.key_bindings);
        assert((GroupV { key_bindings: gv.key_bindings.take(nb as int), ..gv }) =~= gv);
    }
}

impl Engine {
    /// Builds the direct-switch-key table and the binding table from the
    /// configuration, each mode's groups flattened in order with the
    /// later group winning on collision, and all groups flattened under
    /// the empty sentinel when no modes are declared.
    pub fn construct_lookup_table(config: &Config) -> (r: (SwitchKeyMap, BindingTable))
        requires
            config@.wf(),
        ensures
            forall|c: KeyCombo|
                assoc_get(r.0@, c) == spec_switch_key(config@.mode_list(), c),
            forall|mk: Seq<char>, c: KeyCombo|
                table_rule(r.1@, mk, c) == spec_table_rule(config@, mk, c),
    {
        let ghost cfgv = config@;
        let mut switch_keys = SwitchKeyMap::new();
        let mut res = BindingTable::new();
        proof {
            assert(cfgv.groups =~= pairs_view(config.groups@));
        }
        match &config.modes {
            Some(modes) => {
                let ghost msv = cfgv.mode_list();
                let n = modes.len();
                let mut i: usize = 0;
                proof {
                    assert(msv.take(0) =~= Seq::<(Seq<char>, ModeV)>::empty());
                }
                while i < n
                    invariant
                        i <= n,
                        n == modes.len(),
                        config@ == cfgv,
                        cfgv.wf(),
                        cfgv.groups == pairs_view(config.groups@),
                        (cfgv.modes matches Some(ms) && ms == msv),
                        msv == modes@.map_values(|p: (String, Mode)| (p.0@, p.1@)),
                        msv.len() == n,
                        forall|c: KeyCombo|
                            assoc_get(switch_keys@, c) == spec_switch_key(
                                msv.take(i as int),
                                c,
                            ),
                        forall|mk: Seq<char>, c: KeyCombo|
                            table_rule(res@, mk, c) == (match assoc_get(
                                msv.take(i as int),
                                mk,
                            ) {
                                Some(m) => groups_lookup(
                                    resolved_groups(cfgv.groups, m.groups),
                                    c,
                                ),
                                None => None,
                            }),
                    decreases n - i,
                {
                    let name = &modes[i].0;
                    let mode = &modes[i].1;
                    proof {
                        assert(msv[i as int] == (name@, mode@));
                        assert(msv.take(i + 1).last() == msv[i as int]);
                        assert(msv.take(i + 1).drop_last() =~= msv.take(i as int));
                    }
                    let ghost sk_before = switch_keys@;
                    match &mode.switch_key {
                        Some(combo) => {
                            switch_keys.insert(*combo, name.clone());
                            proof {
                                assert(switch_keys@ == sk_before.push((*combo, name@)));
                                assert forall|c: KeyCombo|
                                    assoc_get(switch_keys@, c) == spec_switch_key(
                                        msv.take(i + 1),
                                        c,
                                    ) by {
                                    let ms1 = msv.take(i + 1);
                                    assert(ms1.last() == (name@, mode@));
                                    assert(ms1.drop_last() =~= msv.take(i as int));
                                    assert(ms1.last().1.switch_key == Some(*combo));
                                    assert(switch_keys@.drop_last() =~= sk_before);
                                    assert(switch_keys@.last() == (*combo, name@));
                                    if c == *combo {
                                        assert(assoc_get(switch_keys@, c) == Some(name@));
                                        assert(spec_switch_key(ms1, c) == Some(name@));
                                    } else {
                                        assert(assoc_get(switch_keys@, c) == assoc_get(
                                            sk_before,
                                            c,
                                        ));
                                        assert(spec_switch_key(ms1, c) == spec_switch_key(
                                            msv.take(i as int),
                                            c,
                                        ));
                                    }
                                }
                            }
                        },
                        None => {
                            proof {
                                assert forall|c: KeyCombo|
                                    assoc_get(switch_keys@, c) == spec_switch_key(
                                        msv.take(i + 1),
                                        c,
                                    ) by {
                                    let ms1 = msv.take(i + 1);
                                    assert(ms1.last() == (name@, mode@));
                                    assert(ms1.drop_last() =~= msv.take(i as int));
                                    assert(ms1.last().1.switch_key is None);
                                    assert(spec_switch_key(ms1, c) == spec_switch_key(
                                        msv.take(i as int),
                                        c,
                                    ));
                                }
                            }
                        },
                    }
                    let mut kbs = ComboTable::new();
                    let ghost namesv = mode@.groups;
                    let ng = mode.groups.len();
                    let mut k: usize = 0;
                    proof {
                        assert(namesv.take(0) =~= Seq::<Seq<char>>::empty());
                    }
                    while k < ng
                        invariant
                            k <= ng,
                            ng == mode.groups.len(),
                            config@ == cfgv,
                            cfgv.wf(),
                            cfgv.groups == pairs_view(config.groups@),
                            namesv == mode@.groups,
                            namesv.len() == ng,
                            forall|c: KeyCombo|
                                assoc_get(kbs@, c) == groups_lookup(
                                    resolved_groups(cfgv.groups, namesv.take(k as int)),
                                    c,
                                ),
                        decreases ng - k,
                    {
                        proof {
                            assert(namesv[k as int] == mode.groups@[k as int]@);
                            assert(namesv.take(k + 1).last() == namesv[k as int]);
                            assert(namesv.take(k + 1).drop_last() =~= namesv.take(k as int));
                        }
                        match find_group(&config.groups, mode.groups[k].as_str()) {
                            Some(g) => {
                                proof {
                                    lemma_assoc_get_some(cfgv.groups, namesv[k as int]);
                                    let gi = choose|gi: int|
                                        0 <= gi < cfgv.groups.len() && cfgv.groups[gi] == (
                                        namesv[k as int],
                                        g@,
                                        );
                                    assert(cfgv.groups[gi].1.wf());
                                }
                                push_group_bindings(&mut kbs, g);
                                proof {
                                    let rs = resolved_groups(
                                        cfgv.groups,
                                        namesv.take(k as int),
                                    );
                                    let rs1 = resolved_groups(cfgv.groups, namesv.take(k + 1));
                                    assert(rs1 == rs.push(g@));
                                    assert forall|c: KeyCombo|
                                        assoc_get(kbs@, c) == groups_lookup(rs1, c) by {
                                        assert(rs1.last() == g@);
                                        assert(rs1.drop_last() =~= rs);
                                    }
                                }
                            },
                            None => {
                                proof {
                                    assert(resolved_groups(cfgv.groups, namesv.take(k + 1))
                                        == resolved_groups(
                                        cfgv.groups,
                                        namesv.take(k as int),
                                    ));
                                }
                            },
                        }
                        k = k + 1;
                    }
                    proof {
                        assert(namesv.take(ng as int) =~= namesv);
                    }
                    let ghost kv = kbs@;
                    let ghost res_before = res@;
                    res.insert(name.clone(), kbs);
                    proof {
                        assert(res@ == res_before.push((name@, kv)));
                        assert(res@.drop_last() =~= res_before);
                        assert(res@.last() == (name@, kv));
                        assert forall|mk: Seq<char>, c: KeyCombo|
                            table_rule(res@, mk, c) == (match assoc_get(msv.take(i + 1), mk) {
                                Some(m) => groups_lookup(
                                    resolved_groups(cfgv.groups, m.groups),
                                    c,
                                ),
                                None => None,
                            }) by {
                            let ms1 = msv.take(i + 1);
                            assert(ms1.last() == (name@, mode@));
                            assert(ms1.drop_last() =~= msv.take(i as int));
                            if mk == name@ {
                                assert(assoc_get(res@, mk) == Some(kv));
                                assert(assoc_get(ms1, mk) == Some(mode@));
                                assert(namesv.take(ng as int) == namesv);
                                assert(assoc_get(kv, c) == groups_lookup(
                                    resolved_groups(cfgv.groups, namesv.take(ng as int)),
                                    c,
                                ));
                                assert(namesv == mode@.groups);
                                assert(assoc_get(kv, c) == groups_lookup(
                                    resolved_groups(cfgv.groups, mode@.groups),
                                    c,
                                ));
                            } else {
                                assert(assoc_get(res@, mk) == assoc_get(res_before, mk));
                                assert(assoc_get(ms1, mk) == assoc_get(msv.take(i as int), mk));
                                assert(table_rule(res_before, mk, c) == (match assoc_get(
                                    msv.take(i as int),
                                    mk,
                                ) {
                                    Some(m) => groups_lookup(
                                        resolved_groups(cfgv.groups, m.groups),
                                        c,
                                    ),
                                    None => None,
                                }));
                            }
                        }
                    }
                    i = i + 1;
                }
                proof {
                    assert(msv.take(n as int) =~= msv);
                }
            },
            None => {
                let ghost gsv = all_group_values(cfgv.groups);
                let mut kbs = ComboTable::new();
                let n = config.groups.len();
                let mut i: usize = 0;
                proof {
                    assert(gsv.take(0) =~= Seq::<GroupV>::empty());
                }
                while i < n
                    invariant
                        i <= n,
                        n == config.groups.len(),
                        config@ == cfgv,
                        cfgv.wf(),
                        cfgv.groups == pairs_view(config.groups@),
                        cfgv.modes is None,
                        gsv == all_group_values(cfgv.groups),
                        gsv.len() == n,
                        forall|c: KeyCombo|
                            assoc_get(kbs@, c) == groups_lookup(gsv.take(i as int), c),
                    decreases n - i,
                {
                    let g = &config.groups[i].1;
                    proof {
                        assert(g@ == cfgv.groups[i as int].1);
                        assert(cfgv.groups[i as int].1.wf());
                        assert(gsv[i as int] == g@);
                        assert(gsv.take(i + 1).last() == gsv[i as int]);
                        assert(gsv.take(i + 1).drop_last() =~= gsv.take(i as int));
                    }
                    push_group_bindings(&mut kbs, g);
                    proof {
                        let rs = gsv.take(i as int);
                        let rs1 = gsv.take(i + 1);
                        assert forall|c: KeyCombo| assoc_get(kbs@, c) == groups_lookup(
                            rs1,
                            c,
                        ) by {
                            assert(rs1.last() == g@);
                            assert(rs1.drop_last() =~= rs);
                        }
                    }
                    i = i + 1;
                }
                proof {
                    assert(gsv.take(n as int) =~= gsv);
                }
                let ghost kv = kbs@;
                let sentinel = String::new();
                res.insert(sentinel, kbs);
                proof {
                    assert(res@.last() == (Seq::<char>::empty(), kv));
                    assert forall|mk: Seq<char>, c: KeyCombo|
                        table_rule(res@, mk, c) == spec_table_rule(cfgv, mk, c) by {
                        if mk == Seq::<char>::empty() {
                            assert(assoc_get(res@, mk) == Some(kv));
                        } else {
                            let empty_table = Seq::<(Seq<char>, Seq<(KeyCombo, RuleV)>)>::empty();
                            assert(res@.drop_last() =~= empty_table);
                            assert(assoc_get(res@, mk) == assoc_get(empty_table, mk));
                            assert(assoc_get(empty_table, mk) is None);
                        }
                    }
                    assert(cfgv.mode_list() =~= Seq::<(Seq<char>, ModeV)>::empty());
                }
            },
        }
        (switch_keys, res)
    }

    /// Builds an engine from a validated configuration: every modifier
    /// released, the configured default mode current (or none), and the
    /// switch-key and binding tables built once.
    pub fn new(config: &Config) -> (r: Engine)
        requires
            config@.wf(),
        ensures
            r.modifiers == ModifierState::all_released(),
            opt_str_view(r.current_mode) == config@.default_mode(),
            r.cycle_switch_mode_key == config@.cycle_key(),
            r.mode_names() == config@.mode_list().map_values(|p: (Seq<char>, ModeV)| p.0),
            forall|c: KeyCombo|
                assoc_get(r.switch_mode_keys@, c) == spec_switch_key(config@.mode_list(), c),
            forall|mk: Seq<char>, c: KeyCombo|
                table_rule(r.lookup_table@, mk, c) == spec_table_rule(config@, mk, c),
    {
        let tables = Self::construct_lookup_table(config);
        let switch_mode_keys = tables.0;
        let lookup_table = tables.1;
        let current_mode = match &config.options {
            Some(o) => match &o.default_mode {
                Some(m) => Some(m.clone()),
                None => None,
            },
            None => None,
        };
        let cycle_switch_mode_key = match &config.options {
            Some(o) => o.mode_switch_key,
            None => None,
        };
        let mut all_modes: Vec<String> = Vec::new();
        if let Some(modes) = &config.modes {
            let n = modes.len();
            let mut i: usize = 0;
            while i < n
                invariant
                    i <= n,
                    n == modes.len(),
                    all_modes.len() == i,
                    forall|j: int| 0 <= j < i ==> all_modes@[j]@ == modes@[j].0@,
                decreases n - i,
            {
                let s = modes[i].0.clone();
                proof {
                    assert(s@ == modes@[i as int].0@);
                }
                all_modes.push(s);
                i = i + 1;
            }
        }
        let r = Engine {
            modifiers: Default::default(),
            current_mode,
            all_modes,
            switch_mode_keys,
            cycle_switch_mode_key,
            lookup_table,
        };
        proof {
            let mn = r.all_modes.deep_view();
            let names = config@.mode_list().map_values(|p: (Seq<char>, ModeV)| p.0);
            assert forall|j: int| 0 <= j < mn.len() implies mn[j] == r.all_modes@[j]@ by {}
            assert(mn =~= names);
        }
        r
    }
}

} // verus!
