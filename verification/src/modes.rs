//! The mode-switching order: the successor of a mode in declaration
//! order, wrapping from the last mode to the first, and the proof that
//! cycling as many times as there are modes comes back to the start.

use vstd::prelude::*;

verus! {

/// Index of the first occurrence of `name` in `names`.
pub open spec fn find_index(names: Seq<Seq<char>>, name: Seq<char>) -> Option<int>
    decreases names.len(),
{
    if names.len() == 0 {
        None
    } else if names[0] == name {
        Some(0)
    } else {
        match find_index(names.drop_first(), name) {
            Some(i) => Some(i + 1),
            None => None,
        }
    }
}

/// What `find_index` returns is the first occurrence: an in-bounds index
/// holding `name` with no earlier occurrence, or nothing when `name` does
/// not occur at all.
pub proof fn lemma_find_index_char(names: Seq<Seq<char>>, name: Seq<char>)
    ensures
        match find_index(names, name) {
            Some(i) => 0 <= i < names.len() && names[i] == name && forall|j: int|
                0 <= j < i ==> names[j] != name,
            None => forall|j: int| 0 <= j < names.len() ==> names[j] != name,
        },
    decreases names.len(),
{
    if names.len() > 0 && names[0] != name {
        let t = names.drop_first();
        lemma_find_index_char(t, name);
        assert(forall|j: int| 0 <= j < t.len() ==> t[j] == names[j + 1]);
        match find_index(t, name) {
            Some(i) => {
                assert(forall|j: int| 1 <= j < i + 1 ==> names[j] == t[j - 1]);
            },
            None => {
                assert(forall|j: int| 1 <= j < names.len() ==> names[j] == t[j - 1]);
            },
        }
    }
}

/// The mode following `current` in declaration order, wrapping to the
/// first mode after the last; nothing when `current` is not declared.
pub open spec fn cycle_next(names: Seq<Seq<char>>, current: Seq<char>) -> Option<Seq<char>> {
    match find_index(names, current) {
        Some(i) => Some(
            names[if i + 1 < names.len() {
                i + 1
            } else {
                0
            }],
        ),
        None => None,
    }
}

/// No two declared mode names are the same.
pub open spec fn distinct_names(names: Seq<Seq<char>>) -> bool {
    forall|i: int, j: int| 0 <= i < j < names.len() ==> names[i] != names[j]
}

/// The mode reached from `start` after `k` cycle transitions.
pub open spec fn cycle_iter(names: Seq<Seq<char>>, start: Seq<char>, k: nat) -> Option<Seq<char>>
    decreases k,
{
    if k == 0 {
        Some(start)
    } else {
        match cycle_iter(names, start, (k - 1) as nat) {
            Some(m) => cycle_next(names, m),
            None => None,
        }
    }
}

/// With distinct names, the first occurrence of `names[i]` is `i`.
proof fn lemma_find_index_self(names: Seq<Seq<char>>, i: int)
    requires
        distinct_names(names),
        0 <= i < names.len(),
    ensures
        find_index(names, names[i]) == Some(i),
{
    lemma_find_index_char(names, names[i]);
}

/// Cycling `k` times from the mode at index `i` lands on the mode at
/// index `(i + k) % n`, when the `n` declared names are distinct.
proof fn lemma_cycle_iter_index(names: Seq<Seq<char>>, i: int, k: nat)
    requires
        distinct_names(names),
        0 <= i < names.len(),
    ensures
        cycle_iter(names, names[i], k) == Some(names[(i + k) % (names.len() as int)]),
    decreases k,
{
    let n = names.len() as int;
    if k == 0 {
        assert((i + 0) % n == i) by (nonlinear_arith)
            requires
                0 <= i < n,
        ;
    } else {
        lemma_cycle_iter_index(names, i, (k - 1) as nat);
        let j = (i + k - 1) % n;
        assert(0 <= j < n) by (nonlinear_arith)
            requires
                n > 0,
                j == (i + k - 1) % n,
        ;
        lemma_find_index_self(names, j);
        let next = if j + 1 < n {
            j + 1
        } else {
            0
        };
        assert(cycle_iter(names, names[i], k) == Some(names[next]));
        assert(next == (i + k) % n) by (nonlinear_arith)
            requires
                n > 0,
                0 <= j < n,
                j == (i + k - 1) % n,
                next == if j + 1 < n {
                    j + 1
                } else {
                    0
                },
                k >= 1,
        ;
    }
}

/// Cycling through the mode-switch key as many times as there are modes
/// brings the current mode back to where it started, provided the
/// declared mode names are distinct.
pub proof fn lemma_cycle_round_trip(names: Seq<Seq<char>>, start: Seq<char>)
    requires
        distinct_names(names),
        names.contains(start),
    ensures
        cycle_iter(names, start, names.len()) == Some(start),
{
    let i = names.index_of(start);
    lemma_cycle_iter_index(names, i, names.len());
    let n = names.len() as int;
    assert((i + n) % n == i) by (nonlinear_arith)
        requires
            0 <= i < n,
    ;
}

} // verus!
