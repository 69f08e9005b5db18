//! The two orders in which the protocol picks nodes: elders by
//! (state ascending, age descending, name ascending), relocation candidates by
//! (age increase, hop, back online, age, name), largest first.
use crate::table::lemma_filter_take_step;
use crate::utilities::{Node, NodeState, RelocatedInfo, State};
use itertools::Itertools;
use std::cmp::Ordering;
use vstd::prelude::*;

verus! {

/// `a` comes before `b` in the lexicographic order of integer sequences.
pub open spec fn lex_lt(a: Seq<int>, b: Seq<int>) -> bool {
    exists|k: int|
        0 <= k < a.len() && k < b.len() && a[k] < b[k] && forall|j: int| 0 <= j < k ==> a[j] == b[j]
}

/// Position of a state's variant in the declaration of `State`.
pub open spec fn state_rank(st: State) -> int {
    match st {
        State::Online => 0,
        State::RelocatingAgeIncrease => 1,
        State::RelocatingHop => 2,
        State::RelocatingBackOnline => 3,
        State::Relocated(_) => 4,
        State::WaitingCandidateInfo(_) => 5,
        State::WaitingProofing => 6,
        State::Offline => 7,
    }
}

pub open spec fn info_key(info: RelocatedInfo) -> Seq<int> {
    seq![
        info.candidate.0.age.0 as int,
        info.candidate.0.name.0 as int,
        info.expected_age.0 as int,
        info.target_interval_centre.0 as int,
        info.section_info.0.0 as int,
        info.section_info.1 as int,
    ]
}

/// States compare by variant first, then by the ticket they carry.
pub open spec fn state_key(st: State) -> Seq<int> {
    match st {
        State::Relocated(info) => seq![state_rank(st)] + info_key(info),
        State::WaitingCandidateInfo(info) => seq![state_rank(st)] + info_key(info),
        _ => seq![state_rank(st), 0, 0, 0, 0, 0, 0],
    }
}

/// Online rows first, then older rows, then smaller names.
pub open spec fn elder_key(ns: NodeState) -> Seq<int> {
    state_key(ns.state) + seq![-(ns.node.0.age.0 as int), ns.node.0.name.0 as int]
}

pub open spec fn elder_before(a: NodeState, b: NodeState) -> bool {
    lex_lt(elder_key(a), elder_key(b))
}

pub open spec fn flag(b: bool) -> int {
    if b {
        1
    } else {
        0
    }
}

/// A row with a larger key is relocated first.
pub open spec fn relocation_key(ns: NodeState) -> Seq<int> {
    seq![
        flag(ns.state is RelocatingAgeIncrease),
        flag(ns.state is RelocatingHop),
        flag(ns.state is RelocatingBackOnline),
        ns.node.0.age.0 as int,
        ns.node.0.name.0 as int,
    ]
}

/// `sorted` holds the rows of `rows`, in elder order.
pub open spec fn is_elder_arrangement(sorted: Seq<NodeState>, rows: Seq<NodeState>) -> bool {
    &&& sorted.to_multiset() == rows.to_multiset()
    &&& forall|i: int, j: int| 0 <= i < j < sorted.len() ==> !elder_before(sorted[j], sorted[i])
}

pub open spec fn is_elder_row() -> spec_fn(NodeState) -> bool {
    |ns: NodeState| ns.is_elder
}

pub open spec fn is_adult_row() -> spec_fn(NodeState) -> bool {
    |ns: NodeState| !ns.is_elder
}

/// How many members are elders in a section of `n` members.
pub open spec fn elder_count(n: int) -> int {
    if n < 3 {
        n
    } else {
        3
    }
}

/// The rows of `sorted` that must become elders.
pub open spec fn promotions(sorted: Seq<NodeState>) -> Seq<(Node, bool)> {
    sorted.take(elder_count(sorted.len() as int)).filter(is_adult_row()).map_values(
        |ns: NodeState| (ns.node, true),
    )
}

/// The rows of `sorted` that must stop being elders.
pub open spec fn demotions(sorted: Seq<NodeState>) -> Seq<(Node, bool)> {
    sorted.skip(elder_count(sorted.len() as int)).filter(is_elder_row()).map_values(
        |ns: NodeState| (ns.node, false),
    )
}

/// The elder changes that make the first `min(3, n)` rows of `sorted`, and
/// only those, elders: first the new elders, then the former ones, each in
/// elder order.
pub open spec fn elder_changes(sorted: Seq<NodeState>) -> Seq<(Node, bool)> {
    promotions(sorted) + demotions(sorted)
}

/// The key of a row in elder order, as machine integers.
fn elder_key_of(ns: &NodeState) -> (r: Vec<i64>)
    ensures
        r@.len() == 9,
        forall|i: int| 0 <= i < 9 ==> r@[i] as int == #[trigger] elder_key(*ns)[i],
{
    let (rank, info): (i64, Option<RelocatedInfo>) = match ns.state {
        State::Online => (0, None),
        State::RelocatingAgeIncrease => (1, None),
        State::RelocatingHop => (2, None),
        State::RelocatingBackOnline => (3, None),
        State::Relocated(info) => (4, Some(info)),
        State::WaitingCandidateInfo(info) => (5, Some(info)),
        State::WaitingProofing => (6, None),
        State::Offline => (7, None),
    };
    let mut r: Vec<i64> = Vec::new();
    r.push(rank);
    match info {
        Some(info) => {
            r.push(info.candidate.0.age.0 as i64);
            r.push(info.candidate.0.name.0 as i64);
            r.push(info.expected_age.0 as i64);
            r.push(info.target_interval_centre.0 as i64);
            r.push(info.section_info.0.0 as i64);
            r.push(info.section_info.1 as i64);
        },
        None => {
            let mut k: usize = 0;
            while k < 6
                invariant
                    0 <= k <= 6,
                    r@.len() == 1 + k,
                    r@[0] == rank,
                    forall|j: int| 1 <= j < 1 + k ==> r@[j] == 0,
                decreases 6 - k,
            {
                r.push(0);
                k = k + 1;
            }
        },
    }
    r.push(-(ns.node.0.age.0 as i64));
    r.push(ns.node.0.name.0 as i64);
    proof {
        let key = elder_key(*ns);
        assert(key.len() == 9);
        assert forall|i: int| 0 <= i < 9 implies r@[i] as int == #[trigger] key[i] by {
            if i == 0 {
            } else if i < 7 {
            } else {
            }
        }
    }
    r
}

/// Compares two keys of equal length lexicographically.
fn compare_keys(a: &Vec<i64>, b: &Vec<i64>, ka: Ghost<Seq<int>>, kb: Ghost<Seq<int>>) -> (r: Ordering)
    requires
        a@.len() == b@.len(),
        ka@.len() == a@.len(),
        kb@.len() == b@.len(),
        forall|i: int| 0 <= i < a@.len() ==> a@[i] as int == ka@[i],
        forall|i: int| 0 <= i < b@.len() ==> b@[i] as int == kb@[i],
    ensures
        (r == Ordering::Less) == lex_lt(ka@, kb@),
        (r == Ordering::Greater) == lex_lt(kb@, ka@),
{
    let mut i: usize = 0;
    while i < a.len()
        invariant
            0 <= i <= a@.len(),
            a@.len() == b@.len(),
            ka@.len() == a@.len(),
            kb@.len() == b@.len(),
            forall|j: int| 0 <= j < a@.len() ==> a@[j] as int == ka@[j],
            forall|j: int| 0 <= j < b@.len() ==> b@[j] as int == kb@[j],
            forall|j: int| 0 <= j < i ==> ka@[j] == kb@[j],
        decreases a@.len() - i,
    {
        if a[i] < b[i] {
            proof {
                let w = i as int;
                assert(ka@[w] < kb@[w]);
                assert(0 <= w < ka@.len() && w < kb@.len() && ka@[w] < kb@[w] && forall|j: int|
                    0 <= j < w ==> ka@[j] == kb@[j]);
                assert(lex_lt(ka@, kb@));
                assert(!lex_lt(kb@, ka@)) by {
                    if lex_lt(kb@, ka@) {
                        let k = choose|k: int|
                            0 <= k < kb@.len() && k < ka@.len() && kb@[k] < ka@[k] && forall|j: int|
                                0 <= j < k ==> kb@[j] == ka@[j];
                        if k > w {
                            assert(kb@[w] == ka@[w]);
                        } else if k < w {
                            assert(ka@[k] == kb@[k]);
                        }
                    }
                }
            }
            return Ordering::Less;
        }
        if a[i] > b[i] {
            proof {
                let w = i as int;
                assert(kb@[w] < ka@[w]);
                assert(0 <= w < kb@.len() && w < ka@.len() && kb@[w] < ka@[w] && forall|j: int|
                    0 <= j < w ==> kb@[j] == ka@[j]);
                assert(lex_lt(kb@, ka@));
                assert(!lex_lt(ka@, kb@)) by {
                    if lex_lt(ka@, kb@) {
                        let k = choose|k: int|
                            0 <= k < ka@.len() && k < kb@.len() && ka@[k] < kb@[k] && forall|j: int|
                                0 <= j < k ==> ka@[j] == kb@[j];
                        if k > w {
                            assert(kb@[w] == ka@[w]);
                        } else if k < w {
                            assert(ka@[k] == kb@[k]);
                        }
                    }
                }
            }
            return Ordering::Greater;
        }
        i = i + 1;
    }
    proof {
        assert(!lex_lt(ka@, kb@)) by {
            if lex_lt(ka@, kb@) {
                let k = choose|k: int|
                    0 <= k < ka@.len() && k < kb@.len() && ka@[k] < kb@[k] && forall|j: int|
                        0 <= j < k ==> ka@[j] == kb@[j];
                assert(ka@[k] == kb@[k]);
            }
        }
        assert(!lex_lt(kb@, ka@)) by {
            if lex_lt(kb@, ka@) {
                let k = choose|k: int|
                    0 <= k < kb@.len() && k < ka@.len() && kb@[k] < ka@[k] && forall|j: int|
                        0 <= j < k ==> kb@[j] == ka@[j];
                assert(ka@[k] == kb@[k]);
            }
        }
    }
    Ordering::Equal
}

/// Compares two rows in elder order.
pub fn compare_elder_order(a: &NodeState, b: &NodeState) -> (r: Ordering)
    ensures
        (r == Ordering::Less) == elder_before(*a, *b),
        (r == Ordering::Greater) == elder_before(*b, *a),
{
    let ka = elder_key_of(a);
    let kb = elder_key_of(b);
    compare_keys(&ka, &kb, Ghost(elder_key(*a)), Ghost(elder_key(*b)))
}

/// The key of a row in relocation order, as machine integers.
fn relocation_key_of(ns: &NodeState) -> (r: Vec<i64>)
    ensures
        r@.len() == 5,
        forall|i: int| 0 <= i < 5 ==> r@[i] as int == #[trigger] relocation_key(*ns)[i],
{
    let mut r: Vec<i64> = Vec::new();
    r.push(if ns.state == State::RelocatingAgeIncrease { 1 } else { 0 });
    r.push(if ns.state == State::RelocatingHop { 1 } else { 0 });
    r.push(if ns.state == State::RelocatingBackOnline { 1 } else { 0 });
    r.push(ns.node.0.age.0 as i64);
    r.push(ns.node.0.name.0 as i64);
    r
}

/// Whether `a` comes strictly after `b` in relocation order.
pub fn relocates_before(a: &NodeState, b: &NodeState) -> (r: bool)
    ensures
        r == lex_lt(relocation_key(*b), relocation_key(*a)),
{
    let ka = relocation_key_of(a);
    let kb = relocation_key_of(b);
    match compare_keys(&kb, &ka, Ghost(relocation_key(*b)), Ghost(relocation_key(*a))) {
        Ordering::Less => true,
        _ => false,
    }
}

/// Relies on itertools' `Itertools::sorted_by`, which collects the items
/// into a `Vec` and sorts it with std's `sort_by` under the given comparator:
/// the result holds the same rows, none of them after a row it precedes.
#[verifier::external_body]
fn sorted_in_elder_order(rows: Vec<NodeState>) -> (r: Vec<NodeState>)
    ensures
        r@.to_multiset() == rows@.to_multiset(),
        forall|i: int, j: int| 0 <= i < j < r@.len() ==> !elder_before(r@[j], r@[i]),
{
    rows.into_iter().sorted_by(|a, b| compare_elder_order(a, b)).collect()
}

/// The rows of `rows`, arranged in elder order.
pub fn arrange_in_elder_order(rows: &Vec<NodeState>) -> (r: Vec<NodeState>)
    ensures
        is_elder_arrangement(r@, rows@),
{
    sorted_in_elder_order(rows.clone())
}

/// Computes `elder_changes` of an arrangement.
pub fn compute_elder_changes(sorted: &Vec<NodeState>) -> (r: Vec<(Node, bool)>)
    ensures
        r@ == elder_changes(sorted@),
{
    let n = sorted.len();
    let k: usize = if n < 3 { n } else { 3 };
    let ghost s = sorted@;
    let mut r: Vec<(Node, bool)> = Vec::new();
    let mut i: usize = 0;
    while i < k
        invariant
            0 <= i <= k,
            k == elder_count(s.len() as int),
            s == sorted@,
            r@ == s.take(i as int).filter(is_adult_row()).map_values(|ns: NodeState| (ns.node, true)),
        decreases k - i,
    {
        proof {
            lemma_filter_take_step(s, is_adult_row(), i as int);
        }
        let ns = sorted[i];
        if !ns.is_elder {
            r.push((ns.node, true));
        }
        i = i + 1;
        assert(r@ =~= s.take(i as int).filter(is_adult_row()).map_values(
            |ns: NodeState| (ns.node, true),
        ));
    }
    assert(s.take(k as int).take(k as int) =~= s.take(k as int));
    let ghost head = r@;
    let ghost tail = s.skip(k as int);
    let mut j: usize = k;
    while j < n
        invariant
            k <= j <= n,
            n == s.len(),
            k == elder_count(s.len() as int),
            s == sorted@,
            tail == s.skip(k as int),
            head == promotions(s),
            r@ == head + tail.take(j - k).filter(is_elder_row()).map_values(
                |ns: NodeState| (ns.node, false),
            ),
        decreases n - j,
    {
        proof {
            lemma_filter_take_step(tail, is_elder_row(), (j - k) as int);
        }
        let ns = sorted[j];
        if ns.is_elder {
            r.push((ns.node, false));
        }
        j = j + 1;
        assert(r@ =~= head + tail.take(j - k).filter(is_elder_row()).map_values(
            |ns: NodeState| (ns.node, false),
        ));
    }
    assert(tail.take(n - k) =~= tail);
    r
}

} // verus!
