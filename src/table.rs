//! The node table as a mathematical sequence of rows, kept in strictly
//! increasing order of name, and the operations on it.
use crate::utilities::{Name, NodeState, State};
use vstd::prelude::*;

verus! {

/// Rows are held in strictly increasing order of name; names are thus unique.
pub open spec fn rows_sorted(s: Seq<NodeState>) -> bool {
    forall|i: int, j: int| 0 <= i < j < s.len() ==> s[i].node.0.name.0 < s[j].node.0.name.0
}

pub open spec fn has_row(s: Seq<NodeState>, n: Name) -> bool {
    exists|i: int| 0 <= i < s.len() && s[i].node.0.name == n
}

pub open spec fn row_index(s: Seq<NodeState>, n: Name) -> int {
    choose|i: int| 0 <= i < s.len() && s[i].node.0.name == n
}

/// The row named `n`.
pub open spec fn row(s: Seq<NodeState>, n: Name) -> NodeState {
    s[row_index(s, n)]
}

/// The table with the state of the row named `n` set to `st`.
pub open spec fn with_state(s: Seq<NodeState>, n: Name, st: State) -> Seq<NodeState> {
    Seq::new(
        s.len(),
        |i: int|
            if s[i].node.0.name == n {
                NodeState { state: st, ..s[i] }
            } else {
                s[i]
            },
    )
}

/// The table with the elder flag of the row named `n` set to `b`.
pub open spec fn with_elder(s: Seq<NodeState>, n: Name, b: bool) -> Seq<NodeState> {
    Seq::new(
        s.len(),
        |i: int|
            if s[i].node.0.name == n {
                NodeState { is_elder: b, ..s[i] }
            } else {
                s[i]
            },
    )
}

/// The table where the row named `n` has done as many work units as its age.
pub open spec fn with_enough_work(s: Seq<NodeState>, n: Name) -> Seq<NodeState> {
    Seq::new(
        s.len(),
        |i: int|
            if s[i].node.0.name == n {
                NodeState { work_units_done: s[i].node.0.age.0, ..s[i] }
            } else {
                s[i]
            },
    )
}

/// A place where a row named `n` keeps the table in order.
pub open spec fn is_insert_position(s: Seq<NodeState>, n: Name, k: int) -> bool {
    &&& 0 <= k <= s.len()
    &&& forall|i: int| 0 <= i < k ==> s[i].node.0.name.0 < n.0
    &&& forall|i: int| k <= i < s.len() ==> s[i].node.0.name.0 > n.0
}

pub open spec fn insert_position(s: Seq<NodeState>, n: Name) -> int {
    choose|k: int| is_insert_position(s, n, k)
}

/// The table with one more row, in its place.
pub open spec fn with_row(s: Seq<NodeState>, ns: NodeState) -> Seq<NodeState> {
    s.insert(insert_position(s, ns.node.0.name), ns)
}

/// The table without the row named `n`.
pub open spec fn without_row(s: Seq<NodeState>, n: Name) -> Seq<NodeState> {
    s.remove(row_index(s, n))
}

pub open spec fn is_not_yet_full(ns: NodeState) -> bool {
    ns.state.spec_is_not_yet_full_node()
}

pub open spec fn not_yet_full_pred() -> spec_fn(NodeState) -> bool {
    |ns: NodeState| is_not_yet_full(ns)
}

/// How many rows stand for nodes that are not yet full members.
pub open spec fn count_not_yet_full(s: Seq<NodeState>) -> nat {
    s.filter(not_yet_full_pred()).len()
}

pub proof fn lemma_row_index(s: Seq<NodeState>, n: Name, i: int)
    requires
        rows_sorted(s),
        0 <= i < s.len(),
        s[i].node.0.name == n,
    ensures
        has_row(s, n),
        row_index(s, n) == i,
        row(s, n) == s[i],
{
    let j = row_index(s, n);
    if j < i {
        assert(s[j].node.0.name.0 < s[i].node.0.name.0);
    } else if j > i {
        assert(s[i].node.0.name.0 < s[j].node.0.name.0);
    }
}

pub proof fn lemma_has_row(s: Seq<NodeState>, n: Name)
    requires
        rows_sorted(s),
        has_row(s, n),
    ensures
        0 <= row_index(s, n) < s.len(),
        row(s, n).node.0.name == n,
{
}

pub proof fn lemma_insert_position(s: Seq<NodeState>, n: Name, k: int)
    requires
        is_insert_position(s, n, k),
    ensures
        insert_position(s, n) == k,
{
    let c = insert_position(s, n);
    assert(is_insert_position(s, n, c));
    if c < k {
        assert(s[c].node.0.name.0 < n.0);
    } else if c > k {
        assert(s[k].node.0.name.0 > n.0);
    }
}

pub proof fn lemma_with_row_sorted(s: Seq<NodeState>, ns: NodeState, k: int)
    requires
        rows_sorted(s),
        is_insert_position(s, ns.node.0.name, k),
    ensures
        insert_position(s, ns.node.0.name) == k,
        with_row(s, ns) == s.insert(k, ns),
        rows_sorted(with_row(s, ns)),
        !has_row(s, ns.node.0.name),
{
    lemma_insert_position(s, ns.node.0.name, k);
    let t = s.insert(k, ns);
    assert forall|i: int, j: int| 0 <= i < j < t.len() implies t[i].node.0.name.0
        < t[j].node.0.name.0 by {
        if j < k {
        } else if j == k {
        } else if i < k {
            assert(t[j] == s[j - 1]);
        } else if i == k {
            assert(t[j] == s[j - 1]);
        } else {
            assert(t[i] == s[i - 1] && t[j] == s[j - 1]);
        }
    }
    if has_row(s, ns.node.0.name) {
        let i = choose|i: int| 0 <= i < s.len() && s[i].node.0.name == ns.node.0.name;
        assert(i < k || i >= k);
    }
}

pub proof fn lemma_without_row_sorted(s: Seq<NodeState>, n: Name)
    requires
        rows_sorted(s),
        has_row(s, n),
    ensures
        rows_sorted(without_row(s, n)),
        without_row(s, n).len() == s.len() - 1,
        !has_row(without_row(s, n), n),
{
    let k = row_index(s, n);
    let t = s.remove(k);
    assert forall|i: int, j: int| 0 <= i < j < t.len() implies t[i].node.0.name.0
        < t[j].node.0.name.0 by {
        let i2 = if i < k {
            i
        } else {
            i + 1
        };
        let j2 = if j < k {
            j
        } else {
            j + 1
        };
        assert(t[i] == s[i2] && t[j] == s[j2]);
    }
    if has_row(t, n) {
        let i = choose|i: int| 0 <= i < t.len() && t[i].node.0.name == n;
        let i2 = if i < k {
            i
        } else {
            i + 1
        };
        assert(t[i] == s[i2]);
        lemma_row_index(s, n, i2);
    }
}

/// Changing a state, an elder flag or a work count leaves the order of rows
/// and the row index of each name as they were.
pub proof fn lemma_pointwise_update(s: Seq<NodeState>, t: Seq<NodeState>)
    requires
        rows_sorted(s),
        t.len() == s.len(),
        forall|i: int| 0 <= i < s.len() ==> #[trigger] t[i].node == s[i].node,
    ensures
        rows_sorted(t),
        forall|m: Name| has_row(t, m) == has_row(s, m),
        forall|m: Name| has_row(s, m) ==> row_index(t, m) == row_index(s, m),
        forall|m: Name| has_row(s, m) ==> (#[trigger] row(t, m)).node == row(s, m).node,
{
    assert forall|m: Name| has_row(t, m) == has_row(s, m) by {
        if has_row(t, m) {
            let i = choose|i: int| 0 <= i < t.len() && t[i].node.0.name == m;
            assert(s[i].node == t[i].node);
        }
        if has_row(s, m) {
            let i = choose|i: int| 0 <= i < s.len() && s[i].node.0.name == m;
            assert(s[i].node == t[i].node);
        }
    }
    assert forall|m: Name| has_row(s, m) implies row_index(t, m) == row_index(s, m) by {
        let i = row_index(s, m);
        assert(t[i].node == s[i].node);
        lemma_row_index(t, m, i);
    }
}

pub proof fn lemma_with_state(s: Seq<NodeState>, n: Name, st: State)
    requires
        rows_sorted(s),
        has_row(s, n),
    ensures
        rows_sorted(with_state(s, n, st)),
        forall|m: Name| has_row(with_state(s, n, st), m) == has_row(s, m),
        forall|m: Name|
            has_row(s, m) ==> (#[trigger] row(with_state(s, n, st), m)).node == row(s, m).node,
        row(with_state(s, n, st), n) == (NodeState { state: st, ..row(s, n) }),
{
    let t = with_state(s, n, st);
    lemma_pointwise_update(s, t);
}

pub proof fn lemma_with_elder(s: Seq<NodeState>, n: Name, b: bool)
    requires
        rows_sorted(s),
    ensures
        rows_sorted(with_elder(s, n, b)),
        forall|m: Name| has_row(with_elder(s, n, b), m) == has_row(s, m),
        forall|m: Name|
            has_row(s, m) ==> (#[trigger] row(with_elder(s, n, b), m)).node == row(s, m).node,
{
    lemma_pointwise_update(s, with_elder(s, n, b));
}

pub proof fn lemma_count_insert(s: Seq<NodeState>, k: int, ns: NodeState)
    requires
        0 <= k <= s.len(),
    ensures
        count_not_yet_full(s.insert(k, ns)) == count_not_yet_full(s) + if is_not_yet_full(ns) {
            1nat
        } else {
            0nat
        },
{
    let p = not_yet_full_pred();
    let a = s.take(k);
    let b = s.skip(k);
    assert(s =~= a + b);
    assert(s.insert(k, ns) =~= a + seq![ns] + b);
    Seq::filter_distributes_over_add(a, b, p);
    Seq::filter_distributes_over_add(a + seq![ns], b, p);
    Seq::filter_distributes_over_add(a, seq![ns], p);
    reveal(Seq::filter);
    assert(seq![ns].drop_last() =~= Seq::<NodeState>::empty());
    assert(Seq::<NodeState>::empty().filter(p) =~= Seq::<NodeState>::empty());
    assert(seq![ns].filter(p).len() == if is_not_yet_full(ns) {
        1nat
    } else {
        0nat
    });
}

pub proof fn lemma_count_remove(s: Seq<NodeState>, k: int)
    requires
        0 <= k < s.len(),
    ensures
        count_not_yet_full(s) == count_not_yet_full(s.remove(k)) + if is_not_yet_full(s[k]) {
            1nat
        } else {
            0nat
        },
{
    assert(s.remove(k).insert(k, s[k]) =~= s);
    lemma_count_insert(s.remove(k), k, s[k]);
}

/// The number of rows that satisfy `p` in the first `i` rows grows by one row
/// at a time.
pub proof fn lemma_filter_take_step(s: Seq<NodeState>, p: spec_fn(NodeState) -> bool, i: int)
    requires
        0 <= i < s.len(),
    ensures
        s.take(i + 1).filter(p) == if p(s[i]) {
            s.take(i).filter(p).push(s[i])
        } else {
            s.take(i).filter(p)
        },
{
    reveal(Seq::filter);
    assert(s.take(i + 1).drop_last() =~= s.take(i));
}

} // verus!

verus! {

/// The rows that are not yet full members can only get fewer when each row
/// keeps its kind or stops being a joining one.
pub proof fn lemma_count_pointwise(s: Seq<NodeState>, t: Seq<NodeState>)
    requires
        t.len() == s.len(),
        forall|i: int| 0 <= i < s.len() ==> is_not_yet_full(#[trigger] t[i]) ==> is_not_yet_full(s[i]),
    ensures
        count_not_yet_full(t) <= count_not_yet_full(s),
    decreases s.len(),
{
    reveal(Seq::filter);
    if s.len() > 0 {
        lemma_count_pointwise(s.drop_last(), t.drop_last());
        assert(is_not_yet_full(t[t.len() - 1]) ==> is_not_yet_full(s[s.len() - 1]));
    }
}

pub proof fn lemma_count_same_kinds(s: Seq<NodeState>, t: Seq<NodeState>)
    requires
        t.len() == s.len(),
        forall|i: int| 0 <= i < s.len() ==> is_not_yet_full(#[trigger] t[i]) == is_not_yet_full(s[i]),
    ensures
        count_not_yet_full(t) == count_not_yet_full(s),
{
    lemma_count_pointwise(s, t);
    lemma_count_pointwise(t, s);
}

pub broadcast proof fn lemma_count_with_state(s: Seq<NodeState>, n: Name, st: State)
    requires
        !st.spec_is_not_yet_full_node(),
    ensures
        #[trigger] count_not_yet_full(with_state(s, n, st)) <= count_not_yet_full(s),
{
    lemma_count_pointwise(s, with_state(s, n, st));
}

pub broadcast proof fn lemma_count_with_elder(s: Seq<NodeState>, n: Name, b: bool)
    ensures
        #[trigger] count_not_yet_full(with_elder(s, n, b)) == count_not_yet_full(s),
{
    lemma_count_same_kinds(s, with_elder(s, n, b));
}

pub broadcast proof fn lemma_count_with_enough_work(s: Seq<NodeState>, n: Name)
    ensures
        #[trigger] count_not_yet_full(with_enough_work(s, n)) == count_not_yet_full(s),
{
    lemma_count_same_kinds(s, with_enough_work(s, n));
}

/// There is a place for a row with a new name.
pub proof fn lemma_insert_position_exists(s: Seq<NodeState>, n: Name)
    requires
        rows_sorted(s),
        !has_row(s, n),
    ensures
        is_insert_position(s, n, insert_position(s, n)),
    decreases s.len(),
{
    if s.len() == 0 {
        assert(is_insert_position(s, n, 0));
    } else {
        let t = s.drop_last();
        assert(!has_row(t, n)) by {
            if has_row(t, n) {
                let i = choose|i: int| 0 <= i < t.len() && t[i].node.0.name == n;
                assert(s[i].node.0.name == n);
            }
        }
        lemma_insert_position_exists(t, n);
        let k = insert_position(t, n);
        assert(s[s.len() - 1].node.0.name != n);
        if s[s.len() - 1].node.0.name.0 < n.0 {
            assert forall|i: int| 0 <= i < s.len() implies s[i].node.0.name.0 < n.0 by {
                if i < s.len() - 1 {
                    assert(s[i].node.0.name.0 < s[s.len() - 1].node.0.name.0);
                }
            }
            assert(is_insert_position(s, n, s.len() as int));
        } else {
            assert forall|i: int| k <= i < s.len() implies s[i].node.0.name.0 > n.0 by {
                if i < s.len() - 1 {
                    assert(s[i] == t[i]);
                }
            }
            assert forall|i: int| 0 <= i < k implies s[i].node.0.name.0 < n.0 by {
                assert(s[i] == t[i]);
            }
            assert(is_insert_position(s, n, k));
        }
    }
}

pub broadcast proof fn lemma_count_with_row(s: Seq<NodeState>, ns: NodeState)
    requires
        rows_sorted(s),
        !has_row(s, ns.node.0.name),
    ensures
        #[trigger] count_not_yet_full(with_row(s, ns)) == count_not_yet_full(s) + if is_not_yet_full(ns) {
            1nat
        } else {
            0nat
        },
        rows_sorted(with_row(s, ns)),
{
    lemma_insert_position_exists(s, ns.node.0.name);
    lemma_with_row_sorted(s, ns, insert_position(s, ns.node.0.name));
    lemma_count_insert(s, insert_position(s, ns.node.0.name), ns);
}

pub broadcast proof fn lemma_count_without_row(s: Seq<NodeState>, n: Name)
    requires
        rows_sorted(s),
        has_row(s, n),
    ensures
        #[trigger] count_not_yet_full(without_row(s, n)) <= count_not_yet_full(s),
        rows_sorted(without_row(s, n)),
        !has_row(without_row(s, n), n),
        forall|m: Name| has_row(without_row(s, n), m) ==> has_row(s, m),
{
    lemma_without_row_sorted(s, n);
    lemma_count_remove(s, row_index(s, n));
    let k = row_index(s, n);
    assert forall|m: Name| has_row(without_row(s, n), m) implies has_row(s, m) by {
        let t = without_row(s, n);
        let i = choose|i: int| 0 <= i < t.len() && t[i].node.0.name == m;
        let i2 = if i < k { i } else { i + 1 };
        assert(t[i] == s[i2]);
    }
}

} // verus!

verus! {

/// Rows other than the one named `n` are as they were after its state or
/// elder flag changed; that row keeps its work count.
pub broadcast proof fn lemma_rows_with_state(s: Seq<NodeState>, n: Name, st: State, m: Name)
    requires
        rows_sorted(s),
        has_row(s, m),
    ensures
        #![trigger has_row(with_state(s, n, st), m)]
        #![trigger row(with_state(s, n, st), m)]
        has_row(with_state(s, n, st), m),
        row(with_state(s, n, st), m).work_units_done == row(s, m).work_units_done,
{
    lemma_pointwise_update(s, with_state(s, n, st));
}

pub broadcast proof fn lemma_rows_with_elder(s: Seq<NodeState>, n: Name, b: bool, m: Name)
    requires
        rows_sorted(s),
        has_row(s, m),
    ensures
        #![trigger has_row(with_elder(s, n, b), m)]
        #![trigger row(with_elder(s, n, b), m)]
        has_row(with_elder(s, n, b), m),
        row(with_elder(s, n, b), m).work_units_done == row(s, m).work_units_done,
        row(with_elder(s, n, b), m).is_elder == if m == n {
            b
        } else {
            row(s, m).is_elder
        },
        row(with_elder(s, n, b), m).node == row(s, m).node,
{
    lemma_pointwise_update(s, with_elder(s, n, b));
    lemma_has_row(s, m);
}

pub broadcast proof fn lemma_rows_with_row(s: Seq<NodeState>, ns: NodeState, m: Name)
    requires
        rows_sorted(s),
        !has_row(s, ns.node.0.name),
    ensures
        #![trigger has_row(with_row(s, ns), m)]
        #![trigger row(with_row(s, ns), m)]
        has_row(with_row(s, ns), m) == (has_row(s, m) || m == ns.node.0.name),
        has_row(s, m) ==> row(with_row(s, ns), m) == row(s, m),
        m == ns.node.0.name ==> row(with_row(s, ns), m) == ns,
{
    lemma_insert_position_exists(s, ns.node.0.name);
    let k = insert_position(s, ns.node.0.name);
    lemma_with_row_sorted(s, ns, k);
    let t = with_row(s, ns);
    assert(t[k] == ns);
    lemma_row_index(t, ns.node.0.name, k);
    if has_row(s, m) {
        let i = row_index(s, m);
        lemma_has_row(s, m);
        let i2 = if i < k { i } else { i + 1 };
        assert(t[i2] == s[i]);
        lemma_row_index(t, m, i2);
    }
    if has_row(t, m) && m != ns.node.0.name {
        let j = choose|j: int| 0 <= j < t.len() && t[j].node.0.name == m;
        let j2 = if j < k { j } else { j - 1 };
        assert(s[j2] == t[j]);
    }
}

pub broadcast proof fn lemma_rows_without_row(s: Seq<NodeState>, n: Name, m: Name)
    requires
        rows_sorted(s),
        has_row(s, n),
    ensures
        #![trigger has_row(without_row(s, n), m)]
        #![trigger row(without_row(s, n), m)]
        has_row(without_row(s, n), m) == (has_row(s, m) && m != n),
        has_row(s, m) && m != n ==> row(without_row(s, n), m) == row(s, m),
{
    lemma_without_row_sorted(s, n);
    let k = row_index(s, n);
    lemma_has_row(s, n);
    let t = without_row(s, n);
    if has_row(s, m) && m != n {
        let i = row_index(s, m);
        lemma_has_row(s, m);
        let i2 = if i < k { i } else { i - 1 };
        assert(t[i2] == s[i]);
        lemma_row_index(t, m, i2);
    }
    if has_row(t, m) {
        let j = choose|j: int| 0 <= j < t.len() && t[j].node.0.name == m;
        let j2 = if j < k { j } else { j + 1 };
        assert(t[j] == s[j2]);
    }
}

} // verus!

verus! {

/// Every element a filter keeps comes from where it was taken.
pub proof fn lemma_filter_from<A>(s: Seq<A>, p: spec_fn(A) -> bool, i: int)
    requires
        0 <= i < s.filter(p).len(),
    ensures
        exists|j: int| 0 <= j < s.len() && s[j] == s.filter(p)[i] && p(s[j]),
    decreases s.len(),
{
    reveal(Seq::filter);
    if s.len() > 0 {
        let rest = s.drop_last().filter(p);
        if i < rest.len() {
            lemma_filter_from(s.drop_last(), p, i);
            let j = choose|j: int| 0 <= j < s.drop_last().len() && s.drop_last()[j] == rest[i] && p(s.drop_last()[j]);
            assert(s[j] == s.filter(p)[i]);
        } else {
            assert(s[s.len() - 1] == s.filter(p)[i]);
        }
    }
}

} // verus!

verus! {

pub open spec fn elder_row_pred() -> spec_fn(NodeState) -> bool {
    |ns: NodeState| ns.is_elder
}

/// How many rows are elders.
pub open spec fn count_elders(s: Seq<NodeState>) -> nat {
    s.filter(elder_row_pred()).len()
}

pub proof fn lemma_filter_len_insert(
    s: Seq<NodeState>,
    k: int,
    x: NodeState,
    p: spec_fn(NodeState) -> bool,
)
    requires
        0 <= k <= s.len(),
    ensures
        s.insert(k, x).filter(p).len() == s.filter(p).len() + if p(x) {
            1nat
        } else {
            0nat
        },
{
    let a = s.take(k);
    let b = s.skip(k);
    assert(s =~= a + b);
    assert(s.insert(k, x) =~= a + seq![x] + b);
    Seq::filter_distributes_over_add(a, b, p);
    Seq::filter_distributes_over_add(a + seq![x], b, p);
    Seq::filter_distributes_over_add(a, seq![x], p);
    reveal(Seq::filter);
    assert(seq![x].drop_last() =~= Seq::<NodeState>::empty());
    assert(Seq::<NodeState>::empty().filter(p) =~= Seq::<NodeState>::empty());
}

pub proof fn lemma_filter_len_same(s: Seq<NodeState>, t: Seq<NodeState>, p: spec_fn(NodeState) -> bool)
    requires
        t.len() == s.len(),
        forall|i: int| 0 <= i < s.len() ==> p(#[trigger] t[i]) == p(s[i]),
    ensures
        t.filter(p).len() == s.filter(p).len(),
    decreases s.len(),
{
    reveal(Seq::filter);
    if s.len() > 0 {
        lemma_filter_len_same(s.drop_last(), t.drop_last(), p);
        assert(p(t[t.len() - 1]) == p(s[s.len() - 1]));
    }
}

pub broadcast proof fn lemma_count_elders_le_len(s: Seq<NodeState>)
    ensures
        #[trigger] count_elders(s) <= s.len(),
{
    s.filter_lemma(elder_row_pred());
}

pub broadcast proof fn lemma_count_elders_with_state(s: Seq<NodeState>, n: Name, st: State)
    ensures
        #[trigger] count_elders(with_state(s, n, st)) == count_elders(s),
{
    lemma_filter_len_same(s, with_state(s, n, st), elder_row_pred());
}

pub broadcast proof fn lemma_count_elders_with_enough_work(s: Seq<NodeState>, n: Name)
    ensures
        #[trigger] count_elders(with_enough_work(s, n)) == count_elders(s),
{
    lemma_filter_len_same(s, with_enough_work(s, n), elder_row_pred());
}

pub broadcast proof fn lemma_count_elders_with_row(s: Seq<NodeState>, ns: NodeState)
    requires
        rows_sorted(s),
        !has_row(s, ns.node.0.name),
    ensures
        #[trigger] count_elders(with_row(s, ns)) == count_elders(s) + if ns.is_elder {
            1nat
        } else {
            0nat
        },
        with_row(s, ns).len() == s.len() + 1,
{
    lemma_insert_position_exists(s, ns.node.0.name);
    lemma_with_row_sorted(s, ns, insert_position(s, ns.node.0.name));
    lemma_filter_len_insert(s, insert_position(s, ns.node.0.name), ns, elder_row_pred());
}

pub broadcast proof fn lemma_count_elders_without_row(s: Seq<NodeState>, n: Name)
    requires
        rows_sorted(s),
        has_row(s, n),
    ensures
        count_elders(s) == #[trigger] count_elders(without_row(s, n)) + if row(s, n).is_elder {
            1nat
        } else {
            0nat
        },
        without_row(s, n).len() == s.len() - 1,
{
    lemma_without_row_sorted(s, n);
    let k = row_index(s, n);
    assert(s.remove(k).insert(k, s[k]) =~= s);
    lemma_filter_len_insert(s.remove(k), k, s[k], elder_row_pred());
}

} // verus!
