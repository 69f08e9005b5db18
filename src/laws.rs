//! Properties of the member state machine as a whole, proved over its step
//! relation `MemberState::next`.
use crate::actions::{ActionModel, waits_for};
use crate::flows_dst::{RespondToRelocateRequests, StartResourceProof, no_admission};
use crate::state::{MemberState, is_section_vote};
use crate::table::{
    count_not_yet_full, has_row, insert_position, lemma_count_with_elder,
    lemma_count_with_enough_work, lemma_count_with_row, lemma_count_with_state,
    lemma_count_without_row, lemma_insert_position_exists, lemma_with_row_sorted, rows_sorted,
};
use crate::utilities::{Candidate, Event, Node, ParsecVote, RelocatedInfo, Rpc, TryResult};
use vstd::prelude::*;

verus! {

/// Applying elder changes touches neither the counters nor the kinds of rows.
pub broadcast proof fn lemma_set_elders_keeps(a: ActionModel, changes: Seq<(Node, bool)>)
    ensures
        (#[trigger] a.set_elders(changes)).next_target_interval == a.next_target_interval,
        a.set_elders(changes).our_section == a.our_section,
        count_not_yet_full(a.set_elders(changes).nodes) == count_not_yet_full(a.nodes),
    decreases changes.len(),
{
    broadcast use lemma_count_with_elder;

    if changes.len() > 0 {
        lemma_set_elders_keeps(a, changes.drop_last());
    }
}

proof fn lemma_not_awaited(s: MemberState, v: ParsecVote)
    requires
        s.wf(),
        !is_section_vote(v),
    ensures
        !s.start_merge_split_and_change_elders@.split_wait.contains(v),
        !s.start_merge_split_and_change_elders@.elder_wait.contains(v),
{
}

/// Once the candidate being admitted was agreed online, any later proof part
/// changes nothing: the admission it belonged to is over.
pub proof fn lemma_no_proof_replay_after_online(
    s: MemberState,
    old_id: Candidate,
    new_id: Candidate,
    mid: MemberState,
    r1: TryResult,
    proof_rpc: Rpc,
    post: MemberState,
    r2: TryResult,
)
    requires
        s.wf(),
        s.for_candidate(ParsecVote::Online(old_id, new_id)),
        MemberState::next(s, Event::ParsecConsensus(ParsecVote::Online(old_id, new_id)), mid, r1),
        proof_rpc is ResourceProofResponse,
        MemberState::next(mid, Event::Rpc(proof_rpc), post, r2),
    ensures
        r1 == TryResult::Handled,
        mid.start_resource_proof == no_admission(),
        r2 == TryResult::Handled,
        post == mid,
{
    lemma_not_awaited(s, ParsecVote::Online(old_id, new_id));
}

/// Two agreed requests for the same candidate in a row are answered with the
/// same ticket, whether the first one admitted it or found it admitted.
pub proof fn lemma_readmission_same_ticket(
    s: MemberState,
    c: Candidate,
    ticket: RelocatedInfo,
    mid: MemberState,
    r1: TryResult,
    post: MemberState,
    r2: TryResult,
)
    requires
        s.wf(),
        s.accepts(Event::ParsecConsensus(ParsecVote::ExpectCandidate(c))),
        s.action@.shortest_prefix is None,
        MemberState::next(s, Event::ParsecConsensus(ParsecVote::ExpectCandidate(c)), mid, r1),
        mid.action@.events.last() == Event::Rpc(Rpc::RelocateResponse(ticket)),
        MemberState::next(mid, Event::ParsecConsensus(ParsecVote::ExpectCandidate(c)), post, r2),
    ensures
        post.action@.events.last() == Event::Rpc(Rpc::RelocateResponse(ticket)),
{
    let a = s.action@;
    let m = mid.action@;
    lemma_not_awaited(s, ParsecVote::ExpectCandidate(c));
    assert(RespondToRelocateRequests::expect_step(s, c, mid));
    if !RespondToRelocateRequests::no_ticket_for(a, c) {
        let i = choose|i: int|
            0 <= i < a.nodes.len() && waits_for(#[trigger] a.nodes[i], c) && (forall|j: int|
                0 <= j < i ==> !waits_for(a.nodes[j], c)) && s.only_action(
                mid,
                a.log(Event::Rpc(Rpc::RelocateResponse(a.nodes[i].state->WaitingCandidateInfo_0))),
            );
        assert(m.nodes == a.nodes);
        assert(mid.wf());
        lemma_not_awaited(mid, ParsecVote::ExpectCandidate(c));
        assert(RespondToRelocateRequests::expect_step(mid, c, post));
        assert(!RespondToRelocateRequests::no_ticket_for(m, c));
        let i2 = choose|i2: int|
            0 <= i2 < m.nodes.len() && waits_for(#[trigger] m.nodes[i2], c) && (forall|j: int|
                0 <= j < i2 ==> !waits_for(m.nodes[j], c)) && mid.only_action(
                post,
                m.log(Event::Rpc(Rpc::RelocateResponse(m.nodes[i2].state->WaitingCandidateInfo_0))),
            );
        assert(i2 == i) by {
            if i2 < i {
                assert(!waits_for(a.nodes[i2], c));
            } else if i2 > i {
                assert(!waits_for(m.nodes[i], c));
            }
        }
    } else {
        assert(count_not_yet_full(a.nodes) == 0);
        let t = a.next_ticket(c);
        let ns = ActionModel::waiting_row(t);
        lemma_insert_position_exists(a.nodes, ns.node.0.name);
        let k = insert_position(a.nodes, ns.node.0.name);
        lemma_with_row_sorted(a.nodes, ns, k);
        assert(m.nodes == a.nodes.insert(k, ns));
        assert(ticket == t);
        assert(waits_for(m.nodes[k], c));
        assert forall|j: int| 0 <= j < k implies !waits_for(#[trigger] m.nodes[j], c) by {
            assert(m.nodes[j] == a.nodes[j]);
        }
        assert(mid.wf()) by {
            assert(rows_sorted(m.nodes));
        }
        lemma_not_awaited(mid, ParsecVote::ExpectCandidate(c));
        assert(RespondToRelocateRequests::expect_step(mid, c, post));
        assert(!RespondToRelocateRequests::no_ticket_for(m, c));
        let i2 = choose|i2: int|
            0 <= i2 < m.nodes.len() && waits_for(#[trigger] m.nodes[i2], c) && (forall|j: int|
                0 <= j < i2 ==> !waits_for(m.nodes[j], c)) && mid.only_action(
                post,
                m.log(Event::Rpc(Rpc::RelocateResponse(m.nodes[i2].state->WaitingCandidateInfo_0))),
            );
        assert(i2 == k) by {
            if i2 < k {
                assert(!waits_for(m.nodes[i2], c));
            } else if i2 > k {
                assert(!waits_for(m.nodes[k], c));
            }
        }
    }
}

/// No step moves the next target name or our section's version backwards:
/// each moves by one at most, the name when a candidate is admitted, the
/// version when an elder change completes.
pub proof fn lemma_counters_never_go_back(s: MemberState, e: Event, post: MemberState, r: TryResult)
    requires
        s.wf(),
        s.accepts(e),
        MemberState::next(s, e, post, r),
    ensures
        post.action@.next_target_interval.0 == s.action@.next_target_interval.0
            || post.action@.next_target_interval.0 == s.action@.next_target_interval.0 + 1,
        post.action@.our_section.1 == s.action@.our_section.1 || post.action@.our_section.1
            == s.action@.our_section.1 + 1,
{
    broadcast use lemma_set_elders_keeps;

}

/// A section admits one candidate at a time: from a state with at most one
/// row that is not yet a full member, every step leads to such a state.
pub proof fn lemma_single_admission(s: MemberState, e: Event, post: MemberState, r: TryResult)
    requires
        s.wf(),
        s.accepts(e),
        MemberState::next(s, e, post, r),
        count_not_yet_full(s.action@.nodes) <= 1,
    ensures
        count_not_yet_full(post.action@.nodes) <= 1,
{
    broadcast use lemma_set_elders_keeps, lemma_count_with_state, lemma_count_with_elder,
        lemma_count_with_enough_work, lemma_count_with_row, lemma_count_without_row;

}

} // verus!

verus! {

use crate::actions::{lemma_lex_total, may_relocate, ready_to_relocate};
use crate::flows_elder::StartMergeSplitAndChangeElders;
use crate::flows_src::{StartDecidesOnNodeToRelocate, StartRelocateSrc, is_best_to_relocate};
use crate::order::{elder_before, elder_key, is_elder_arrangement, lex_lt, relocation_key};
use crate::table::lemma_row_index;
use crate::utilities::NodeState;

/// Rows that the elder key tells apart.
pub open spec fn keys_identify(s: Seq<NodeState>) -> bool {
    forall|i: int, j: int|
        0 <= i < s.len() && 0 <= j < s.len() && elder_key(s[i]) == elder_key(s[j]) ==> s[i] == s[j]
}

pub open spec fn sorted_in_elder_order(s: Seq<NodeState>) -> bool {
    forall|i: int, j: int| 0 <= i < j < s.len() ==> !elder_before(s[j], s[i])
}

proof fn lemma_elder_key_len(ns: NodeState)
    ensures
        elder_key(ns).len() == 9,
        elder_key(ns)[8] == ns.node.0.name.0 as int,
{
}

/// Two arrangements in elder order of the same rows, which the elder key
/// tells apart, are one and the same.
pub proof fn lemma_arrangement_unique(s1: Seq<NodeState>, s2: Seq<NodeState>)
    requires
        s1.to_multiset() == s2.to_multiset(),
        sorted_in_elder_order(s1),
        sorted_in_elder_order(s2),
        keys_identify(s1),
    ensures
        s1 == s2,
    decreases s1.len(),
{
    s1.to_multiset_ensures();
    s2.to_multiset_ensures();
    assert(s1.len() == s2.len());
    if s1.len() == 0 {
        assert(s1 =~= s2);
    } else {
        let a = s1[0];
        let b = s2[0];
        assert(s2.contains(b));
        assert(s1.to_multiset().count(b) > 0);
        assert(s1.contains(b));
        let j = choose|j: int| 0 <= j < s1.len() && s1[j] == b;
        assert(s1.contains(a));
        assert(s2.to_multiset().count(a) > 0);
        assert(s2.contains(a));
        let k = choose|k: int| 0 <= k < s2.len() && s2[k] == a;
        if a != b {
            lemma_elder_key_len(a);
            lemma_elder_key_len(b);
            assert(elder_key(s1[0]) != elder_key(s1[j]));
            assert(j != 0 && k != 0);
            assert(!elder_before(s1[j], s1[0]));
            assert(!elder_before(s2[k], s2[0]));
            lemma_lex_total(elder_key(a), elder_key(b));
        }
        let t1 = s1.remove(0);
        let t2 = s2.remove(0);
        assert(t1.to_multiset() == t2.to_multiset());
        assert(sorted_in_elder_order(t1)) by {
            assert forall|i: int, j2: int| 0 <= i < j2 < t1.len() implies !elder_before(t1[j2], t1[i]) by {
                assert(t1[i] == s1[i + 1] && t1[j2] == s1[j2 + 1]);
            }
        }
        assert(sorted_in_elder_order(t2)) by {
            assert forall|i: int, j2: int| 0 <= i < j2 < t2.len() implies !elder_before(t2[j2], t2[i]) by {
                assert(t2[i] == s2[i + 1] && t2[j2] == s2[j2 + 1]);
            }
        }
        assert(keys_identify(t1)) by {
            assert forall|i: int, j2: int|
                0 <= i < t1.len() && 0 <= j2 < t1.len() && elder_key(t1[i]) == elder_key(t1[j2]) implies t1[i]
                == t1[j2] by {
                assert(t1[i] == s1[i + 1] && t1[j2] == s1[j2 + 1]);
            }
        }
        lemma_arrangement_unique(t1, t2);
        assert forall|i: int| 0 <= i < s1.len() implies s1[i] == s2[i] by {
            if i > 0 {
                assert(s1[i] == t1[i - 1] && s2[i] == t2[i - 1]);
            }
        }
        assert(s1 =~= s2);
    }
}

/// An arrangement of a table's rows inherits the table's distinct names.
proof fn lemma_arrangement_keys_identify(sorted: Seq<NodeState>, rows: Seq<NodeState>)
    requires
        rows_sorted(rows),
        is_elder_arrangement(sorted, rows),
    ensures
        keys_identify(sorted),
        sorted_in_elder_order(sorted),
{
    sorted.to_multiset_ensures();
    rows.to_multiset_ensures();
    assert forall|i: int, j: int|
        0 <= i < sorted.len() && 0 <= j < sorted.len() && elder_key(sorted[i]) == elder_key(
            sorted[j],
        ) implies sorted[i] == sorted[j] by {
        lemma_elder_key_len(sorted[i]);
        lemma_elder_key_len(sorted[j]);
        assert(sorted.contains(sorted[i]));
        assert(sorted.contains(sorted[j]));
        assert(rows.to_multiset().count(sorted[i]) > 0);
        assert(rows.to_multiset().count(sorted[j]) > 0);
        assert(rows.contains(sorted[i]));
        assert(rows.contains(sorted[j]));
        let p = choose|p: int| 0 <= p < rows.len() && rows[p] == sorted[i];
        let q = choose|q: int| 0 <= q < rows.len() && rows[q] == sorted[j];
        assert(rows[p].node.0.name == rows[q].node.0.name);
        if p < q {
            assert(rows[p].node.0.name.0 < rows[q].node.0.name.0);
        } else if q < p {
            assert(rows[q].node.0.name.0 < rows[p].node.0.name.0);
        }
    }
}

/// `first` and `second` hold the same values.
pub open spec fn same_views(first: MemberState, second: MemberState) -> bool {
    &&& first.action@ == second.action@
    &&& first.failure == second.failure
    &&& first.start_resource_proof == second.start_resource_proof
    &&& first.start_relocate_src@ == second.start_relocate_src@
    &&& first.start_merge_split_and_change_elders@ == second.start_merge_split_and_change_elders@
}

proof fn lemma_check_elder_unique(s: MemberState, first: MemberState, second: MemberState)
    requires
        s.wf(),
        StartMergeSplitAndChangeElders::check_elder_step(s, first),
        StartMergeSplitAndChangeElders::check_elder_step(s, second),
    ensures
        same_views(first, second),
{
    let a = s.action@;
    if !StartMergeSplitAndChangeElders::merge_pending(a) {
        let s1 = choose|sorted: Seq<NodeState>|
            #[trigger] is_elder_arrangement(sorted, a.nodes)
                && StartMergeSplitAndChangeElders::elder_or_split_step(s, first, sorted);
        let s2 = choose|sorted: Seq<NodeState>|
            #[trigger] is_elder_arrangement(sorted, a.nodes)
                && StartMergeSplitAndChangeElders::elder_or_split_step(s, second, sorted);
        lemma_arrangement_keys_identify(s1, a.nodes);
        lemma_arrangement_keys_identify(s2, a.nodes);
        lemma_arrangement_unique(s1, s2);
    }
}

proof fn lemma_work_unit_unique(s: MemberState, first: MemberState, second: MemberState)
    requires
        StartDecidesOnNodeToRelocate::work_unit_step(s, first),
        StartDecidesOnNodeToRelocate::work_unit_step(s, second),
    ensures
        same_views(first, second),
{
    let nodes = s.action@.nodes;
    if !(exists|i: int| 0 <= i < nodes.len() && (#[trigger] nodes[i]).state is RelocatingAgeIncrease)
        && exists|i: int| 0 <= i < nodes.len() && ready_to_relocate(#[trigger] nodes[i]) {
        let a1 = s.action@.log(
            Event::ActionTriggered(crate::utilities::ActionTriggered::WorkUnitIncremented),
        );
        let i1 = choose|i: int|
            0 <= i < nodes.len() && ready_to_relocate(#[trigger] nodes[i]) && (forall|j: int|
                0 <= j < i ==> !ready_to_relocate(nodes[j])) && s.only_action(
                first,
                a1.set_state(nodes[i].node.0.name, crate::utilities::State::RelocatingAgeIncrease),
            );
        let i2 = choose|i: int|
            0 <= i < nodes.len() && ready_to_relocate(#[trigger] nodes[i]) && (forall|j: int|
                0 <= j < i ==> !ready_to_relocate(nodes[j])) && s.only_action(
                second,
                a1.set_state(nodes[i].node.0.name, crate::utilities::State::RelocatingAgeIncrease),
            );
        assert(i1 == i2) by {
            if i1 < i2 {
                assert(!ready_to_relocate(nodes[i1]));
            } else if i2 < i1 {
                assert(!ready_to_relocate(nodes[i2]));
            }
        }
    }
}

#[verifier::rlimit(40)]
proof fn lemma_check_relocate_unique(s: MemberState, first: MemberState, second: MemberState)
    requires
        s.wf(),
        StartRelocateSrc::check_relocate_step(s, first),
        StartRelocateSrc::check_relocate_step(s, second),
    ensures
        same_views(first, second),
{
    let a = s.action@;
    let already = s.start_relocate_src@;
    if exists|i: int| 0 <= i < a.nodes.len() && may_relocate(#[trigger] a.nodes[i], already) {
        let i1 = choose|i: int|
            #[trigger] is_best_to_relocate(a, already, i) && s.relocation_changed(
                first,
                a.log(Event::Rpc(Rpc::ExpectCandidate(Candidate(a.nodes[i].node.0)))),
                crate::flows_src::aged(already.push((Candidate(a.nodes[i].node.0), 0))),
            );
        let i2 = choose|i: int|
            #[trigger] is_best_to_relocate(a, already, i) && s.relocation_changed(
                second,
                a.log(Event::Rpc(Rpc::ExpectCandidate(Candidate(a.nodes[i].node.0)))),
                crate::flows_src::aged(already.push((Candidate(a.nodes[i].node.0), 0))),
            );
        if i1 != i2 {
            assert(!lex_lt(relocation_key(a.nodes[i1]), relocation_key(a.nodes[i2])));
            assert(!lex_lt(relocation_key(a.nodes[i2]), relocation_key(a.nodes[i1])));
            lemma_lex_total(relocation_key(a.nodes[i1]), relocation_key(a.nodes[i2]));
            assert(relocation_key(a.nodes[i1])[4] == relocation_key(a.nodes[i2])[4]);
            if i1 < i2 {
                assert(a.nodes[i1].node.0.name.0 < a.nodes[i2].node.0.name.0);
            } else {
                assert(a.nodes[i2].node.0.name.0 < a.nodes[i1].node.0.name.0);
            }
        }
    }
}

proof fn lemma_expect_unique(s: MemberState, c: Candidate, first: MemberState, second: MemberState)
    requires
        RespondToRelocateRequests::expect_step(s, c, first),
        RespondToRelocateRequests::expect_step(s, c, second),
    ensures
        same_views(first, second),
{
    let a = s.action@;
    if a.shortest_prefix is None && !RespondToRelocateRequests::no_ticket_for(a, c) {
        let i1 = choose|i: int|
            0 <= i < a.nodes.len() && waits_for(#[trigger] a.nodes[i], c) && (forall|j: int|
                0 <= j < i ==> !waits_for(a.nodes[j], c)) && s.only_action(
                first,
                a.log(Event::Rpc(Rpc::RelocateResponse(a.nodes[i].state->WaitingCandidateInfo_0))),
            );
        let i2 = choose|i: int|
            0 <= i < a.nodes.len() && waits_for(#[trigger] a.nodes[i], c) && (forall|j: int|
                0 <= j < i ==> !waits_for(a.nodes[j], c)) && s.only_action(
                second,
                a.log(Event::Rpc(Rpc::RelocateResponse(a.nodes[i].state->WaitingCandidateInfo_0))),
            );
        assert(i1 == i2) by {
            if i1 < i2 {
                assert(!waits_for(a.nodes[i1], c));
            } else if i2 < i1 {
                assert(!waits_for(a.nodes[i2], c));
            }
        }
    }
}

proof fn lemma_check_resource_proof_unique(s: MemberState, first: MemberState, second: MemberState)
    requires
        StartResourceProof::check_step(s, first),
        StartResourceProof::check_step(s, second),
    ensures
        same_views(first, second),
{
    let a = s.action@;
    if exists|i: int| 0 <= i < a.nodes.len() && (#[trigger] a.nodes[i]).state is WaitingCandidateInfo {
        let i1 = choose|i: int|
            0 <= i < a.nodes.len() && (#[trigger] a.nodes[i]).state is WaitingCandidateInfo && (
            forall|j: int| 0 <= j < i ==> !(a.nodes[j].state is WaitingCandidateInfo))
                && s.admission_changed(
                first,
                a.log(crate::flows_elder::scheduled(crate::utilities::LocalEvent::TimeoutAccept)),
                crate::state::StartResourceProofState {
                    candidate: Some(
                        (a.nodes[i].node.0.name, a.nodes[i].state->WaitingCandidateInfo_0.candidate),
                    ),
                    ..s.start_resource_proof
                },
            );
        let i2 = choose|i: int|
            0 <= i < a.nodes.len() && (#[trigger] a.nodes[i]).state is WaitingCandidateInfo && (
            forall|j: int| 0 <= j < i ==> !(a.nodes[j].state is WaitingCandidateInfo))
                && s.admission_changed(
                second,
                a.log(crate::flows_elder::scheduled(crate::utilities::LocalEvent::TimeoutAccept)),
                crate::state::StartResourceProofState {
                    candidate: Some(
                        (a.nodes[i].node.0.name, a.nodes[i].state->WaitingCandidateInfo_0.candidate),
                    ),
                    ..s.start_resource_proof
                },
            );
        assert(i1 == i2) by {
            if i1 < i2 {
                assert(!(a.nodes[i1].state is WaitingCandidateInfo));
            } else if i2 < i1 {
                assert(!(a.nodes[i2].state is WaitingCandidateInfo));
            }
        }
    }
}

/// A member's step is a function of its state and the event: two runs of
/// the same event from the same state end in the same values, with the same
/// result.
pub proof fn lemma_step_is_deterministic(
    s: MemberState,
    e: Event,
    first: MemberState,
    r1: TryResult,
    second: MemberState,
    r2: TryResult,
)
    requires
        s.wf(),
        s.accepts(e),
        MemberState::next(s, e, first, r1),
        MemberState::next(s, e, second, r2),
    ensures
        r1 == r2,
        same_views(first, second),
{
    match e {
        Event::ParsecConsensus(v) => {
            match v {
                ParsecVote::CheckElder => {
                    lemma_not_awaited(s, v);
                    lemma_check_elder_unique(s, first, second);
                },
                ParsecVote::WorkUnitIncrement => {
                    lemma_not_awaited(s, v);
                    lemma_work_unit_unique(s, first, second);
                },
                ParsecVote::CheckRelocate => {
                    lemma_not_awaited(s, v);
                    lemma_check_relocate_unique(s, first, second);
                },
                ParsecVote::ExpectCandidate(c) => {
                    lemma_not_awaited(s, v);
                    lemma_expect_unique(s, c, first, second);
                },
                ParsecVote::CheckResourceProof => {
                    lemma_not_awaited(s, v);
                    lemma_check_resource_proof_unique(s, first, second);
                },
                _ => {},
            }
        },
        _ => {},
    }
}

} // verus!

verus! {

use crate::table::{
    lemma_rows_with_elder, lemma_rows_with_row, lemma_rows_with_state, lemma_rows_without_row, row,
};

/// Applying elder changes keeps every row and its work count.
pub broadcast proof fn lemma_set_elders_rows(a: ActionModel, changes: Seq<(Node, bool)>, m: crate::utilities::Name)
    requires
        rows_sorted(a.nodes),
        has_row(a.nodes, m),
    ensures
        #![trigger has_row(a.set_elders(changes).nodes, m)]
        #![trigger row(a.set_elders(changes).nodes, m)]
        has_row(a.set_elders(changes).nodes, m),
        row(a.set_elders(changes).nodes, m).work_units_done == row(a.nodes, m).work_units_done,
        rows_sorted(a.set_elders(changes).nodes),
    decreases changes.len(),
{
    broadcast use lemma_rows_with_elder;

    if changes.len() > 0 {
        lemma_set_elders_rows(a, changes.drop_last(), m);
        crate::table::lemma_with_elder(
            a.set_elders(changes.drop_last()).nodes,
            changes.last().0.0.name,
            changes.last().1,
        );
    }
}

/// Whether `e` is the test event that sets a node's work count.
pub open spec fn sets_work(e: Event) -> bool {
    e matches Event::TestEvent(crate::utilities::TestEvent::SetWorkUnitEnoughToRelocate(_))
}

/// Work counts never go back: but for the test event that sets one, a row
/// that stays under its name keeps its count, unless an `Online` consensus
/// put a newly admitted node, which starts at zero, in its place.
pub proof fn lemma_work_units_never_go_back(s: MemberState, e: Event, post: MemberState, r: TryResult)
    requires
        s.wf(),
        s.accepts(e),
        MemberState::next(s, e, post, r),
        !sets_work(e),
    ensures
        forall|n: crate::utilities::Name|
            has_row(s.action@.nodes, n) && has_row(post.action@.nodes, n) ==> (row(
                post.action@.nodes,
                n,
            ).work_units_done == row(s.action@.nodes, n).work_units_done || (e is ParsecConsensus
                && e->ParsecConsensus_0 is Online && row(post.action@.nodes, n).work_units_done == 0)),
{
    broadcast use lemma_set_elders_rows, lemma_rows_with_state, lemma_rows_with_elder,
        lemma_rows_with_row, lemma_rows_without_row, lemma_count_with_row, lemma_count_without_row;

}

} // verus!

verus! {

use crate::order::{demotions, elder_changes as changes_of, elder_count, is_adult_row, is_elder_row, promotions};
use crate::table::lemma_filter_from;

/// What applying elder changes does to one row: the flag of the changes
/// that name it, when all of them agree, or the flag it had.
pub proof fn lemma_set_elders_flag(a: ActionModel, changes: Seq<(Node, bool)>, m: crate::utilities::Name, f: bool)
    requires
        rows_sorted(a.nodes),
        has_row(a.nodes, m),
        forall|j: int| 0 <= j < changes.len() && (#[trigger] changes[j]).0.0.name == m ==> changes[j].1 == f,
    ensures
        has_row(a.set_elders(changes).nodes, m),
        row(a.set_elders(changes).nodes, m).is_elder == if exists|j: int|
            0 <= j < changes.len() && (#[trigger] changes[j]).0.0.name == m {
            f
        } else {
            row(a.nodes, m).is_elder
        },
    decreases changes.len(),
{
    broadcast use lemma_set_elders_rows, lemma_rows_with_elder;

    if changes.len() > 0 {
        let init = changes.drop_last();
        assert forall|j: int| 0 <= j < init.len() && (#[trigger] init[j]).0.0.name == m implies init[j].1 == f by {
            assert(init[j] == changes[j]);
        }
        lemma_set_elders_flag(a, init, m, f);
        let prev = a.set_elders(init);
        lemma_set_elders_rows(a, init, m);
        if exists|j: int| 0 <= j < init.len() && (#[trigger] init[j]).0.0.name == m {
            let j = choose|j: int| 0 <= j < init.len() && (#[trigger] init[j]).0.0.name == m;
            assert(changes[j] == init[j]);
        }
        if exists|j: int| 0 <= j < changes.len() && (#[trigger] changes[j]).0.0.name == m {
            if changes.last().0.0.name != m {
                let j = choose|j: int| 0 <= j < changes.len() && (#[trigger] changes[j]).0.0.name == m;
                assert(j < init.len());
                assert(init[j] == changes[j]);
            }
        } else {
            assert(!(changes[changes.len() - 1].0.0.name == m));
            assert(!exists|j: int| 0 <= j < init.len() && (#[trigger] init[j]).0.0.name == m) by {
                if exists|j: int| 0 <= j < init.len() && (#[trigger] init[j]).0.0.name == m {
                    let j = choose|j: int| 0 <= j < init.len() && (#[trigger] init[j]).0.0.name == m;
                    assert(changes[j] == init[j]);
                }
            }
        }
    }
}

} // verus!

verus! {

/// An arrangement of a table's rows holds each row once, at the position of
/// its name.
proof fn lemma_arrangement_rows(sorted: Seq<NodeState>, rows: Seq<NodeState>)
    requires
        rows_sorted(rows),
        is_elder_arrangement(sorted, rows),
    ensures
        forall|i: int, j: int|
            0 <= i < sorted.len() && 0 <= j < sorted.len() && sorted[i].node.0.name
                == sorted[j].node.0.name ==> i == j,
        forall|i: int|
            0 <= i < sorted.len() ==> has_row(rows, (#[trigger] sorted[i]).node.0.name) && row(
                rows,
                sorted[i].node.0.name,
            ) == sorted[i],
{
    sorted.to_multiset_ensures();
    rows.to_multiset_ensures();
    assert(rows.no_duplicates()) by {
        assert forall|i: int, j: int| 0 <= i < rows.len() && 0 <= j < rows.len() && i != j implies rows[i]
            != rows[j] by {
            if i < j {
                assert(rows[i].node.0.name.0 < rows[j].node.0.name.0);
            } else {
                assert(rows[j].node.0.name.0 < rows[i].node.0.name.0);
            }
        }
    }
    rows.lemma_multiset_has_no_duplicates();
    sorted.lemma_multiset_has_no_duplicates_conv();
    assert forall|i: int| 0 <= i < sorted.len() implies has_row(rows, (#[trigger] sorted[i]).node.0.name)
        && row(rows, sorted[i].node.0.name) == sorted[i] by {
        assert(sorted.contains(sorted[i]));
        assert(rows.to_multiset().count(sorted[i]) > 0);
        let p = choose|p: int| 0 <= p < rows.len() && rows[p] == sorted[i];
        lemma_row_index(rows, sorted[i].node.0.name, p);
    }
    assert forall|i: int, j: int|
        0 <= i < sorted.len() && 0 <= j < sorted.len() && sorted[i].node.0.name
            == sorted[j].node.0.name implies i == j by {
        assert(row(rows, sorted[i].node.0.name) == sorted[i]);
        assert(row(rows, sorted[j].node.0.name) == sorted[j]);
    }
}

/// The elder rule holds once an elder change is applied to the table it
/// was computed from: a row is an elder exactly when it stands among the
/// first `min(3, n)` rows in elder order.
pub proof fn lemma_elder_change_applies_the_rule(a: ActionModel, sorted: Seq<NodeState>)
    requires
        a.wf(),
        is_elder_arrangement(sorted, a.nodes),
    ensures
        forall|i: int|
            0 <= i < sorted.len() ==> has_row(
                a.set_elders(changes_of(sorted)).nodes,
                (#[trigger] sorted[i]).node.0.name,
            ) && row(a.set_elders(changes_of(sorted)).nodes, sorted[i].node.0.name).is_elder == (i
                < elder_count(sorted.len() as int)),
{
    lemma_arrangement_rows(sorted, a.nodes);
    let k = elder_count(sorted.len() as int);
    let ch = changes_of(sorted);
    let head = sorted.take(k);
    let tail = sorted.skip(k);
    let pf = head.filter(is_adult_row());
    let df = tail.filter(is_elder_row());
    let pr = promotions(sorted);
    let dm = demotions(sorted);
    assert(ch == pr + dm);
    assert(pr.len() == pf.len());
    assert(dm.len() == df.len());
    assert forall|i: int| 0 <= i < sorted.len() implies has_row(
        a.set_elders(ch).nodes,
        (#[trigger] sorted[i]).node.0.name,
    ) && row(a.set_elders(ch).nodes, sorted[i].node.0.name).is_elder == (i < k) by {
        let x = sorted[i];
        let m = x.node.0.name;
        let f = i < k;
        assert forall|j: int| 0 <= j < ch.len() && (#[trigger] ch[j]).0.0.name == m implies ch[j].1 == f by {
            if j < pr.len() {
                assert(ch[j] == pr[j]);
                lemma_filter_from(head, is_adult_row(), j);
                let q = choose|q: int| 0 <= q < head.len() && head[q] == pf[j] && is_adult_row()(head[q]);
                assert(sorted[q] == head[q]);
                assert(pr[j] == (pf[j].node, true));
                assert(q == i);
            } else {
                let j2 = j - pr.len();
                assert(ch[j] == dm[j2]);
                lemma_filter_from(tail, is_elder_row(), j2);
                let q = choose|q: int| 0 <= q < tail.len() && tail[q] == df[j2] && is_elder_row()(tail[q]);
                assert(sorted[k + q] == tail[q]);
                assert(dm[j2] == (df[j2].node, false));
                assert(k + q == i);
            }
        }
        lemma_set_elders_flag(a, ch, m, f);
        if !exists|j: int| 0 <= j < ch.len() && (#[trigger] ch[j]).0.0.name == m {
            head.filter_lemma(is_adult_row());
            tail.filter_lemma(is_elder_row());
            if i < k {
                if !x.is_elder {
                    assert(head[i] == x);
                    assert(pf.contains(x));
                    let j0 = choose|j0: int| 0 <= j0 < pf.len() && pf[j0] == x;
                    assert(ch[j0] == pr[j0]);
                    assert(ch[j0].0.0.name == m);
                }
            } else {
                if x.is_elder {
                    assert(tail[i - k] == x);
                    assert(df.contains(x));
                    let j0 = choose|j0: int| 0 <= j0 < df.len() && df[j0] == x;
                    assert(ch[pr.len() + j0] == dm[j0]);
                    assert(ch[pr.len() + j0].0.0.name == m);
                }
            }
        }
    }
}

} // verus!

verus! {

/// The names of the elders in a table.
pub open spec fn elder_names(nodes: Seq<NodeState>) -> Set<crate::utilities::Name> {
    Set::new(|m: crate::utilities::Name| has_row(nodes, m) && row(nodes, m).is_elder)
}

pub open spec fn names_of(s: Seq<NodeState>) -> Seq<crate::utilities::Name> {
    s.map_values(|x: NodeState| x.node.0.name)
}

/// Applying elder changes keeps the table's names.
proof fn lemma_set_elders_names(a: ActionModel, changes: Seq<(Node, bool)>, m: crate::utilities::Name)
    requires
        rows_sorted(a.nodes),
    ensures
        has_row(a.set_elders(changes).nodes, m) == has_row(a.nodes, m),
        rows_sorted(a.set_elders(changes).nodes),
    decreases changes.len(),
{
    if changes.len() > 0 {
        lemma_set_elders_names(a, changes.drop_last(), m);
        crate::table::lemma_with_elder(
            a.set_elders(changes.drop_last()).nodes,
            changes.last().0.0.name,
            changes.last().1,
        );
    }
}

/// Once an elder change is applied to the table it was computed from, the
/// elders are the first `min(3, n)` names in elder order, and there are
/// exactly `min(3, n)` of them.
pub proof fn lemma_elder_bound_after_change(a: ActionModel, sorted: Seq<NodeState>)
    requires
        a.wf(),
        is_elder_arrangement(sorted, a.nodes),
    ensures
        elder_names(a.set_elders(changes_of(sorted)).nodes) == names_of(sorted).take(
            elder_count(a.nodes.len() as int),
        ).to_set(),
        elder_names(a.set_elders(changes_of(sorted)).nodes).len() == elder_count(a.nodes.len() as int),
{
    sorted.to_multiset_ensures();
    a.nodes.to_multiset_ensures();
    lemma_arrangement_rows(sorted, a.nodes);
    lemma_elder_change_applies_the_rule(a, sorted);
    let after = a.set_elders(changes_of(sorted)).nodes;
    let k = elder_count(a.nodes.len() as int);
    let names = names_of(sorted);
    let first = names.take(k);
    assert(sorted.len() == a.nodes.len());
    assert forall|m: crate::utilities::Name| elder_names(after).contains(m) == first.to_set().contains(m) by {
        lemma_set_elders_names(a, changes_of(sorted), m);
        if elder_names(after).contains(m) {
            assert(has_row(a.nodes, m));
            let p = choose|p: int| 0 <= p < a.nodes.len() && a.nodes[p].node.0.name == m;
            assert(a.nodes.contains(a.nodes[p]));
            assert(sorted.to_multiset().count(a.nodes[p]) > 0);
            assert(sorted.contains(a.nodes[p]));
            let i = choose|i: int| 0 <= i < sorted.len() && sorted[i] == a.nodes[p];
            assert(sorted[i].node.0.name == m);
            assert(row(after, sorted[i].node.0.name).is_elder == (i < k));
            assert(first[i] == m);
            assert(first.contains(m));
        }
        if first.to_set().contains(m) {
            assert(first.contains(m));
            let i = choose|i: int| 0 <= i < first.len() && first[i] == m;
            assert(names[i] == sorted[i].node.0.name);
            assert(has_row(after, sorted[i].node.0.name));
        }
    }
    assert(elder_names(after) =~= first.to_set());
    assert(first.no_duplicates()) by {
        assert forall|i: int, j: int| 0 <= i < first.len() && 0 <= j < first.len() && i != j implies first[i]
            != first[j] by {
            assert(first[i] == sorted[i].node.0.name && first[j] == sorted[j].node.0.name);
        }
    }
    first.unique_seq_to_set();
}

} // verus!

verus! {

/// `post` is reached from `s` by taking the events of `es` one at a time,
/// each accepted, as `MemberState::try_next` takes them.
pub open spec fn run(s: MemberState, es: Seq<Event>, post: MemberState) -> bool
    decreases es.len(),
{
    if es.len() == 0 {
        post == s
    } else {
        exists|mid: MemberState, r: TryResult|
            #[trigger] MemberState::next(s, es[0], mid, r) && s.wf() && s.accepts(es[0]) && mid.wf()
                && run(mid, es.drop_first(), post)
    }
}

/// A section admits one candidate at a time over any run: from a state with
/// at most one row that is not yet a full member, every reachable state has
/// at most one.
pub proof fn lemma_single_admission_over_runs(s: MemberState, es: Seq<Event>, post: MemberState)
    requires
        run(s, es, post),
        count_not_yet_full(s.action@.nodes) <= 1,
    ensures
        count_not_yet_full(post.action@.nodes) <= 1,
    decreases es.len(),
{
    if es.len() > 0 {
        let (mid, r) = choose|mid: MemberState, r: TryResult|
            #[trigger] MemberState::next(s, es[0], mid, r) && s.wf() && s.accepts(es[0]) && mid.wf()
                && run(mid, es.drop_first(), post);
        lemma_single_admission(s, es[0], mid, r);
        lemma_single_admission_over_runs(mid, es.drop_first(), post);
    }
}

} // verus!

verus! {

use crate::state::{awaited_in, handled_by_merge, handled_by_online_offline};
use crate::table::{
    count_elders, lemma_count_elders_le_len, lemma_count_elders_with_enough_work,
    lemma_count_elders_with_row, lemma_count_elders_with_state, lemma_count_elders_without_row,
};

/// Whether `e` is the last awaited vote of an elder change under way, which
/// completes it.
pub open spec fn completes_elder_change(s: MemberState, e: Event) -> bool {
    let m = s.start_merge_split_and_change_elders@;
    match e {
        Event::ParsecConsensus(v) => {
            let w = crate::utilities::WaitedEvent::ParsecConsensus(v);
            &&& !handled_by_online_offline(w)
            &&& !(m.split_active && awaited_in(w, m.split_wait))
            &&& !(m.merge_active && handled_by_merge(w))
            &&& m.elder_active
            &&& crate::flows_elder::ProcessElderChange::completes(s, v)
        },
        _ => false,
    }
}

/// No step but the completion of an elder change touches an elder flag, and
/// none of them breaks the elder bound: a section with at most `min(3, n)`
/// elders of its `n` members keeps at most that many.
pub proof fn lemma_elder_bound_kept(s: MemberState, e: Event, post: MemberState, r: TryResult)
    requires
        s.wf(),
        s.accepts(e),
        MemberState::next(s, e, post, r),
        !completes_elder_change(s, e),
        count_elders(s.action@.nodes) <= elder_count(s.action@.nodes.len() as int),
    ensures
        count_elders(post.action@.nodes) <= elder_count(post.action@.nodes.len() as int),
{
    broadcast use lemma_count_elders_le_len, lemma_count_elders_with_state,
        lemma_count_elders_with_enough_work, lemma_count_elders_with_row,
        lemma_count_elders_without_row, lemma_count_without_row, lemma_count_with_row;

}

} // verus!

verus! {

/// Completing an elder change moves our section to its next version.
pub proof fn lemma_elder_change_raises_version(s: MemberState, e: Event, post: MemberState, r: TryResult)
    requires
        s.wf(),
        s.accepts(e),
        MemberState::next(s, e, post, r),
        completes_elder_change(s, e),
    ensures
        post.action@.our_section == crate::utilities::SectionInfo(
            s.action@.our_section.0,
            (s.action@.our_section.1 + 1) as i32,
        ),
        post.action@.our_section.1 == s.action@.our_section.1 + 1,
{
    broadcast use lemma_set_elders_keeps;

}

} // verus!

verus! {

/// A step depends on the state's values alone: what one state does, a state
/// holding the same values does too, up to values.
proof fn lemma_next_by_values(s1: MemberState, s2: MemberState, e: Event, post_b: MemberState, r: TryResult)
    requires
        same_views(s1, s2),
        MemberState::next(s2, e, post_b, r),
    ensures
        MemberState::next(s1, e, if post_b == s2 { s1 } else { post_b }, r),
        same_views(if post_b == s2 { s1 } else { post_b }, post_b),
{
    if post_b == s2 {
        assert(MemberState::next(s1, e, s1, r));
    } else {
        assert(MemberState::next(s1, e, post_b, r));
    }
}

/// Two states holding the same values take the same step on the same event:
/// the same result, and again the same values.
pub proof fn lemma_same_values_same_step(
    s1: MemberState,
    s2: MemberState,
    e: Event,
    post_a: MemberState,
    r1: TryResult,
    post_b: MemberState,
    r2: TryResult,
)
    requires
        s1.wf(),
        s1.accepts(e),
        same_views(s1, s2),
        MemberState::next(s1, e, post_a, r1),
        MemberState::next(s2, e, post_b, r2),
    ensures
        r1 == r2,
        same_views(post_a, post_b),
{
    lemma_next_by_values(s1, s2, e, post_b, r2);
    let w = if post_b == s2 { s1 } else { post_b };
    lemma_step_is_deterministic(s1, e, post_a, r1, w, r2);
}

/// Replays agree: two runs of the same events from states holding the same
/// values end in states holding the same values, journal included.
pub proof fn lemma_runs_are_deterministic(
    s1: MemberState,
    s2: MemberState,
    es: Seq<Event>,
    post_a: MemberState,
    post_b: MemberState,
)
    requires
        same_views(s1, s2),
        run(s1, es, post_a),
        run(s2, es, post_b),
    ensures
        same_views(post_a, post_b),
    decreases es.len(),
{
    if es.len() > 0 {
        let (m1, r1) = choose|mid: MemberState, r: TryResult|
            #[trigger] MemberState::next(s1, es[0], mid, r) && s1.wf() && s1.accepts(es[0]) && mid.wf()
                && run(mid, es.drop_first(), post_a);
        let (m2, r2) = choose|mid: MemberState, r: TryResult|
            #[trigger] MemberState::next(s2, es[0], mid, r) && s2.wf() && s2.accepts(es[0]) && mid.wf()
                && run(mid, es.drop_first(), post_b);
        lemma_same_values_same_step(s1, s2, es[0], m1, r1, m2, r2);
        lemma_runs_are_deterministic(m1, m2, es.drop_first(), post_a, post_b);
    }
}

} // verus!

verus! {

/// Applying elder changes that name each node once gives each named row its
/// new flag and leaves every other row's flag as it was.
pub proof fn lemma_marked_elder_flags(a: ActionModel, changes: Seq<(Node, bool)>)
    requires
        a.wf(),
        forall|j: int| 0 <= j < changes.len() ==> has_row(a.nodes, #[trigger] changes[j].0.0.name),
        forall|j: int, l: int|
            0 <= j < l < changes.len() ==> changes[j].0.0.name != changes[l].0.0.name,
    ensures
        forall|j: int|
            0 <= j < changes.len() ==> row(
                a.set_elders(changes).nodes,
                #[trigger] changes[j].0.0.name,
            ).is_elder == changes[j].1,
        forall|m: crate::utilities::Name|
            has_row(a.nodes, m) && (forall|j: int| 0 <= j < changes.len() ==> #[trigger] changes[j].0.0.name != m)
                ==> row(a.set_elders(changes).nodes, m).is_elder == row(a.nodes, m).is_elder,
{
    assert forall|j: int| 0 <= j < changes.len() implies row(
        a.set_elders(changes).nodes,
        #[trigger] changes[j].0.0.name,
    ).is_elder == changes[j].1 by {
        let m = changes[j].0.0.name;
        assert forall|l: int| 0 <= l < changes.len() && (#[trigger] changes[l]).0.0.name == m implies changes[l].1
            == changes[j].1 by {
            if l < j {
                assert(changes[l].0.0.name != changes[j].0.0.name);
            } else if l > j {
                assert(changes[j].0.0.name != changes[l].0.0.name);
            }
        }
        lemma_set_elders_flag(a, changes, m, changes[j].1);
    }
    assert forall|m: crate::utilities::Name|
        has_row(a.nodes, m) && (forall|j: int| 0 <= j < changes.len() ==> #[trigger] changes[j].0.0.name != m)
            implies row(a.set_elders(changes).nodes, m).is_elder == row(a.nodes, m).is_elder by {
        lemma_set_elders_flag(a, changes, m, false);
    }
}

} // verus!
