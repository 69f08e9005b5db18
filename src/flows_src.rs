//! The source side of relocation: deciding which node leaves, and sending it
//! away.
use crate::actions::{ActionModel, may_relocate, ready_to_relocate};
use crate::flows_elder::{scheduled, voted};
use crate::order::{lex_lt, relocation_key};
use crate::state::{MemberState, relocating_wf};
use crate::table::{has_row, row};
use crate::utilities::{
    Candidate, Event, LocalEvent, ParsecVote, RelocatedInfo, Rpc, State, TryResult, WaitedEvent,
};
use vstd::prelude::*;

verus! {

pub open spec fn not_candidate(c: Candidate) -> spec_fn((Candidate, i32)) -> bool {
    |p: (Candidate, i32)| p.0 != c
}

pub open spec fn below_resend_bound() -> spec_fn((Candidate, i32)) -> bool {
    |p: (Candidate, i32)| p.1 < 3
}

/// One more check has passed for every node sent away; those checked three
/// times may be sent again.
pub open spec fn aged(already: Seq<(Candidate, i32)>) -> Seq<(Candidate, i32)> {
    already.map_values(|p: (Candidate, i32)| (p.0, (p.1 + 1) as i32)).filter(below_resend_bound())
}

/// Row `i` goes first among the rows that may be relocated now.
pub open spec fn is_best_to_relocate(a: ActionModel, already: Seq<(Candidate, i32)>, i: int) -> bool {
    &&& 0 <= i < a.nodes.len()
    &&& may_relocate(a.nodes[i], already)
    &&& forall|j: int|
        0 <= j < a.nodes.len() && may_relocate(a.nodes[j], already) ==> !lex_lt(
            relocation_key(a.nodes[i]),
            relocation_key(a.nodes[j]),
        )
}

/// Decides, on each agreed work unit, whether an adult has worked enough to
/// be relocated.
pub struct StartDecidesOnNodeToRelocate;

impl StartDecidesOnNodeToRelocate {
    /// The outcome of a `WorkUnitIncrement` consensus: unless a node is
    /// already relocating for its age, the first online node that did as much
    /// work as its age starts relocating.
    pub open spec fn work_unit_step(pre: MemberState, post: MemberState) -> bool {
        let a1 = pre.action@.log(
            Event::ActionTriggered(crate::utilities::ActionTriggered::WorkUnitIncremented),
        );
        let nodes = pre.action@.nodes;
        if exists|i: int| 0 <= i < nodes.len() && (#[trigger] nodes[i]).state is RelocatingAgeIncrease {
            pre.only_action(post, a1)
        } else if exists|i: int| 0 <= i < nodes.len() && ready_to_relocate(#[trigger] nodes[i]) {
            exists|i: int|
                0 <= i < nodes.len() && ready_to_relocate(#[trigger] nodes[i]) && (forall|j: int|
                    0 <= j < i ==> !ready_to_relocate(nodes[j])) && pre.only_action(
                    post,
                    a1.set_state(nodes[i].node.0.name, State::RelocatingAgeIncrease),
                )
        } else {
            pre.only_action(post, a1)
        }
    }

    pub open spec fn step(pre: MemberState, e: WaitedEvent, post: MemberState, r: TryResult) -> bool {
        let a = pre.action@;
        match e {
            WaitedEvent::LocalEvent(LocalEvent::TimeoutWorkUnit) => r == TryResult::Handled
                && pre.only_action(
                post,
                a.log(voted(ParsecVote::WorkUnitIncrement)).log(scheduled(LocalEvent::TimeoutWorkUnit)),
            ),
            WaitedEvent::ParsecConsensus(ParsecVote::WorkUnitIncrement) => r == TryResult::Handled
                && Self::work_unit_step(pre, post),
            _ => r == TryResult::Unhandled && post == pre,
        }
    }

    pub fn start_event_loop(state: &mut MemberState)
        ensures
            old(state).only_action(
                *final(state),
                old(state).action@.log(scheduled(LocalEvent::TimeoutWorkUnit)),
            ),
    {
        Self::start_work_unit_timeout(state);
    }

    pub fn try_next(state: &mut MemberState, event: WaitedEvent) -> (r: TryResult)
        requires
            old(state).wf(),
        ensures
            final(state).wf(),
            Self::step(*old(state), event, *final(state), r),
    {
        match event {
            WaitedEvent::LocalEvent(local_event) => Self::try_local_event(state, local_event),
            WaitedEvent::ParsecConsensus(vote) => Self::try_consensus(state, vote),
            WaitedEvent::Rpc(_) => TryResult::Unhandled,
        }
    }

    fn try_local_event(state: &mut MemberState, local_event: LocalEvent) -> (r: TryResult)
        requires
            old(state).wf(),
        ensures
            final(state).wf(),
            Self::step(*old(state), WaitedEvent::LocalEvent(local_event), *final(state), r),
    {
        match local_event {
            LocalEvent::TimeoutWorkUnit => {
                Self::vote_parsec_work_unit_increment(state);
                Self::start_work_unit_timeout(state);
                TryResult::Handled
            },
            _ => TryResult::Unhandled,
        }
    }

    fn try_consensus(state: &mut MemberState, vote: ParsecVote) -> (r: TryResult)
        requires
            old(state).wf(),
        ensures
            final(state).wf(),
            Self::step(*old(state), WaitedEvent::ParsecConsensus(vote), *final(state), r),
    {
        match vote {
            ParsecVote::WorkUnitIncrement => {
                let ghost pre = *state;
                Self::increment_nodes_work_units(state);
                Self::check_get_node_to_relocate(state);
                assert(Self::work_unit_step(pre, *state));
                TryResult::Handled
            },
            _ => TryResult::Unhandled,
        }
    }

    fn check_get_node_to_relocate(state: &mut MemberState)
        requires
            old(state).wf(),
        ensures
            final(state).wf(),
            ({
                let nodes = old(state).action@.nodes;
                if exists|i: int| 0 <= i < nodes.len() && (#[trigger] nodes[i]).state is RelocatingAgeIncrease {
                    *final(state) == *old(state)
                } else if exists|i: int| 0 <= i < nodes.len() && ready_to_relocate(#[trigger] nodes[i]) {
                    exists|i: int|
                        0 <= i < nodes.len() && ready_to_relocate(#[trigger] nodes[i]) && (forall|j: int|
                            0 <= j < i ==> !ready_to_relocate(nodes[j])) && old(state).only_action(
                            *final(state),
                            old(state).action@.set_state(nodes[i].node.0.name, State::RelocatingAgeIncrease),
                        )
                } else {
                    *final(state) == *old(state)
                }
            }),
    {
        if state.action.has_relocating_node() {
            return;
        }
        match state.action.get_node_to_relocate() {
            Some(candidate) => {
                Self::set_relocating_candidate(state, candidate);
            },
            None => {},
        }
    }

    fn increment_nodes_work_units(state: &mut MemberState)
        ensures
            old(state).only_action(
                *final(state),
                old(state).action@.log(
                    Event::ActionTriggered(crate::utilities::ActionTriggered::WorkUnitIncremented),
                ),
            ),
    {
        state.action.increment_nodes_work_units();
    }

    fn set_relocating_candidate(state: &mut MemberState, candidate: Candidate)
        requires
            old(state).wf(),
            has_row(old(state).action@.nodes, candidate.0.name),
        ensures
            final(state).wf(),
            old(state).only_action(
                *final(state),
                old(state).action@.set_state(candidate.0.name, State::RelocatingAgeIncrease),
            ),
    {
        state.action.set_candidate_relocating_state(candidate);
    }

    fn start_work_unit_timeout(state: &mut MemberState)
        ensures
            old(state).only_action(
                *final(state),
                old(state).action@.log(scheduled(LocalEvent::TimeoutWorkUnit)),
            ),
    {
        state.action.schedule_event(LocalEvent::TimeoutWorkUnit);
    }

    fn vote_parsec_work_unit_increment(state: &mut MemberState)
        ensures
            old(state).only_action(
                *final(state),
                old(state).action@.log(voted(ParsecVote::WorkUnitIncrement)),
            ),
    {
        state.action.vote_parsec(ParsecVote::WorkUnitIncrement);
    }
}

/// Sends relocating nodes away: asks a destination to expect them, and
/// retries when it refuses or does not answer.
pub struct StartRelocateSrc;

impl StartRelocateSrc {
    pub open spec fn accepts(pre: MemberState, e: WaitedEvent) -> bool {
        match e {
            WaitedEvent::ParsecConsensus(ParsecVote::RelocatedInfo(info)) => has_row(
                pre.action@.nodes,
                info.candidate.0.name,
            ),
            _ => true,
        }
    }

    /// The outcome of a `CheckRelocate` consensus: the best node that may be
    /// relocated is announced to a destination; then every node sent away
    /// counts one more check.
    pub open spec fn check_relocate_step(pre: MemberState, post: MemberState) -> bool {
        let a = pre.action@;
        let already = pre.start_relocate_src@;
        if exists|i: int| 0 <= i < a.nodes.len() && may_relocate(#[trigger] a.nodes[i], already) {
            exists|i: int|
                #[trigger] is_best_to_relocate(a, already, i) && pre.relocation_changed(
                    post,
                    a.log(Event::Rpc(Rpc::ExpectCandidate(Candidate(a.nodes[i].node.0)))),
                    aged(already.push((Candidate(a.nodes[i].node.0), 0))),
                )
        } else {
            pre.relocation_changed(post, a, aged(already))
        }
    }

    /// The outcome of a destination's answer about candidate `c`, once agreed.
    pub open spec fn answer_step(pre: MemberState, vote: ParsecVote, c: Candidate, post: MemberState) -> bool {
        let a = pre.action@;
        if has_row(a.nodes, c.0.name) && row(a.nodes, c.0.name).state.spec_is_relocating() {
            match vote {
                ParsecVote::RefuseCandidate(_) => pre.relocation_changed(
                    post,
                    a,
                    pre.start_relocate_src@.filter(not_candidate(c)),
                ),
                ParsecVote::RelocateResponse(info) => pre.only_action(
                    post,
                    a.set_state(c.0.name, State::Relocated(info)).log(
                        voted(ParsecVote::RelocatedInfo(info)),
                    ),
                ),
                _ => false,
            }
        } else {
            post == pre
        }
    }

    pub open spec fn step(pre: MemberState, e: WaitedEvent, post: MemberState, r: TryResult) -> bool {
        let a = pre.action@;
        match e {
            WaitedEvent::LocalEvent(LocalEvent::TimeoutCheckRelocate) => r == TryResult::Handled
                && pre.only_action(
                post,
                a.log(voted(ParsecVote::CheckRelocate)).log(scheduled(LocalEvent::TimeoutCheckRelocate)),
            ),
            WaitedEvent::Rpc(Rpc::RefuseCandidate(c)) => r == TryResult::Handled && pre.only_action(
                post,
                a.log(voted(ParsecVote::RefuseCandidate(c))),
            ),
            WaitedEvent::Rpc(Rpc::RelocateResponse(info)) => r == TryResult::Handled
                && pre.only_action(post, a.log(voted(ParsecVote::RelocateResponse(info)))),
            WaitedEvent::ParsecConsensus(ParsecVote::CheckRelocate) => r == TryResult::Handled
                && Self::check_relocate_step(pre, post),
            WaitedEvent::ParsecConsensus(ParsecVote::RefuseCandidate(c)) => r == TryResult::Handled
                && Self::answer_step(pre, ParsecVote::RefuseCandidate(c), c, post),
            WaitedEvent::ParsecConsensus(ParsecVote::RelocateResponse(info)) => r
                == TryResult::Handled && Self::answer_step(
                pre,
                ParsecVote::RelocateResponse(info),
                info.candidate,
                post,
            ),
            WaitedEvent::ParsecConsensus(ParsecVote::RelocatedInfo(info)) => r == TryResult::Handled
                && pre.only_action(
                post,
                a.log(Event::Rpc(Rpc::RelocatedInfo(info))).purge(info.candidate.0.name),
            ),
            _ => r == TryResult::Unhandled && post == pre,
        }
    }

    pub fn start_event_loop(state: &mut MemberState)
        ensures
            old(state).only_action(
                *final(state),
                old(state).action@.log(scheduled(LocalEvent::TimeoutCheckRelocate)),
            ),
    {
        Self::start_check_relocate_timeout(state);
    }

    pub fn try_next(state: &mut MemberState, event: WaitedEvent) -> (r: TryResult)
        requires
            old(state).wf(),
            Self::accepts(*old(state), event),
        ensures
            final(state).wf(),
            Self::step(*old(state), event, *final(state), r),
    {
        match event {
            WaitedEvent::LocalEvent(local_event) => Self::try_local_event(state, local_event),
            WaitedEvent::Rpc(rpc) => Self::try_rpc(state, rpc),
            WaitedEvent::ParsecConsensus(vote) => Self::try_consensus(state, vote),
        }
    }

    fn try_local_event(state: &mut MemberState, local_event: LocalEvent) -> (r: TryResult)
        requires
            old(state).wf(),
        ensures
            final(state).wf(),
            Self::step(*old(state), WaitedEvent::LocalEvent(local_event), *final(state), r),
    {
        match local_event {
            LocalEvent::TimeoutCheckRelocate => {
                Self::vote_parsec_check_relocate(state);
                Self::start_check_relocate_timeout(state);
                TryResult::Handled
            },
            _ => TryResult::Unhandled,
        }
    }

    fn try_rpc(state: &mut MemberState, rpc: Rpc) -> (r: TryResult)
        requires
            old(state).wf(),
        ensures
            final(state).wf(),
            Self::step(*old(state), WaitedEvent::Rpc(rpc), *final(state), r),
    {
        match rpc {
            Rpc::RefuseCandidate(candidate) => {
                Self::vote_parsec_refuse_candidate(state, candidate);
                TryResult::Handled
            },
            Rpc::RelocateResponse(info) => {
                Self::vote_parsec_relocation_response(state, info);
                TryResult::Handled
            },
            _ => TryResult::Unhandled,
        }
    }

    fn try_consensus(state: &mut MemberState, vote: ParsecVote) -> (r: TryResult)
        requires
            old(state).wf(),
            Self::accepts(*old(state), WaitedEvent::ParsecConsensus(vote)),
        ensures
            final(state).wf(),
            Self::step(*old(state), WaitedEvent::ParsecConsensus(vote), *final(state), r),
    {
        match vote {
            ParsecVote::CheckRelocate => {
                let ghost pre = *state;
                Self::check_need_relocate(state);
                Self::update_wait_and_allow_resend(state);
                assert(Self::check_relocate_step(pre, *state));
                TryResult::Handled
            },
            ParsecVote::RefuseCandidate(candidate) => {
                Self::check_is_our_relocating_node(state, vote, candidate);
                TryResult::Handled
            },
            ParsecVote::RelocateResponse(info) => {
                Self::check_is_our_relocating_node(state, vote, info.candidate);
                TryResult::Handled
            },
            ParsecVote::RelocatedInfo(info) => {
                Self::send_candidate_relocated_info_rpc(state, info);
                Self::purge_node_info(state, info);
                TryResult::Handled
            },
            _ => TryResult::Unhandled,
        }
    }

    fn check_need_relocate(state: &mut MemberState)
        requires
            old(state).wf(),
        ensures
            final(state).action@.wf(),
            forall|i: int| 0 <= i < final(state).start_relocate_src@.len() ==> 0 <= #[trigger] final(state).start_relocate_src@[i].1 < 3,
            forall|i: int, j: int|
                0 <= i < j < final(state).start_relocate_src@.len() ==> final(state).start_relocate_src@[i].0
                    != final(state).start_relocate_src@[j].0,
            ({
                let a = old(state).action@;
                let already = old(state).start_relocate_src@;
                if exists|i: int| 0 <= i < a.nodes.len() && may_relocate(#[trigger] a.nodes[i], already) {
                    exists|i: int|
                        #[trigger] is_best_to_relocate(a, already, i) && old(state).relocation_changed(
                            *final(state),
                            a.log(Event::Rpc(Rpc::ExpectCandidate(Candidate(a.nodes[i].node.0)))),
                            already.push((Candidate(a.nodes[i].node.0), 0)),
                        )
                } else {
                    *final(state) == *old(state)
                }
            }),
    {
        let ghost a = state.action@;
        let ghost already = state.start_relocate_src@;
        let best = state.action.get_best_relocating_node_and_target(
            &state.start_relocate_src.already_relocating,
        );
        match best {
            Some((candidate, _)) => {
                proof {
                    let i = choose|i: int|
                        0 <= i < a.nodes.len() && may_relocate(#[trigger] a.nodes[i], already)
                            && candidate == Candidate(a.nodes[i].node.0) && forall|j: int|
                            0 <= j < a.nodes.len() && may_relocate(a.nodes[j], already) ==> !lex_lt(
                            relocation_key(a.nodes[i]),
                            relocation_key(a.nodes[j]),
                        );
                    assert(is_best_to_relocate(a, already, i));
                    assert(!crate::actions::relocating_key_of(already, candidate));
                }
                state.action.send_rpc(Rpc::ExpectCandidate(candidate));
                state.start_relocate_src.already_relocating.push((candidate, 0));
            },
            None => {},
        }
    }

    fn update_wait_and_allow_resend(state: &mut MemberState)
        requires
            forall|i: int| 0 <= i < old(state).start_relocate_src@.len() ==> 0 <= #[trigger] old(state).start_relocate_src@[i].1 < 3,
            forall|i: int, j: int|
                0 <= i < j < old(state).start_relocate_src@.len() ==> old(state).start_relocate_src@[i].0
                    != old(state).start_relocate_src@[j].0,
        ensures
            old(state).relocation_changed(
                *final(state),
                old(state).action@,
                aged(old(state).start_relocate_src@),
            ),
            relocating_wf(final(state).start_relocate_src@),
    {
        let ghost s = state.start_relocate_src@;
        let ghost m = s.map_values(|p: (Candidate, i32)| (p.0, (p.1 + 1) as i32));
        let mut r: Vec<(Candidate, i32)> = Vec::new();
        let mut i: usize = 0;
        while i < state.start_relocate_src.already_relocating.len()
            invariant
                s == state.start_relocate_src@,
                m == s.map_values(|p: (Candidate, i32)| (p.0, (p.1 + 1) as i32)),
                forall|j: int| 0 <= j < s.len() ==> 0 <= #[trigger] s[j].1 < 3,
                forall|j: int, l: int| 0 <= j < l < s.len() ==> s[j].0 != s[l].0,
                0 <= i <= s.len(),
                r@ == m.take(i as int).filter(below_resend_bound()),
                relocating_wf(r@),
                forall|j: int| 0 <= j < r@.len() ==> exists|q: int| 0 <= q < i && #[trigger] r@[j].0 == s[q].0,
            decreases s.len() - i,
        {
            proof {
                reveal(Seq::filter);
                assert(m.take(i + 1).drop_last() =~= m.take(i as int));
            }
            let (node, count) = state.start_relocate_src.already_relocating[i];
            if count + 1 < 3 {
                proof {
                    assert forall|j: int| 0 <= j < r@.len() implies r@[j].0 != node by {
                        let q = choose|q: int| 0 <= q < i && #[trigger] r@[j].0 == s[q].0;
                        assert(s[q].0 != s[i as int].0);
                    }
                }
                r.push((node, count + 1));
                proof {
                    assert forall|j: int| 0 <= j < r@.len() implies exists|q: int|
                        0 <= q < i + 1 && #[trigger] r@[j].0 == s[q].0 by {
                        if j < r@.len() - 1 {
                            let q = choose|q: int| 0 <= q < i && #[trigger] r@[j].0 == s[q].0;
                            assert(0 <= q < i + 1 && r@[j].0 == s[q].0);
                        } else {
                            assert(r@[j].0 == s[i as int].0);
                        }
                    }
                }
            }
            i = i + 1;
        }
        assert(m.take(i as int) =~= m);
        state.start_relocate_src.already_relocating = r;
    }

    fn check_is_our_relocating_node(state: &mut MemberState, vote: ParsecVote, candidate: Candidate)
        requires
            old(state).wf(),
            vote == ParsecVote::RefuseCandidate(candidate) || (vote is RelocateResponse
                && vote->RelocateResponse_0.candidate == candidate),
        ensures
            final(state).wf(),
            Self::answer_step(*old(state), vote, candidate, *final(state)),
    {
        if state.action.is_our_relocating_node(candidate) {
            match vote {
                ParsecVote::RefuseCandidate(candidate) => Self::allow_resend(state, candidate),
                ParsecVote::RelocateResponse(info) => Self::set_relocated_and_prepare_info(state, info),
                _ => {},
            }
        } else {
            Self::discard(state);
        }
    }

    /// Forgets that `candidate` was sent away, so that it is sent again on the
    /// next check.
    fn allow_resend(state: &mut MemberState, candidate: Candidate)
        requires
            old(state).wf(),
        ensures
            final(state).wf(),
            old(state).relocation_changed(
                *final(state),
                old(state).action@,
                old(state).start_relocate_src@.filter(not_candidate(candidate)),
            ),
    {
        let ghost s = state.start_relocate_src@;
        let mut r: Vec<(Candidate, i32)> = Vec::new();
        let mut i: usize = 0;
        while i < state.start_relocate_src.already_relocating.len()
            invariant
                s == state.start_relocate_src@,
                relocating_wf(s),
                0 <= i <= s.len(),
                r@ == s.take(i as int).filter(not_candidate(candidate)),
                relocating_wf(r@),
                forall|j: int| 0 <= j < r@.len() ==> exists|q: int| 0 <= q < i && #[trigger] r@[j].0 == s[q].0,
            decreases s.len() - i,
        {
            proof {
                reveal(Seq::filter);
                assert(s.take(i + 1).drop_last() =~= s.take(i as int));
            }
            let entry = state.start_relocate_src.already_relocating[i];
            if entry.0 != candidate {
                proof {
                    assert forall|j: int| 0 <= j < r@.len() implies r@[j].0 != entry.0 by {
                        let q = choose|q: int| 0 <= q < i && #[trigger] r@[j].0 == s[q].0;
                        assert(s[q].0 != s[i as int].0);
                    }
                }
                r.push(entry);
                proof {
                    assert forall|j: int| 0 <= j < r@.len() implies exists|q: int|
                        0 <= q < i + 1 && #[trigger] r@[j].0 == s[q].0 by {
                        if j < r@.len() - 1 {
                            let q = choose|q: int| 0 <= q < i && #[trigger] r@[j].0 == s[q].0;
                            assert(0 <= q < i + 1 && r@[j].0 == s[q].0);
                        } else {
                            assert(r@[j].0 == s[i as int].0);
                        }
                    }
                }
            }
            i = i + 1;
        }
        assert(s.take(i as int) =~= s);
        state.start_relocate_src.already_relocating = r;
    }

    fn set_relocated_and_prepare_info(state: &mut MemberState, info: RelocatedInfo)
        requires
            old(state).wf(),
            has_row(old(state).action@.nodes, info.candidate.0.name),
        ensures
            final(state).wf(),
            old(state).only_action(
                *final(state),
                old(state).action@.set_state(info.candidate.0.name, State::Relocated(info)).log(
                    voted(ParsecVote::RelocatedInfo(info)),
                ),
            ),
    {
        state.action.set_candidate_relocated_state(info);
        state.action.vote_parsec(ParsecVote::RelocatedInfo(info));
    }

    fn start_check_relocate_timeout(state: &mut MemberState)
        ensures
            old(state).only_action(
                *final(state),
                old(state).action@.log(scheduled(LocalEvent::TimeoutCheckRelocate)),
            ),
    {
        state.action.schedule_event(LocalEvent::TimeoutCheckRelocate);
    }

    fn purge_node_info(state: &mut MemberState, info: RelocatedInfo)
        requires
            old(state).wf(),
            has_row(old(state).action@.nodes, info.candidate.0.name),
        ensures
            final(state).wf(),
            old(state).only_action(*final(state), old(state).action@.purge(info.candidate.0.name)),
    {
        state.action.purge_node_info(info.candidate.name());
    }

    /// An answer about a node we are not relocating is stale: it is dropped.
    fn discard(state: &mut MemberState)
        ensures
            *final(state) == *old(state),
    {
    }

    fn send_candidate_relocated_info_rpc(state: &mut MemberState, info: RelocatedInfo)
        ensures
            old(state).only_action(
                *final(state),
                old(state).action@.log(Event::Rpc(Rpc::RelocatedInfo(info))),
            ),
    {
        state.action.send_rpc(Rpc::RelocatedInfo(info));
    }

    fn vote_parsec_check_relocate(state: &mut MemberState)
        ensures
            old(state).only_action(*final(state), old(state).action@.log(voted(ParsecVote::CheckRelocate))),
    {
        state.action.vote_parsec(ParsecVote::CheckRelocate);
    }

    fn vote_parsec_refuse_candidate(state: &mut MemberState, candidate: Candidate)
        ensures
            old(state).only_action(
                *final(state),
                old(state).action@.log(voted(ParsecVote::RefuseCandidate(candidate))),
            ),
    {
        state.action.vote_parsec(ParsecVote::RefuseCandidate(candidate));
    }

    fn vote_parsec_relocation_response(state: &mut MemberState, info: RelocatedInfo)
        ensures
            old(state).only_action(
                *final(state),
                old(state).action@.log(voted(ParsecVote::RelocateResponse(info))),
            ),
    {
        state.action.vote_parsec(ParsecVote::RelocateResponse(info));
    }
}

} // verus!
