//! The destination side of relocation: answering requests to take a node in,
//! and admitting the candidate through a resource proof.
use crate::actions::{ActionModel, waits_for};
use crate::flows_elder::{scheduled, voted};
use crate::state::{MemberState, StartResourceProofState};
use crate::table::{count_not_yet_full, has_row, row};
use crate::utilities::{
    Candidate, CandidateInfo, Event, GenesisPfxInfo, LocalEvent, Name, ParsecVote, Proof,
    ProofRequest, RelocatedInfo, Rpc, TryResult, WaitedEvent,
};
use vstd::prelude::*;

verus! {

/// Answers requests to take a relocating node in.
pub struct RespondToRelocateRequests;

impl RespondToRelocateRequests {
    pub open spec fn no_ticket_for(a: ActionModel, c: Candidate) -> bool {
        forall|i: int| 0 <= i < a.nodes.len() ==> !waits_for(#[trigger] a.nodes[i], c)
    }

    /// Whether an agreed request for `c` leads to admitting it here.
    pub open spec fn admits(a: ActionModel, c: Candidate) -> bool {
        a.shortest_prefix is None && Self::no_ticket_for(a, c) && count_not_yet_full(a.nodes) == 0
    }

    pub open spec fn accepts(pre: MemberState, e: WaitedEvent) -> bool {
        match e {
            WaitedEvent::ParsecConsensus(ParsecVote::ExpectCandidate(c)) => Self::admits(pre.action@, c)
                ==> pre.action@.can_admit(c),
            _ => true,
        }
    }

    /// The outcome of an agreed request for `c`: send it on when a section
    /// with a shorter prefix exists; else send again the ticket it holds;
    /// else admit it when no other candidate is joining; else refuse it.
    pub open spec fn expect_step(pre: MemberState, c: Candidate, post: MemberState) -> bool {
        let a = pre.action@;
        if a.shortest_prefix is Some {
            pre.only_action(post, a.log(Event::Rpc(Rpc::ExpectCandidate(c))))
        } else if !Self::no_ticket_for(a, c) {
            exists|i: int|
                0 <= i < a.nodes.len() && waits_for(#[trigger] a.nodes[i], c) && (forall|j: int|
                    0 <= j < i ==> !waits_for(a.nodes[j], c)) && pre.only_action(
                    post,
                    a.log(
                        Event::Rpc(Rpc::RelocateResponse(a.nodes[i].state->WaitingCandidateInfo_0)),
                    ),
                )
        } else if count_not_yet_full(a.nodes) == 0 {
            pre.only_action(
                post,
                a.accept_candidate(c).log(Event::Rpc(Rpc::RelocateResponse(a.next_ticket(c)))),
            )
        } else {
            pre.only_action(post, a.log(Event::Rpc(Rpc::RefuseCandidate(c))))
        }
    }

    pub open spec fn step(pre: MemberState, e: WaitedEvent, post: MemberState, r: TryResult) -> bool {
        match e {
            WaitedEvent::Rpc(Rpc::ExpectCandidate(c)) => r == TryResult::Handled && pre.only_action(
                post,
                pre.action@.log(voted(ParsecVote::ExpectCandidate(c))),
            ),
            WaitedEvent::ParsecConsensus(ParsecVote::ExpectCandidate(c)) => r == TryResult::Handled
                && Self::expect_step(pre, c, post),
            _ => r == TryResult::Unhandled && post == pre,
        }
    }

    pub fn try_next(state: &mut MemberState, event: WaitedEvent) -> (r: TryResult)
        requires
            old(state).wf(),
            Self::accepts(*old(state), event),
        ensures
            final(state).wf(),
            Self::step(*old(state), event, *final(state), r),
    {
        match event {
            WaitedEvent::Rpc(rpc) => Self::try_rpc(state, rpc),
            WaitedEvent::ParsecConsensus(vote) => Self::try_consensus(state, vote),
            _ => TryResult::Unhandled,
        }
    }

    fn try_rpc(state: &mut MemberState, rpc: Rpc) -> (r: TryResult)
        ensures
            Self::step(*old(state), WaitedEvent::Rpc(rpc), *final(state), r),
    {
        match rpc {
            Rpc::ExpectCandidate(candidate) => {
                Self::vote_parsec_expect_candidate(state, candidate);
                TryResult::Handled
            },
            _ => TryResult::Unhandled,
        }
    }

    fn try_consensus(state: &mut MemberState, vote: ParsecVote) -> (r: TryResult)
        requires
            old(state).wf(),
            Self::accepts(*old(state), WaitedEvent::ParsecConsensus(vote)),
        ensures
            final(state).wf(),
            Self::step(*old(state), WaitedEvent::ParsecConsensus(vote), *final(state), r),
    {
        match vote {
            ParsecVote::ExpectCandidate(candidate) => {
                Self::consensused_expect_candidate(state, candidate);
                TryResult::Handled
            },
            _ => TryResult::Unhandled,
        }
    }

    fn consensused_expect_candidate(state: &mut MemberState, candidate: Candidate)
        requires
            old(state).wf(),
            Self::admits(old(state).action@, candidate) ==> old(state).action@.can_admit(candidate),
        ensures
            final(state).wf(),
            Self::expect_step(*old(state), candidate, *final(state)),
    {
        if state.action.check_shortest_prefix().is_some() {
            Self::send_expect_candidate_rpc(state, candidate);
            return;
        }
        match state.action.get_waiting_candidate_info(candidate) {
            Some(info) => {
                Self::resend_relocate_response_rpc(state, info);
                return;
            },
            None => {},
        }
        if state.action.count_waiting_proofing_or_hop() == 0 {
            Self::add_node_and_send_relocate_response_rpc(state, candidate);
            return;
        }
        Self::send_refuse_candidate_rpc(state, candidate);
    }

    fn add_node_and_send_relocate_response_rpc(state: &mut MemberState, candidate: Candidate)
        requires
            old(state).wf(),
            old(state).action@.can_admit(candidate),
        ensures
            final(state).wf(),
            old(state).only_action(
                *final(state),
                old(state).action@.accept_candidate(candidate).log(
                    Event::Rpc(Rpc::RelocateResponse(old(state).action@.next_ticket(candidate))),
                ),
            ),
    {
        let relocated_info = state.action.add_node_waiting_candidate_info(candidate);
        state.action.send_relocate_response_rpc(relocated_info);
    }

    fn resend_relocate_response_rpc(state: &mut MemberState, relocated_info: RelocatedInfo)
        ensures
            old(state).only_action(
                *final(state),
                old(state).action@.log(Event::Rpc(Rpc::RelocateResponse(relocated_info))),
            ),
    {
        state.action.send_relocate_response_rpc(relocated_info);
    }

    fn send_refuse_candidate_rpc(state: &mut MemberState, candidate: Candidate)
        ensures
            old(state).only_action(
                *final(state),
                old(state).action@.log(Event::Rpc(Rpc::RefuseCandidate(candidate))),
            ),
    {
        state.action.send_rpc(Rpc::RefuseCandidate(candidate));
    }

    /// Sends the candidate on, towards a section with a shorter prefix.
    fn send_expect_candidate_rpc(state: &mut MemberState, candidate: Candidate)
        ensures
            old(state).only_action(
                *final(state),
                old(state).action@.log(Event::Rpc(Rpc::ExpectCandidate(candidate))),
            ),
    {
        state.action.send_rpc(Rpc::ExpectCandidate(candidate));
    }

    fn vote_parsec_expect_candidate(state: &mut MemberState, candidate: Candidate)
        ensures
            old(state).only_action(
                *final(state),
                old(state).action@.log(voted(ParsecVote::ExpectCandidate(candidate))),
            ),
    {
        state.action.vote_parsec(ParsecVote::ExpectCandidate(candidate));
    }
}

pub open spec fn no_admission() -> StartResourceProofState {
    StartResourceProofState { candidate_info: None, candidate: None, voted_online: false }
}

/// Admits one candidate at a time: waits for its info, challenges it with a
/// resource proof, and votes it online once the proof is complete.
pub struct StartResourceProof;

impl StartResourceProof {
    /// Whether `candidate` is the new identity of the candidate whose info we hold.
    pub open spec fn from_candidate(pre: MemberState, candidate: Candidate) -> bool {
        pre.start_resource_proof.candidate_info is Some
            && candidate == pre.start_resource_proof.candidate_info->0.new_public_id
    }

    pub open spec fn new_candidate(pre: MemberState) -> Candidate {
        pre.start_resource_proof.candidate_info->0.new_public_id
    }

    pub open spec fn accepts(pre: MemberState, e: WaitedEvent) -> bool {
        let a = pre.action@;
        match e {
            WaitedEvent::Rpc(Rpc::ResourceProofResponse { candidate, proof, .. }) => (
            Self::from_candidate(pre, candidate) && !pre.start_resource_proof.voted_online && proof
                == Proof::ValidEnd) ==> pre.has_candidate(),
            WaitedEvent::ParsecConsensus(ParsecVote::Online(old_id, new_id)) => pre.for_candidate(
                ParsecVote::Online(old_id, new_id),
            ) ==> a.can_make_online(pre.waiting_name(), new_id),
            WaitedEvent::ParsecConsensus(ParsecVote::PurgeCandidate(old_id)) => pre.for_candidate(
                ParsecVote::PurgeCandidate(old_id),
            ) ==> has_row(a.nodes, pre.waiting_name()),
            _ => true,
        }
    }

    /// The outcome of a proof part from `candidate`: only the current
    /// candidate's valid parts count, until it was voted online; each is
    /// acknowledged, and the last one leads to the vote.
    pub open spec fn proof_step(pre: MemberState, candidate: Candidate, proof: Proof, post: MemberState) -> bool {
        let a = pre.action@;
        let receipt = Event::Rpc(Rpc::ResourceProofReceipt { candidate, source: a.our_name() });
        if Self::from_candidate(pre, candidate) && !pre.start_resource_proof.voted_online
            && !(proof is Invalid) {
            if proof == Proof::ValidEnd {
                pre.admission_changed(
                    post,
                    a.log(voted(ParsecVote::Online(pre.current_candidate(), candidate))).log(receipt),
                    StartResourceProofState { voted_online: true, ..pre.start_resource_proof },
                )
            } else {
                pre.only_action(post, a.log(receipt))
            }
        } else {
            post == pre
        }
    }

    /// The outcome of a candidate's info: kept, and answered with a proof
    /// request, when it is the current candidate's and valid.
    pub open spec fn info_step(pre: MemberState, info: CandidateInfo, post: MemberState) -> bool {
        let a = pre.action@;
        if pre.has_candidate() && pre.current_candidate() == info.old_public_id && info.valid
            && has_row(a.nodes, info.destination) && row(
            a.nodes,
            info.destination,
        ).state is WaitingCandidateInfo {
            pre.admission_changed(
                post,
                a.log(
                    Event::Rpc(
                        Rpc::ResourceProof {
                            candidate: info.new_public_id,
                            source: a.our_name(),
                            proof: ProofRequest { value: a.our_name().0 },
                        },
                    ),
                ),
                StartResourceProofState { candidate_info: Some(info), ..pre.start_resource_proof },
            )
        } else {
            post == pre
        }
    }

    /// The outcome of a `CheckResourceProof` consensus: the first row, by
    /// name, that awaits a candidate becomes the current candidate, with a
    /// timeout; with none, the check is scheduled again.
    pub open spec fn check_step(pre: MemberState, post: MemberState) -> bool {
        let a = pre.action@;
        if exists|i: int| 0 <= i < a.nodes.len() && (#[trigger] a.nodes[i]).state is WaitingCandidateInfo {
            exists|i: int|
                0 <= i < a.nodes.len() && (#[trigger] a.nodes[i]).state is WaitingCandidateInfo && (
                forall|j: int| 0 <= j < i ==> !(a.nodes[j].state is WaitingCandidateInfo))
                    && pre.admission_changed(
                    post,
                    a.log(scheduled(LocalEvent::TimeoutAccept)),
                    StartResourceProofState {
                        candidate: Some(
                            (a.nodes[i].node.0.name, a.nodes[i].state->WaitingCandidateInfo_0.candidate),
                        ),
                        ..pre.start_resource_proof
                    },
                )
        } else {
            pre.admission_changed(
                post,
                a.log(scheduled(LocalEvent::CheckResourceProofTimeout)),
                no_admission(),
            )
        }
    }

    pub open spec fn step(pre: MemberState, e: WaitedEvent, post: MemberState, r: TryResult) -> bool {
        let a = pre.action@;
        match e {
            WaitedEvent::Rpc(Rpc::ResourceProofResponse { candidate, proof, .. }) => r
                == TryResult::Handled && Self::proof_step(pre, candidate, proof, post),
            WaitedEvent::Rpc(Rpc::CandidateInfo(info)) => r == TryResult::Handled && Self::info_step(
                pre,
                info,
                post,
            ),
            WaitedEvent::ParsecConsensus(ParsecVote::CheckResourceProof) => r == TryResult::Handled
                && Self::check_step(pre, post),
            WaitedEvent::ParsecConsensus(ParsecVote::Online(old_id, new_id)) => r
                == TryResult::Handled && if pre.for_candidate(ParsecVote::Online(old_id, new_id)) {
                pre.admission_changed(
                    post,
                    a.make_online(pre.waiting_name(), new_id).log(
                        Event::Rpc(Rpc::NodeApproval(new_id, GenesisPfxInfo(a.our_section))),
                    ).log(scheduled(LocalEvent::CheckResourceProofTimeout)),
                    no_admission(),
                )
            } else {
                post == pre
            },
            WaitedEvent::ParsecConsensus(ParsecVote::PurgeCandidate(old_id)) => r
                == TryResult::Handled && if pre.for_candidate(ParsecVote::PurgeCandidate(old_id)) {
                pre.admission_changed(
                    post,
                    a.purge(pre.waiting_name()).log(scheduled(LocalEvent::CheckResourceProofTimeout)),
                    no_admission(),
                )
            } else {
                post == pre
            },
            WaitedEvent::LocalEvent(LocalEvent::TimeoutAccept) => r == TryResult::Handled
                && if pre.has_candidate() {
                pre.only_action(post, a.log(voted(ParsecVote::PurgeCandidate(pre.current_candidate()))))
            } else {
                post == pre
            },
            WaitedEvent::LocalEvent(LocalEvent::CheckResourceProofTimeout) => r
                == TryResult::Handled && pre.only_action(
                post,
                a.log(voted(ParsecVote::CheckResourceProof)),
            ),
            _ => r == TryResult::Unhandled && post == pre,
        }
    }

    pub fn start_event_loop(state: &mut MemberState)
        ensures
            old(state).only_action(
                *final(state),
                old(state).action@.log(scheduled(LocalEvent::CheckResourceProofTimeout)),
            ),
    {
        state.action.schedule_event(LocalEvent::CheckResourceProofTimeout);
    }

    pub fn try_next(state: &mut MemberState, event: WaitedEvent) -> (r: TryResult)
        requires
            old(state).wf(),
            Self::accepts(*old(state), event),
        ensures
            final(state).wf(),
            Self::step(*old(state), event, *final(state), r),
    {
        match event {
            WaitedEvent::Rpc(rpc) => Self::try_rpc(state, rpc),
            WaitedEvent::ParsecConsensus(vote) => Self::try_consensus(state, vote),
            WaitedEvent::LocalEvent(local_event) => Self::try_local_event(state, local_event),
        }
    }

    fn try_rpc(state: &mut MemberState, rpc: Rpc) -> (r: TryResult)
        requires
            old(state).wf(),
            Self::accepts(*old(state), WaitedEvent::Rpc(rpc)),
        ensures
            final(state).wf(),
            Self::step(*old(state), WaitedEvent::Rpc(rpc), *final(state), r),
    {
        match rpc {
            Rpc::ResourceProofResponse { candidate, proof, .. } => {
                Self::rpc_proof(state, candidate, proof);
                TryResult::Handled
            },
            Rpc::CandidateInfo(info) => {
                Self::rpc_info(state, info);
                TryResult::Handled
            },
            _ => TryResult::Unhandled,
        }
    }

    fn try_consensus(state: &mut MemberState, vote: ParsecVote) -> (r: TryResult)
        requires
            old(state).wf(),
            Self::accepts(*old(state), WaitedEvent::ParsecConsensus(vote)),
        ensures
            final(state).wf(),
            Self::step(*old(state), WaitedEvent::ParsecConsensus(vote), *final(state), r),
    {
        let for_candidate = Self::has_candidate(state) && match vote.candidate() {
            Some(c) => c == Self::candidate(state),
            None => false,
        };
        match vote {
            ParsecVote::CheckResourceProof => {
                Self::set_resource_proof_candidate(state);
                Self::check_request_resource_proof(state);
                TryResult::Handled
            },
            ParsecVote::Online(_, new_candidate) => {
                if for_candidate {
                    Self::make_node_online(state, new_candidate);
                } else {
                    Self::discard(state);
                }
                TryResult::Handled
            },
            ParsecVote::PurgeCandidate(_) => {
                if for_candidate {
                    Self::purge_node_info(state);
                } else {
                    Self::discard(state);
                }
                TryResult::Handled
            },
            _ => TryResult::Unhandled,
        }
    }

    fn try_local_event(state: &mut MemberState, local_event: LocalEvent) -> (r: TryResult)
        requires
            old(state).wf(),
            Self::accepts(*old(state), WaitedEvent::LocalEvent(local_event)),
        ensures
            final(state).wf(),
            Self::step(*old(state), WaitedEvent::LocalEvent(local_event), *final(state), r),
    {
        match local_event {
            LocalEvent::TimeoutAccept => {
                // A timeout that outlived its admission is stale: dropped.
                if Self::has_candidate(state) {
                    Self::vote_parsec_purge_candidate(state);
                } else {
                    Self::discard(state);
                }
                TryResult::Handled
            },
            LocalEvent::CheckResourceProofTimeout => {
                Self::vote_parsec_check_resource_proof(state);
                TryResult::Handled
            },
            _ => TryResult::Unhandled,
        }
    }

    fn rpc_info(state: &mut MemberState, info: CandidateInfo)
        requires
            old(state).wf(),
        ensures
            final(state).wf(),
            Self::info_step(*old(state), info, *final(state)),
    {
        if Self::has_candidate(state) && Self::candidate(state) == info.old_public_id
            && state.action.is_valid_waited_info(info) {
            Self::cache_candidate_info_and_send_resource_proof(state, info);
        } else {
            Self::discard(state);
        }
    }

    fn rpc_proof(state: &mut MemberState, candidate: Candidate, proof: Proof)
        requires
            old(state).wf(),
            (Self::from_candidate(*old(state), candidate) && !old(state).start_resource_proof.voted_online
                && proof == Proof::ValidEnd) ==> old(state).has_candidate(),
        ensures
            final(state).wf(),
            Self::proof_step(*old(state), candidate, proof, *final(state)),
    {
        let from_candidate = Self::has_candidate_info(state) && candidate == Self::new_candidate_of(
            state,
        );
        if from_candidate && !state.start_resource_proof.voted_online && proof.is_valid() {
            if proof == Proof::ValidEnd {
                Self::set_voted_online(state, true);
                Self::vote_parsec_online_candidate(state);
            }
            Self::send_resource_proof_receipt_rpc(state);
        } else {
            Self::discard(state);
        }
    }

    /// A stale or unexpected message or vote: dropped.
    fn discard(state: &mut MemberState)
        ensures
            *final(state) == *old(state),
    {
    }

    fn set_resource_proof_candidate(state: &mut MemberState)
        ensures
            ({
                let a = old(state).action@;
                let c = final(state).start_resource_proof.candidate;
                &&& c is None ==> forall|i: int|
                    0 <= i < a.nodes.len() ==> !((#[trigger] a.nodes[i]).state is WaitingCandidateInfo)
                &&& c is Some ==> exists|i: int|
                    0 <= i < a.nodes.len() && (#[trigger] a.nodes[i]).state is WaitingCandidateInfo
                        && c->0 == (a.nodes[i].node.0.name, a.nodes[i].state->WaitingCandidateInfo_0.candidate)
                        && forall|j: int| 0 <= j < i ==> !(a.nodes[j].state is WaitingCandidateInfo)
            }),
            old(state).admission_changed(
                *final(state),
                old(state).action@,
                StartResourceProofState {
                    candidate: final(state).start_resource_proof.candidate,
                    ..old(state).start_resource_proof
                },
            ),
    {
        state.start_resource_proof.candidate = state.action.resource_proof_candidate();
    }

    fn set_voted_online(state: &mut MemberState, value: bool)
        ensures
            old(state).admission_changed(
                *final(state),
                old(state).action@,
                StartResourceProofState { voted_online: value, ..old(state).start_resource_proof },
            ),
    {
        state.start_resource_proof.voted_online = value;
    }

    fn vote_parsec_purge_candidate(state: &mut MemberState)
        requires
            old(state).has_candidate(),
        ensures
            old(state).only_action(
                *final(state),
                old(state).action@.log(voted(ParsecVote::PurgeCandidate(old(state).current_candidate()))),
            ),
    {
        let candidate = Self::candidate(state);
        state.action.vote_parsec(ParsecVote::PurgeCandidate(candidate));
    }

    fn vote_parsec_check_resource_proof(state: &mut MemberState)
        ensures
            old(state).only_action(
                *final(state),
                old(state).action@.log(voted(ParsecVote::CheckResourceProof)),
            ),
    {
        state.action.vote_parsec(ParsecVote::CheckResourceProof);
    }

    fn vote_parsec_online_candidate(state: &mut MemberState)
        requires
            old(state).has_candidate(),
            old(state).start_resource_proof.candidate_info is Some,
        ensures
            old(state).only_action(
                *final(state),
                old(state).action@.log(
                    voted(ParsecVote::Online(old(state).current_candidate(), Self::new_candidate(*old(state)))),
                ),
            ),
    {
        let candidate = Self::candidate(state);
        let new_candidate = Self::new_candidate_of(state);
        state.action.vote_parsec(ParsecVote::Online(candidate, new_candidate));
    }

    fn make_node_online(state: &mut MemberState, new_public_id: Candidate)
        requires
            old(state).wf(),
            old(state).has_candidate(),
            old(state).action@.can_make_online(old(state).waiting_name(), new_public_id),
        ensures
            final(state).wf(),
            old(state).admission_changed(
                *final(state),
                old(state).action@.make_online(old(state).waiting_name(), new_public_id).log(
                    Event::Rpc(Rpc::NodeApproval(new_public_id, GenesisPfxInfo(old(state).action@.our_section))),
                ).log(scheduled(LocalEvent::CheckResourceProofTimeout)),
                no_admission(),
            ),
    {
        let name = Self::waiting_candidate_name(state);
        state.action.set_candidate_online_state(name, new_public_id);
        state.action.send_node_approval_rpc(new_public_id);
        Self::finish_resource_proof(state);
    }

    fn purge_node_info(state: &mut MemberState)
        requires
            old(state).wf(),
            old(state).has_candidate(),
            has_row(old(state).action@.nodes, old(state).waiting_name()),
        ensures
            final(state).wf(),
            old(state).admission_changed(
                *final(state),
                old(state).action@.purge(old(state).waiting_name()).log(
                    scheduled(LocalEvent::CheckResourceProofTimeout),
                ),
                no_admission(),
            ),
    {
        let name = Self::waiting_candidate_name(state);
        state.action.purge_node_info(name);
        Self::finish_resource_proof(state);
    }

    /// Ends the admission in progress and schedules the next check.
    fn finish_resource_proof(state: &mut MemberState)
        ensures
            old(state).admission_changed(
                *final(state),
                old(state).action@.log(scheduled(LocalEvent::CheckResourceProofTimeout)),
                no_admission(),
            ),
    {
        state.start_resource_proof.candidate = None;
        state.start_resource_proof.candidate_info = None;
        state.start_resource_proof.voted_online = false;
        state.action.schedule_event(LocalEvent::CheckResourceProofTimeout);
    }

    fn check_request_resource_proof(state: &mut MemberState)
        ensures
            old(state).has_candidate() ==> old(state).only_action(
                *final(state),
                old(state).action@.log(scheduled(LocalEvent::TimeoutAccept)),
            ),
            !old(state).has_candidate() ==> old(state).admission_changed(
                *final(state),
                old(state).action@.log(scheduled(LocalEvent::CheckResourceProofTimeout)),
                no_admission(),
            ),
    {
        if Self::has_candidate(state) {
            Self::schedule_proof_timeout(state);
        } else {
            Self::finish_resource_proof(state);
        }
    }

    fn schedule_proof_timeout(state: &mut MemberState)
        ensures
            old(state).only_action(
                *final(state),
                old(state).action@.log(scheduled(LocalEvent::TimeoutAccept)),
            ),
    {
        state.action.schedule_event(LocalEvent::TimeoutAccept);
    }

    fn send_resource_proof_receipt_rpc(state: &mut MemberState)
        requires
            old(state).start_resource_proof.candidate_info is Some,
        ensures
            old(state).only_action(
                *final(state),
                old(state).action@.log(
                    Event::Rpc(
                        Rpc::ResourceProofReceipt {
                            candidate: Self::new_candidate(*old(state)),
                            source: old(state).action@.our_name(),
                        },
                    ),
                ),
            ),
    {
        let candidate = Self::new_candidate_of(state);
        state.action.send_candidate_proof_receipt(candidate);
    }

    fn candidate(state: &MemberState) -> (r: Candidate)
        requires
            state.has_candidate(),
        ensures
            r == state.current_candidate(),
    {
        match state.start_resource_proof.candidate {
            Some((_, candidate)) => candidate,
            None => Candidate(state.action.0.our_attributes),
        }
    }

    fn waiting_candidate_name(state: &MemberState) -> (r: Name)
        requires
            state.has_candidate(),
        ensures
            r == state.waiting_name(),
    {
        match state.start_resource_proof.candidate {
            Some((name, _)) => name,
            None => state.action.0.our_attributes.name,
        }
    }

    fn has_candidate(state: &MemberState) -> (r: bool)
        ensures
            r == state.has_candidate(),
    {
        state.start_resource_proof.candidate.is_some()
    }

    fn has_candidate_info(state: &MemberState) -> (r: bool)
        ensures
            r == state.start_resource_proof.candidate_info is Some,
    {
        state.start_resource_proof.candidate_info.is_some()
    }

    fn new_candidate_of(state: &MemberState) -> (r: Candidate)
        requires
            state.start_resource_proof.candidate_info is Some,
        ensures
            r == Self::new_candidate(*state),
    {
        match state.start_resource_proof.candidate_info {
            Some(info) => info.new_public_id,
            None => Candidate(state.action.0.our_attributes),
        }
    }

    fn cache_candidate_info_and_send_resource_proof(state: &mut MemberState, info: CandidateInfo)
        ensures
            old(state).admission_changed(
                *final(state),
                old(state).action@.log(
                    Event::Rpc(
                        Rpc::ResourceProof {
                            candidate: info.new_public_id,
                            source: old(state).action@.our_name(),
                            proof: ProofRequest { value: old(state).action@.our_name().0 },
                        },
                    ),
                ),
                StartResourceProofState { candidate_info: Some(info), ..old(state).start_resource_proof },
            ),
    {
        state.start_resource_proof.candidate_info = Some(info);
        state.action.send_candidate_proof_request(info.new_public_id);
    }
}

} // verus!
