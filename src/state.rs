//! The two top-level machines and the persistent state of their flows.
use crate::actions::{Action, ActionModel};
use crate::utilities::{
    Candidate, CandidateInfo, ChangeElder, Event, GenesisPfxInfo, Name, Node, ParsecVote,
    RelocatedInfo, SectionInfo,
};
use vstd::prelude::*;

verus! {

#[derive(Debug, PartialEq, Clone)]
pub struct ProcessElderChangeState {
    pub is_active: bool,
    pub wait_votes: Vec<ParsecVote>,
    pub change_elder: Option<ChangeElder>,
}

#[derive(Debug, PartialEq, Clone)]
pub struct ProcessSplitState {
    pub is_active: bool,
    pub wait_votes: Vec<ParsecVote>,
}

#[derive(Debug, PartialEq, Clone)]
pub struct StartMergeSplitAndChangeEldersState {
    pub sub_routine_process_split: ProcessSplitState,
    pub sub_routine_process_elder_change: ProcessElderChangeState,
    pub sub_routine_process_merge_active: bool,
}

/// The elder, merge and split flows' state as mathematical values.
pub struct ElderFlowsModel {
    pub split_active: bool,
    pub split_wait: Seq<ParsecVote>,
    pub elder_active: bool,
    pub elder_wait: Seq<ParsecVote>,
    pub elder_change: Option<(Seq<(Node, bool)>, SectionInfo)>,
    pub merge_active: bool,
}

impl View for StartMergeSplitAndChangeEldersState {
    type V = ElderFlowsModel;

    open spec fn view(&self) -> ElderFlowsModel {
        ElderFlowsModel {
            split_active: self.sub_routine_process_split.is_active,
            split_wait: self.sub_routine_process_split.wait_votes@,
            elder_active: self.sub_routine_process_elder_change.is_active,
            elder_wait: self.sub_routine_process_elder_change.wait_votes@,
            elder_change: match self.sub_routine_process_elder_change.change_elder {
                Some(c) => Some((c.changes@, c.new_section)),
                None => None,
            },
            merge_active: self.sub_routine_process_merge_active,
        }
    }
}

/// The destination's admission in progress: the candidate's waiting row and
/// old identity, the info it sent, and whether we voted it online.
#[derive(Debug, PartialEq, Clone, Copy)]
pub struct StartResourceProofState {
    pub candidate_info: Option<CandidateInfo>,
    pub candidate: Option<(Name, Candidate)>,
    pub voted_online: bool,
}

/// The nodes we sent away, each with the number of checks since.
#[derive(Debug, PartialEq, Clone)]
pub struct StartRelocateSrcState {
    pub already_relocating: Vec<(Candidate, i32)>,
}

impl View for StartRelocateSrcState {
    type V = Seq<(Candidate, i32)>;

    open spec fn view(&self) -> Seq<(Candidate, i32)> {
        self.already_relocating@
    }
}

/// The votes that elder changes, merges and splits wait for.
pub open spec fn is_section_vote(v: ParsecVote) -> bool {
    v is AddElderNode || v is RemoveElderNode || v is NewSectionInfo
}

/// One entry per node, each count below the resend bound.
pub open spec fn relocating_wf(already: Seq<(Candidate, i32)>) -> bool {
    &&& forall|i: int| 0 <= i < already.len() ==> 0 <= #[trigger] already[i].1 < 3
    &&& forall|i: int, j: int| 0 <= i < j < already.len() ==> already[i].0 != already[j].0
}

/// A node that is already a section member.
#[derive(PartialEq, Clone, Debug)]
pub struct MemberState {
    pub action: Action,
    pub failure: Option<Event>,
    pub start_resource_proof: StartResourceProofState,
    pub start_relocate_src: StartRelocateSrcState,
    pub start_merge_split_and_change_elders: StartMergeSplitAndChangeEldersState,
}

impl Default for MemberState {
    fn default() -> (r: MemberState)
        ensures
            r.wf(),
            r.action@ == crate::actions::default_action_model(),
            r.failure is None,
            r.start_resource_proof == (StartResourceProofState {
                candidate_info: None,
                candidate: None,
                voted_online: false,
            }),
            r.start_relocate_src@ == Seq::<(Candidate, i32)>::empty(),
            !r.start_merge_split_and_change_elders@.split_active,
            !r.start_merge_split_and_change_elders@.elder_active,
            !r.start_merge_split_and_change_elders@.merge_active,
    {
        MemberState {
            action: Action::default(),
            failure: None,
            start_resource_proof: StartResourceProofState {
                candidate_info: None,
                candidate: None,
                voted_online: false,
            },
            start_relocate_src: StartRelocateSrcState { already_relocating: Vec::new() },
            start_merge_split_and_change_elders: StartMergeSplitAndChangeEldersState {
                sub_routine_process_split: ProcessSplitState {
                    is_active: false,
                    wait_votes: Vec::new(),
                },
                sub_routine_process_elder_change: ProcessElderChangeState {
                    is_active: false,
                    wait_votes: Vec::new(),
                    change_elder: None,
                },
                sub_routine_process_merge_active: false,
            },
        }
    }
}

impl MemberState {
    /// What holds of a member's state between any two events.
    pub open spec fn wf(&self) -> bool {
        let m = self.start_merge_split_and_change_elders@;
        let a = self.action@;
        &&& a.wf()
        &&& relocating_wf(self.start_relocate_src@)
        &&& m.elder_active ==> m.elder_change is Some
        &&& m.elder_change is Some ==> a.our_section.1 < i32::MAX && (m.elder_change->0).1
            == SectionInfo(a.our_section.0, (a.our_section.1 + 1) as i32)
        &&& forall|i: int| 0 <= i < m.split_wait.len() ==> is_section_vote(#[trigger] m.split_wait[i])
        &&& forall|i: int| 0 <= i < m.elder_wait.len() ==> is_section_vote(#[trigger] m.elder_wait[i])
    }

    /// `post` is `self` with only the action changed, to `a`.
    pub open spec fn only_action(&self, post: MemberState, a: ActionModel) -> bool {
        &&& post.action@ == a
        &&& post.failure == self.failure
        &&& post.start_resource_proof == self.start_resource_proof
        &&& post.start_relocate_src@ == self.start_relocate_src@
        &&& post.start_merge_split_and_change_elders@ == self.start_merge_split_and_change_elders@
    }

    /// `post` is `self` with the action changed to `a` and the elder flows
    /// to `m`.
    pub open spec fn elder_flows_changed(
        &self,
        post: MemberState,
        a: ActionModel,
        m: ElderFlowsModel,
    ) -> bool {
        &&& post.action@ == a
        &&& post.failure == self.failure
        &&& post.start_resource_proof == self.start_resource_proof
        &&& post.start_relocate_src@ == self.start_relocate_src@
        &&& post.start_merge_split_and_change_elders@ == m
    }

    /// `post` is `self` with the action changed to `a` and the nodes being
    /// relocated to `already`.
    pub open spec fn relocation_changed(
        &self,
        post: MemberState,
        a: ActionModel,
        already: Seq<(Candidate, i32)>,
    ) -> bool {
        &&& post.action@ == a
        &&& post.failure == self.failure
        &&& post.start_resource_proof == self.start_resource_proof
        &&& post.start_relocate_src@ == already
        &&& post.start_merge_split_and_change_elders@ == self.start_merge_split_and_change_elders@
    }

    /// `post` is `self` with the action changed to `a` and the admission in
    /// progress to `admission`.
    pub open spec fn admission_changed(
        &self,
        post: MemberState,
        a: ActionModel,
        admission: StartResourceProofState,
    ) -> bool {
        &&& post.action@ == a
        &&& post.failure == self.failure
        &&& post.start_resource_proof == admission
        &&& post.start_relocate_src@ == self.start_relocate_src@
        &&& post.start_merge_split_and_change_elders@ == self.start_merge_split_and_change_elders@
    }

    pub open spec fn has_candidate(&self) -> bool {
        self.start_resource_proof.candidate is Some
    }

    /// The old identity of the candidate being admitted.
    pub open spec fn current_candidate(&self) -> Candidate {
        (self.start_resource_proof.candidate->0).1
    }

    /// The name of the row that awaits the candidate being admitted.
    pub open spec fn waiting_name(&self) -> Name {
        (self.start_resource_proof.candidate->0).0
    }

    /// Whether a vote is about the candidate being admitted.
    pub open spec fn for_candidate(&self, vote: ParsecVote) -> bool {
        self.has_candidate() && vote.spec_candidate() == Some(self.current_candidate())
    }

    pub fn failure_event(&mut self, event: Event)
        ensures
            final(self).failure == Some(event),
            final(self).action == old(self).action,
            final(self).start_resource_proof == old(self).start_resource_proof,
            final(self).start_relocate_src == old(self).start_relocate_src,
            final(self).start_merge_split_and_change_elders == old(
                self,
            ).start_merge_split_and_change_elders,
    {
        self.failure = Some(event);
    }
}

/// A relocated node working to join its destination.
#[derive(Debug, PartialEq, Clone)]
pub struct JoiningRelocateCandidateState {
    pub relocated_info: Option<RelocatedInfo>,
    pub connected: bool,
    pub need_resend_proofs: Vec<Name>,
    pub routine_complete_output: Option<GenesisPfxInfo>,
}

#[derive(Debug, PartialEq, Clone)]
pub struct JoiningState {
    pub action: Action,
    pub failure: Option<Event>,
    pub join_routine: JoiningRelocateCandidateState,
}

impl Default for JoiningState {
    fn default() -> (r: JoiningState)
        ensures
            r.action@.wf(),
            r.action@ == crate::actions::default_action_model(),
            r.failure is None,
            r.join_routine.relocated_info is None,
            r.join_routine.routine_complete_output is None,
    {
        JoiningState {
            action: Action::default(),
            failure: None,
            join_routine: JoiningRelocateCandidateState {
                relocated_info: None,
                connected: false,
                need_resend_proofs: Vec::new(),
                routine_complete_output: None,
            },
        }
    }
}

impl JoiningState {
    pub fn failure_event(&mut self, event: Event)
        ensures
            final(self).failure == Some(event),
            final(self).action == old(self).action,
            final(self).join_routine == old(self).join_routine,
    {
        self.failure = Some(event);
    }
}

} // verus!

verus! {

use crate::flows_dst::{RespondToRelocateRequests, StartResourceProof};
use crate::flows_elder::{
    CheckOnlineOffline, ProcessElderChange, ProcessMerge, ProcessSplit,
    StartMergeSplitAndChangeElders,
};
use crate::flows_node::JoiningRelocateCandidate;
use crate::flows_src::{StartDecidesOnNodeToRelocate, StartRelocateSrc};
use crate::utilities::{ActionTriggered, LocalEvent, Rpc, TestEvent, TryResult, WaitedEvent};

pub open spec fn handled_by_online_offline(e: WaitedEvent) -> bool {
    match e {
        WaitedEvent::ParsecConsensus(ParsecVote::Offline(_)) => true,
        WaitedEvent::ParsecConsensus(ParsecVote::BackOnline(_)) => true,
        WaitedEvent::LocalEvent(LocalEvent::NodeDetectedOffline(_)) => true,
        WaitedEvent::LocalEvent(LocalEvent::NodeDetectedBackOnline(_)) => true,
        _ => false,
    }
}

pub open spec fn awaited_in(e: WaitedEvent, votes: Seq<ParsecVote>) -> bool {
    match e {
        WaitedEvent::ParsecConsensus(v) => votes.contains(v),
        _ => false,
    }
}

pub open spec fn handled_by_merge(e: WaitedEvent) -> bool {
    match e {
        WaitedEvent::ParsecConsensus(ParsecVote::NewSectionInfo(_)) => true,
        WaitedEvent::ParsecConsensus(ParsecVote::NeighbourMerge(_)) => true,
        _ => false,
    }
}

pub open spec fn handled_by_membership_changes(e: WaitedEvent) -> bool {
    match e {
        WaitedEvent::ParsecConsensus(ParsecVote::NeighbourMerge(_)) => true,
        WaitedEvent::ParsecConsensus(ParsecVote::CheckElder) => true,
        WaitedEvent::Rpc(Rpc::Merge(_)) => true,
        WaitedEvent::LocalEvent(LocalEvent::TimeoutCheckElder) => true,
        _ => false,
    }
}

pub open spec fn handled_by_relocate_src(e: WaitedEvent) -> bool {
    match e {
        WaitedEvent::LocalEvent(LocalEvent::TimeoutCheckRelocate) => true,
        WaitedEvent::Rpc(Rpc::RefuseCandidate(_)) => true,
        WaitedEvent::Rpc(Rpc::RelocateResponse(_)) => true,
        WaitedEvent::ParsecConsensus(ParsecVote::CheckRelocate) => true,
        WaitedEvent::ParsecConsensus(ParsecVote::RefuseCandidate(_)) => true,
        WaitedEvent::ParsecConsensus(ParsecVote::RelocateResponse(_)) => true,
        WaitedEvent::ParsecConsensus(ParsecVote::RelocatedInfo(_)) => true,
        _ => false,
    }
}

pub open spec fn handled_by_work_units(e: WaitedEvent) -> bool {
    match e {
        WaitedEvent::LocalEvent(LocalEvent::TimeoutWorkUnit) => true,
        WaitedEvent::ParsecConsensus(ParsecVote::WorkUnitIncrement) => true,
        _ => false,
    }
}

pub open spec fn handled_by_resource_proof(e: WaitedEvent) -> bool {
    match e {
        WaitedEvent::Rpc(Rpc::ResourceProofResponse { .. }) => true,
        WaitedEvent::Rpc(Rpc::CandidateInfo(_)) => true,
        WaitedEvent::ParsecConsensus(ParsecVote::CheckResourceProof) => true,
        WaitedEvent::ParsecConsensus(ParsecVote::Online(_, _)) => true,
        WaitedEvent::ParsecConsensus(ParsecVote::PurgeCandidate(_)) => true,
        WaitedEvent::LocalEvent(LocalEvent::TimeoutAccept) => true,
        WaitedEvent::LocalEvent(LocalEvent::CheckResourceProofTimeout) => true,
        _ => false,
    }
}

pub open spec fn handled_by_relocate_requests(e: WaitedEvent) -> bool {
    match e {
        WaitedEvent::Rpc(Rpc::ExpectCandidate(_)) => true,
        WaitedEvent::ParsecConsensus(ParsecVote::ExpectCandidate(_)) => true,
        _ => false,
    }
}

/// Known messages no flow acts on yet.
pub open spec fn not_yet_implemented(e: WaitedEvent) -> bool {
    e matches WaitedEvent::Rpc(Rpc::ConnectionInfoResponse { .. })
}

/// Elder votes that only a flow that started them should see.
pub open spec fn unexpected_elder_vote(e: WaitedEvent) -> bool {
    match e {
        WaitedEvent::ParsecConsensus(ParsecVote::RemoveElderNode(_)) => true,
        WaitedEvent::ParsecConsensus(ParsecVote::AddElderNode(_)) => true,
        WaitedEvent::ParsecConsensus(ParsecVote::NewSectionInfo(_)) => true,
        _ => false,
    }
}

impl MemberState {
    /// What the flows owe nothing on: the events a member can take without
    /// breaking the node table or overflowing a counter.
    pub open spec fn accepts(self, event: Event) -> bool {
        match event.spec_to_waited_event() {
            Some(w) => {
                let m = self.start_merge_split_and_change_elders@;
                &&& CheckOnlineOffline::accepts(self, w)
                &&& m.merge_active ==> ProcessMerge::accepts(self, w)
                &&& m.elder_active ==> ProcessElderChange::accepts(self, w)
                &&& StartMergeSplitAndChangeElders::accepts(self, w)
                &&& StartRelocateSrc::accepts(self, w)
                &&& StartResourceProof::accepts(self, w)
                &&& RespondToRelocateRequests::accepts(self, w)
            },
            None => event is TestEvent,
        }
    }

    /// The first flow, in priority order, that handles a waited event acts
    /// on it; known gaps are recorded; anything else is left unhandled.
    pub open spec fn dispatch(pre: MemberState, e: WaitedEvent, post: MemberState, r: TryResult) -> bool {
        let m = pre.start_merge_split_and_change_elders@;
        let a = pre.action@;
        if handled_by_online_offline(e) {
            CheckOnlineOffline::step(pre, e, post, r)
        } else if m.split_active && awaited_in(e, m.split_wait) {
            ProcessSplit::step(pre, e, post, r)
        } else if m.merge_active && handled_by_merge(e) {
            ProcessMerge::step(pre, e, post, r)
        } else if m.elder_active && awaited_in(e, m.elder_wait) {
            ProcessElderChange::step(pre, e, post, r)
        } else if handled_by_membership_changes(e) {
            StartMergeSplitAndChangeElders::step(pre, e, post, r)
        } else if handled_by_relocate_src(e) {
            StartRelocateSrc::step(pre, e, post, r)
        } else if handled_by_work_units(e) {
            StartDecidesOnNodeToRelocate::step(pre, e, post, r)
        } else if handled_by_resource_proof(e) {
            StartResourceProof::step(pre, e, post, r)
        } else if handled_by_relocate_requests(e) {
            RespondToRelocateRequests::step(pre, e, post, r)
        } else if not_yet_implemented(e) {
            r == TryResult::Handled && pre.only_action(
                post,
                a.log(Event::ActionTriggered(ActionTriggered::NotYetImplementedErrorTriggered)),
            )
        } else if unexpected_elder_vote(e) {
            r == TryResult::Handled && pre.only_action(
                post,
                a.log(Event::ActionTriggered(ActionTriggered::UnexpectedEventErrorTriggered)),
            )
        } else {
            r == TryResult::Unhandled && post == pre
        }
    }

    /// One step of a member: a test event goes to the action, any other
    /// event to the flows.
    pub open spec fn next(pre: MemberState, event: Event, post: MemberState, r: TryResult) -> bool {
        match event {
            Event::TestEvent(t) => r == TryResult::Handled && pre.only_action(
                post,
                pre.action@.apply_test_event(t),
            ),
            _ => Self::dispatch(pre, event.spec_to_waited_event()->0, post, r),
        }
    }

    pub fn try_next(&mut self, event: Event) -> (r: TryResult)
        requires
            old(self).wf(),
            old(self).accepts(event),
        ensures
            final(self).wf(),
            Self::next(*old(self), event, *final(self), r),
    {
        match event.to_test_event() {
            Some(test_event) => {
                self.action.process_test_events(test_event);
                return TryResult::Handled;
            },
            None => {},
        }
        let event = match event.to_waited_event() {
            Some(e) => e,
            None => {
                return TryResult::Unhandled;
            },
        };
        if CheckOnlineOffline::try_next(self, event) == TryResult::Handled {
            return TryResult::Handled;
        }
        if self.start_merge_split_and_change_elders.sub_routine_process_split.is_active {
            if ProcessSplit::try_next(self, event) == TryResult::Handled {
                return TryResult::Handled;
            }
        }
        if self.start_merge_split_and_change_elders.sub_routine_process_merge_active {
            if ProcessMerge::try_next(self, event) == TryResult::Handled {
                return TryResult::Handled;
            }
        }
        if self.start_merge_split_and_change_elders.sub_routine_process_elder_change.is_active {
            if ProcessElderChange::try_next(self, event) == TryResult::Handled {
                return TryResult::Handled;
            }
        }
        if StartMergeSplitAndChangeElders::try_next(self, event) == TryResult::Handled {
            return TryResult::Handled;
        }
        if StartRelocateSrc::try_next(self, event) == TryResult::Handled {
            return TryResult::Handled;
        }
        if StartDecidesOnNodeToRelocate::try_next(self, event) == TryResult::Handled {
            return TryResult::Handled;
        }
        if StartResourceProof::try_next(self, event) == TryResult::Handled {
            return TryResult::Handled;
        }
        if RespondToRelocateRequests::try_next(self, event) == TryResult::Handled {
            return TryResult::Handled;
        }
        match event {
            WaitedEvent::Rpc(Rpc::ConnectionInfoResponse { .. }) => {
                self.action.action_triggered(ActionTriggered::NotYetImplementedErrorTriggered);
                TryResult::Handled
            },
            WaitedEvent::ParsecConsensus(ParsecVote::RemoveElderNode(_))
            | WaitedEvent::ParsecConsensus(ParsecVote::AddElderNode(_))
            | WaitedEvent::ParsecConsensus(ParsecVote::NewSectionInfo(_)) => {
                self.action.action_triggered(ActionTriggered::UnexpectedEventErrorTriggered);
                TryResult::Handled
            },
            _ => TryResult::Unhandled,
        }
    }
}

impl JoiningState {
    pub open spec fn accepts(self, event: Event) -> bool {
        match event.spec_to_waited_event() {
            Some(w) => JoiningRelocateCandidate::accepts(self, w),
            None => event is TestEvent,
        }
    }

    /// Starts joining the section that issued `relocated_info`.
    pub fn start(&mut self, relocated_info: RelocatedInfo)
        requires
            old(self).action@.members_of(relocated_info.section_info) is Some,
        ensures
            final(self).join_routine == (JoiningRelocateCandidateState {
                relocated_info: Some(relocated_info),
                ..old(self).join_routine
            }),
            final(self).failure == old(self).failure,
            final(self).action@ == crate::flows_node::connect_or_send(
                old(self).action@,
                relocated_info,
            ).log(Event::ActionTriggered(ActionTriggered::Scheduled(LocalEvent::JoiningTimeoutProofRefused))),
    {
        JoiningRelocateCandidate::start_event_loop(self, relocated_info);
    }

    /// One step of a joining node: a test event goes to the action, any
    /// other event to the joining flow, which handles every event.
    pub fn try_next(&mut self, event: Event) -> (r: TryResult)
        requires
            old(self).action@.wf(),
            old(self).accepts(event),
        ensures
            final(self).action@.wf(),
            r == TryResult::Handled,
            match event {
                Event::TestEvent(t) => final(self).action@ == old(self).action@.apply_test_event(t)
                    && final(self).join_routine == old(self).join_routine && final(self).failure
                    == old(self).failure,
                _ => JoiningRelocateCandidate::step(
                    *old(self),
                    event.spec_to_waited_event()->0,
                    *final(self),
                    r,
                ),
            },
    {
        match event.to_test_event() {
            Some(test_event) => {
                self.action.process_test_events(test_event);
                return TryResult::Handled;
            },
            None => {},
        }
        match event.to_waited_event() {
            Some(e) => JoiningRelocateCandidate::try_next(self, e),
            None => TryResult::Handled,
        }
    }
}

} // verus!
