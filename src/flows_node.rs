//! The joining side of relocation: a relocated node proving itself to the
//! elders of its destination.
use crate::actions::{ActionModel, member_names};
use crate::flows_elder::scheduled;
use crate::state::JoiningState;
use crate::utilities::{
    ActionTriggered, Candidate, Event, GenesisPfxInfo, LocalEvent, Name, ProofRequest,
    RelocatedInfo, Rpc, TryResult, WaitedEvent,
};
use vstd::prelude::*;

verus! {

/// One request for connection info to each name of `names`.
pub open spec fn connection_requests(a: ActionModel, names: Seq<Name>) -> Seq<Event> {
    names.map_values(
        |n: Name|
            Event::Rpc(
                Rpc::ConnectionInfoRequest {
                    source: a.our_name(),
                    destination: n,
                    connection_info: a.our_name().0,
                },
            ),
    )
}

/// The action once every elder of the destination was either asked for its
/// connection info or, when connected, handed our identity; then the resend
/// timer is set again.
pub open spec fn connect_or_send(a: ActionModel, info: RelocatedInfo) -> ActionModel {
    let names = member_names(a.members_of(info.section_info)->0);
    let connected = names.filter(crate::actions::is_connected_in(a.connected));
    let unconnected = names.filter(crate::actions::is_unconnected_in(a.connected));
    ActionModel {
        events: a.events + connection_requests(a, unconnected) + Seq::new(
            connected.len(),
            |i: int| Event::Rpc(a.candidate_info_rpc(info)),
        ),
        ..a
    }.log(scheduled(LocalEvent::JoiningTimeoutResendInfo))
}

/// The action once the next proof part for `source`, if any, was sent.
pub open spec fn send_next_part(a: ActionModel, source: Name) -> ActionModel {
    match a.proof_part(source) {
        Some(p) => a.take_proof_part(source).log(
            Event::Rpc(
                Rpc::ResourceProofResponse {
                    candidate: Candidate(a.our_attributes),
                    destination: source,
                    proof: p,
                },
            ),
        ),
        None => a.take_proof_part(source),
    }
}

/// Joins a destination section with a ticket it issued.
pub struct JoiningRelocateCandidate;

impl JoiningRelocateCandidate {
    pub open spec fn knows_elders(pre: JoiningState) -> bool {
        pre.join_routine.relocated_info is Some && pre.action@.members_of(
            pre.join_routine.relocated_info->0.section_info,
        ) is Some
    }

    pub open spec fn accepts(pre: JoiningState, e: WaitedEvent) -> bool {
        match e {
            WaitedEvent::Rpc(Rpc::ConnectionInfoResponse { destination, .. }) => destination
                == pre.action@.our_name() ==> pre.join_routine.relocated_info is Some,
            WaitedEvent::LocalEvent(LocalEvent::JoiningTimeoutResendInfo) => Self::knows_elders(pre),
            _ => true,
        }
    }

    /// `post` is `pre` with only the action changed, to `a`.
    pub open spec fn only_action(pre: JoiningState, post: JoiningState, a: ActionModel) -> bool {
        post.action@ == a && post.failure == pre.failure && post.join_routine == pre.join_routine
    }

    /// What a message addressed to us does; others are dropped.
    pub open spec fn rpc_step(pre: JoiningState, rpc: Rpc, post: JoiningState) -> bool {
        let a = pre.action@;
        if rpc.spec_destination() == Some(a.our_name()) {
            match rpc {
                Rpc::NodeApproval(_, genesis) => post.action == pre.action && post.failure
                    == pre.failure && post.join_routine == (crate::state::JoiningRelocateCandidateState {
                    routine_complete_output: Some(genesis),
                    ..pre.join_routine
                }),
                Rpc::ConnectionInfoResponse { source, .. } => Self::only_action(
                    pre,
                    post,
                    a.add_connected(source).log(
                        Event::Rpc(a.candidate_info_rpc(pre.join_routine.relocated_info->0)),
                    ),
                ),
                Rpc::ResourceProof { source, .. } => Self::only_action(
                    pre,
                    post,
                    a.log(
                        Event::ActionTriggered(ActionTriggered::ComputeResourceProofForElder(source)),
                    ),
                ),
                Rpc::ResourceProofReceipt { source, .. } => Self::only_action(
                    pre,
                    post,
                    send_next_part(a, source),
                ),
                _ => post == pre,
            }
        } else {
            post == pre
        }
    }

    /// Every event is handled; those the flow does not act on are dropped.
    pub open spec fn step(pre: JoiningState, e: WaitedEvent, post: JoiningState, r: TryResult) -> bool {
        let a = pre.action@;
        r == TryResult::Handled && match e {
            WaitedEvent::Rpc(rpc) => Self::rpc_step(pre, rpc, post),
            WaitedEvent::LocalEvent(LocalEvent::ResourceProofForElderReady(source)) => Self::only_action(
                pre,
                post,
                send_next_part(a, source),
            ),
            WaitedEvent::LocalEvent(LocalEvent::JoiningTimeoutResendInfo) => Self::only_action(
                pre,
                post,
                connect_or_send(a, pre.join_routine.relocated_info->0),
            ),
            _ => post == pre,
        }
    }

    /// Keeps the ticket, contacts the destination's elders and starts the
    /// timers.
    pub fn start_event_loop(state: &mut JoiningState, relocated_info: RelocatedInfo)
        requires
            old(state).action@.members_of(relocated_info.section_info) is Some,
        ensures
            final(state).join_routine == (crate::state::JoiningRelocateCandidateState {
                relocated_info: Some(relocated_info),
                ..old(state).join_routine
            }),
            final(state).failure == old(state).failure,
            final(state).action@ == connect_or_send(old(state).action@, relocated_info).log(
                scheduled(LocalEvent::JoiningTimeoutProofRefused),
            ),
    {
        state.join_routine.relocated_info = Some(relocated_info);
        Self::connect_or_send_candidate_info(state);
        Self::start_refused_timeout(state);
    }

    pub fn try_next(state: &mut JoiningState, event: WaitedEvent) -> (r: TryResult)
        requires
            Self::accepts(*old(state), event),
        ensures
            Self::step(*old(state), event, *final(state), r),
    {
        let result = match event {
            WaitedEvent::Rpc(rpc) => Self::try_rpc(state, rpc),
            WaitedEvent::LocalEvent(local_event) => Self::try_local_event(state, local_event),
            _ => TryResult::Unhandled,
        };
        if result == TryResult::Unhandled {
            Self::discard(state);
        }
        TryResult::Handled
    }

    fn try_rpc(state: &mut JoiningState, rpc: Rpc) -> (r: TryResult)
        requires
            Self::accepts(*old(state), WaitedEvent::Rpc(rpc)),
        ensures
            Self::rpc_step(*old(state), rpc, *final(state)),
            r == TryResult::Unhandled ==> *final(state) == *old(state),
    {
        let to_us = match rpc.destination() {
            Some(name) => state.action.is_our_name(name),
            None => false,
        };
        if !to_us {
            return TryResult::Unhandled;
        }
        match rpc {
            Rpc::NodeApproval(_, info) => {
                Self::exit(state, info);
                TryResult::Handled
            },
            Rpc::ConnectionInfoResponse { source, .. } => {
                Self::send_candidate_info(state, source);
                TryResult::Handled
            },
            Rpc::ResourceProof { proof, source, .. } => {
                Self::start_compute_resource_proof(state, source, proof);
                TryResult::Handled
            },
            Rpc::ResourceProofReceipt { source, .. } => {
                Self::send_next_proof_response(state, source);
                TryResult::Handled
            },
            _ => TryResult::Unhandled,
        }
    }

    fn try_local_event(state: &mut JoiningState, local_event: LocalEvent) -> (r: TryResult)
        requires
            Self::accepts(*old(state), WaitedEvent::LocalEvent(local_event)),
        ensures
            Self::step(*old(state), WaitedEvent::LocalEvent(local_event), *final(state), TryResult::Handled),
            r == TryResult::Unhandled ==> *final(state) == *old(state),
    {
        match local_event {
            LocalEvent::ResourceProofForElderReady(source) => {
                Self::send_next_proof_response(state, source);
                TryResult::Handled
            },
            LocalEvent::JoiningTimeoutResendInfo => {
                Self::connect_or_send_candidate_info(state);
                TryResult::Handled
            },
            _ => TryResult::Unhandled,
        }
    }

    /// The destination approved us: the joining is complete.
    fn exit(state: &mut JoiningState, info: GenesisPfxInfo)
        ensures
            final(state).action == old(state).action,
            final(state).failure == old(state).failure,
            final(state).join_routine == (crate::state::JoiningRelocateCandidateState {
                routine_complete_output: Some(info),
                ..old(state).join_routine
            }),
    {
        state.join_routine.routine_complete_output = Some(info);
    }

    fn discard(state: &mut JoiningState)
        ensures
            *final(state) == *old(state),
    {
    }

    fn send_next_proof_response(state: &mut JoiningState, source: Name)
        ensures
            Self::only_action(*old(state), *final(state), send_next_part(old(state).action@, source)),
    {
        match state.action.get_next_resource_proof_part(source) {
            Some(next_part) => {
                state.action.send_resource_proof_response(source, next_part);
            },
            None => {},
        }
    }

    fn send_candidate_info(state: &mut JoiningState, destination: Name)
        requires
            old(state).join_routine.relocated_info is Some,
        ensures
            Self::only_action(
                *old(state),
                *final(state),
                old(state).action@.add_connected(destination).log(
                    Event::Rpc(old(state).action@.candidate_info_rpc(old(state).join_routine.relocated_info->0)),
                ),
            ),
    {
        match state.join_routine.relocated_info {
            Some(info) => {
                state.action.send_candidate_info(destination, info);
            },
            None => {},
        }
    }

    fn connect_or_send_candidate_info(state: &mut JoiningState)
        requires
            Self::knows_elders(*old(state)),
        ensures
            Self::only_action(
                *old(state),
                *final(state),
                connect_or_send(old(state).action@, old(state).join_routine.relocated_info->0),
            ),
    {
        let relocated_info = match state.join_routine.relocated_info {
            Some(info) => info,
            None => {
                return;
            },
        };
        let ghost a = state.action@;
        let (connected, unconnected) = state.action.get_connected_and_unconnected(relocated_info);
        let mut i: usize = 0;
        while i < unconnected.len()
            invariant
                0 <= i <= unconnected@.len(),
                state.join_routine == old(state).join_routine,
                state.failure == old(state).failure,
                state.action@ == (ActionModel {
                    events: a.events + connection_requests(a, unconnected@.take(i as int)),
                    ..a
                }),
            decreases unconnected@.len() - i,
        {
            state.action.send_connection_info_request(unconnected[i]);
            i = i + 1;
            assert(state.action@.events =~= a.events + connection_requests(a, unconnected@.take(i as int)));
        }
        assert(unconnected@.take(i as int) =~= unconnected@);
        let ghost a2 = state.action@;
        let mut j: usize = 0;
        while j < connected.len()
            invariant
                0 <= j <= connected@.len(),
                state.join_routine == old(state).join_routine,
                state.failure == old(state).failure,
                a2.connected == a.connected,
                a2.our_attributes == a.our_attributes,
                forall|k: int| 0 <= k < connected@.len() ==> a.connected.contains(#[trigger] connected@[k]),
                state.action@ == (ActionModel {
                    events: a2.events + Seq::new(j as nat, |k: int| Event::Rpc(a.candidate_info_rpc(relocated_info))),
                    ..a2
                }),
            decreases connected@.len() - j,
        {
            state.action.send_candidate_info(connected[j], relocated_info);
            j = j + 1;
            assert(state.action@.events =~= a2.events + Seq::new(
                j as nat,
                |k: int| Event::Rpc(a.candidate_info_rpc(relocated_info)),
            ));
        }
        state.action.schedule_event(LocalEvent::JoiningTimeoutResendInfo);
        assert(state.action@.events =~= connect_or_send(a, relocated_info).events);
    }

    fn start_refused_timeout(state: &mut JoiningState)
        ensures
            Self::only_action(
                *old(state),
                *final(state),
                old(state).action@.log(scheduled(LocalEvent::JoiningTimeoutProofRefused)),
            ),
    {
        state.action.schedule_event(LocalEvent::JoiningTimeoutProofRefused);
    }

    /// Starts computing the proof asked for by `source`; the model signals
    /// when it is ready.
    fn start_compute_resource_proof(state: &mut JoiningState, source: Name, proof: ProofRequest)
        ensures
            Self::only_action(
                *old(state),
                *final(state),
                old(state).action@.log(
                    Event::ActionTriggered(ActionTriggered::ComputeResourceProofForElder(source)),
                ),
            ),
    {
        state.action.start_compute_resource_proof(source, proof);
    }
}

} // verus!
