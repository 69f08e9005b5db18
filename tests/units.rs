use routing_model::actions::{Action, InnerAction};
use routing_model::state::MemberState;
use routing_model::utilities::{
    ActionTriggered, Age, Attributes, Candidate, CandidateInfo, ChangeElder, Event,
    GenesisPfxInfo, LocalEvent, Name, Node, NodeState, ParsecVote, Proof, ProofSource,
    RelocatedInfo, Rpc, Section, SectionInfo, State, TestEvent, TryResult, WaitedEvent,
};

fn node(name: i32, age: i32) -> Node {
    Node(Attributes { name: Name(name), age: Age(age) })
}

fn row(name: i32, age: i32, is_elder: bool, state: State) -> NodeState {
    NodeState { node: node(name, age), work_units_done: 0, is_elder, state }
}

fn member(rows: &[NodeState]) -> MemberState {
    let inner = InnerAction::new_with_our_attributes(Attributes { name: Name(132), age: Age(32) })
        .with_next_target_interval(Name(1234))
        .extend_current_nodes(rows);
    MemberState { action: Action::new(inner), ..Default::default() }
}

fn events_of(state: &MemberState) -> Vec<Event> {
    state.action.inner().our_events
}

fn old_elders() -> MemberState {
    member(&[
        row(130, 30, true, State::Online),
        row(131, 31, true, State::Online),
        row(132, 32, true, State::Online),
        row(205, 5, false, State::Online),
    ])
}

const CANDIDATE_OLD: Candidate = Candidate(Attributes { name: Name(1001), age: Age(9) });
const CANDIDATE_NEW: Candidate = Candidate(Attributes { name: Name(1), age: Age(10) });

#[test]
fn proof_source_yields_parts_then_end_then_nothing() {
    let mut source = ProofSource(2);
    assert_eq!(source.resend(), Some(Proof::ValidPart));
    assert_eq!(source.next_part(), Some(Proof::ValidPart));
    assert_eq!(source, ProofSource(1));
    assert_eq!(source.next_part(), Some(Proof::ValidPart));
    assert_eq!(source, ProofSource(0));
    assert_eq!(source.next_part(), Some(Proof::ValidEnd));
    assert_eq!(source, ProofSource(-1));
    assert_eq!(source.next_part(), None);
    assert_eq!(source, ProofSource(-1));
}

#[test]
fn age_increment_and_validity_helpers() {
    assert_eq!(Age(9).increment_by_one(), Age(10));
    assert!(Proof::ValidPart.is_valid());
    assert!(Proof::ValidEnd.is_valid());
    assert!(!Proof::Invalid.is_valid());
    assert!(State::RelocatingHop.is_relocating());
    assert!(!State::Offline.is_relocating());
    assert!(State::WaitingProofing.is_not_yet_full_node());
    assert!(!State::Online.is_not_yet_full_node());
}

#[test]
fn message_and_vote_projections() {
    let info = CandidateInfo {
        old_public_id: CANDIDATE_OLD,
        new_public_id: CANDIDATE_NEW,
        destination: Name(1234),
        valid: true,
    };
    assert_eq!(Rpc::CandidateInfo(info).destination(), Some(Name(1234)));
    assert_eq!(Rpc::NodeApproval(CANDIDATE_NEW, GenesisPfxInfo::default()).destination(), Some(Name(1)));
    assert_eq!(Rpc::ExpectCandidate(CANDIDATE_OLD).destination(), None);
    assert_eq!(ParsecVote::Online(CANDIDATE_OLD, CANDIDATE_NEW).candidate(), Some(CANDIDATE_OLD));
    assert_eq!(ParsecVote::CheckElder.candidate(), None);
    assert_eq!(
        ParsecVote::CheckElder.to_event().to_waited_event(),
        Some(WaitedEvent::ParsecConsensus(ParsecVote::CheckElder))
    );
    assert_eq!(ActionTriggered::CompleteMerge.to_event().to_waited_event(), None);
    assert_eq!(
        TestEvent::SetShortestPrefix(None).to_event().to_test_event(),
        Some(TestEvent::SetShortestPrefix(None))
    );
}

#[test]
fn check_elder_sorts_by_state_then_age_then_name() {
    // In name order the first three would be 1, 2, 3; in elder order they
    // are 4 (oldest), 2, 3.
    let state = member(&[
        row(1, 5, true, State::Online),
        row(2, 50, false, State::Online),
        row(3, 40, false, State::Online),
        row(4, 60, false, State::Online),
    ]);
    let change = state.action.check_elder().unwrap();
    assert_eq!(
        change.changes,
        vec![(node(4, 60), true), (node(2, 50), true), (node(3, 40), true), (node(1, 5), false)]
    );
    assert_eq!(change.new_section, SectionInfo(Section(0), 1));
    assert_eq!(
        state.action.get_elder_change_votes(&change),
        vec![
            ParsecVote::AddElderNode(node(4, 60)),
            ParsecVote::AddElderNode(node(2, 50)),
            ParsecVote::AddElderNode(node(3, 40)),
            ParsecVote::RemoveElderNode(node(1, 5)),
            ParsecVote::NewSectionInfo(SectionInfo(Section(0), 1)),
        ]
    );
}

#[test]
fn check_elder_prefers_online_and_breaks_ties_by_name() {
    let state = member(&[
        row(10, 70, true, State::Offline),
        row(11, 20, true, State::Online),
        row(12, 20, false, State::Online),
        row(13, 20, false, State::Online),
    ]);
    let change = state.action.check_elder().unwrap();
    assert_eq!(change.changes, vec![(node(12, 20), true), (node(13, 20), true), (node(10, 70), false)]);
}

#[test]
fn check_elder_none_when_flags_match_and_small_sections() {
    assert!(old_elders().action.check_elder().is_none());
    assert!(member(&[]).action.check_elder().is_none());
    let two = member(&[row(1, 5, false, State::Online), row(2, 6, true, State::Online)]);
    let change = two.action.check_elder().unwrap();
    assert_eq!(change.changes, vec![(node(1, 5), true)]);
}

#[test]
fn mark_elder_change_leaves_at_most_three_elders() {
    let mut state = member(&[
        row(1, 5, true, State::Online),
        row(2, 50, true, State::Online),
        row(3, 40, true, State::Online),
        row(4, 60, true, State::Online),
        row(5, 70, true, State::Online),
    ]);
    let change = state.action.check_elder().unwrap();
    state.action.mark_elder_change(change);
    let elders: Vec<NodeState> =
        state.action.inner().our_current_nodes.into_iter().filter(|ns| ns.is_elder).collect();
    assert_eq!(elders.iter().map(|ns| ns.node.0.name.0).collect::<Vec<_>>(), vec![2, 4, 5]);
    assert_eq!(state.action.our_section(), SectionInfo(Section(0), 1));
    assert!(state.action.check_elder().is_none());
}

#[test]
fn split_votes_and_sibling_merge() {
    let mut state = old_elders();
    assert_eq!(
        state.action.get_section_split_votes(),
        vec![
            ParsecVote::NewSectionInfo(SectionInfo(Section(1), 0)),
            ParsecVote::NewSectionInfo(SectionInfo(Section(2), 0)),
        ]
    );
    assert!(!state.action.has_merge_infos());
    assert!(!state.action.has_sibling_merge_info());
    state.action.store_merge_infos(SectionInfo(Section(-1), 7));
    assert!(state.action.has_sibling_merge_info());
    assert_eq!(state.action.merge_sibling_info_to_new_section(), SectionInfo(Section(0), 0));
    assert!(!state.action.has_merge_infos());
    state.action.store_merge_infos(SectionInfo(Section(3), 0));
    assert!(!state.action.has_sibling_merge_info());
}

#[test]
fn best_relocating_node_order() {
    let state = member(&[
        row(1, 90, false, State::RelocatingBackOnline),
        row(2, 10, false, State::RelocatingHop),
        row(3, 20, false, State::RelocatingHop),
        row(4, 99, true, State::RelocatingAgeIncrease),
        row(5, 99, false, State::Online),
    ]);
    assert_eq!(
        state.action.get_best_relocating_node_and_target(&vec![]),
        Some((Candidate(node(3, 20).0), Section(0)))
    );
    assert_eq!(
        state.action.get_best_relocating_node_and_target(&vec![(Candidate(node(3, 20).0), 0)]),
        Some((Candidate(node(2, 10).0), Section(0)))
    );
    assert_eq!(
        state.action.get_best_relocating_node_and_target(&vec![
            (Candidate(node(3, 20).0), 0),
            (Candidate(node(2, 10).0), 1),
            (Candidate(node(1, 90).0), 2),
        ]),
        None
    );
}

#[test]
fn table_queries() {
    let info = RelocatedInfo {
        candidate: CANDIDATE_OLD,
        expected_age: Age(10),
        target_interval_centre: Name(7),
        section_info: SectionInfo::default(),
    };
    let state = member(&[
        row(3, 10, false, State::WaitingProofing),
        row(7, 10, false, State::WaitingCandidateInfo(info)),
        row(8, 10, false, State::RelocatingHop),
        row(9, 9, false, State::Online),
    ]);
    assert_eq!(state.action.count_waiting_proofing_or_hop(), 3);
    assert_eq!(state.action.resource_proof_candidate(), Some((Name(7), CANDIDATE_OLD)));
    assert_eq!(state.action.get_waiting_candidate_info(CANDIDATE_OLD), Some(info));
    assert_eq!(state.action.get_waiting_candidate_info(CANDIDATE_NEW), None);
    assert!(state.action.is_our_relocating_node(Candidate(node(8, 10).0)));
    assert!(!state.action.is_our_relocating_node(Candidate(node(9, 9).0)));
    assert!(!state.action.has_relocating_node());
    assert_eq!(state.action.get_node_to_relocate(), None);
    let valid = CandidateInfo {
        old_public_id: CANDIDATE_OLD,
        new_public_id: CANDIDATE_NEW,
        destination: Name(7),
        valid: true,
    };
    assert!(state.action.is_valid_waited_info(valid));
    assert!(!state.action.is_valid_waited_info(CandidateInfo { valid: false, ..valid }));
    assert!(!state.action.is_valid_waited_info(CandidateInfo { destination: Name(3), ..valid }));
    assert!(state.action.is_our_name(Name(132)));
}

#[test]
fn member_fallbacks() {
    let mut state = old_elders();
    let nyi = Rpc::ConnectionInfoResponse { source: Name(1), destination: Name(132), connection_info: 1 };
    assert_eq!(state.try_next(nyi.to_event()), TryResult::Handled);
    assert_eq!(state.try_next(ParsecVote::AddElderNode(node(1, 1)).to_event()), TryResult::Handled);
    assert_eq!(
        events_of(&state),
        vec![
            ActionTriggered::NotYetImplementedErrorTriggered.to_event(),
            ActionTriggered::UnexpectedEventErrorTriggered.to_event(),
        ]
    );
    let approval = Rpc::NodeApproval(CANDIDATE_NEW, GenesisPfxInfo::default()).to_event();
    assert_eq!(state.try_next(approval), TryResult::Unhandled);
    assert_eq!(state.try_next(LocalEvent::JoiningTimeoutResendInfo.to_event()), TryResult::Unhandled);
}

fn admission_events() -> Vec<Event> {
    vec![
        ParsecVote::ExpectCandidate(CANDIDATE_OLD).to_event(),
        ParsecVote::CheckResourceProof.to_event(),
        Rpc::CandidateInfo(CandidateInfo {
            old_public_id: CANDIDATE_OLD,
            new_public_id: CANDIDATE_NEW,
            destination: Name(1234),
            valid: true,
        })
        .to_event(),
        Rpc::ResourceProofResponse { candidate: CANDIDATE_NEW, destination: Name(132), proof: Proof::ValidEnd }
            .to_event(),
        ParsecVote::Online(CANDIDATE_OLD, CANDIDATE_NEW).to_event(),
        ParsecVote::CheckElder.to_event(),
    ]
}

fn run(mut state: MemberState, events: &[Event]) -> MemberState {
    for event in events {
        assert_eq!(state.try_next(*event), TryResult::Handled);
    }
    state
}

#[test]
fn replays_give_identical_journals() {
    let first = run(old_elders(), &admission_events());
    let second = run(old_elders(), &admission_events());
    assert_eq!(first, second);
    assert_eq!(events_of(&first), events_of(&second));
}

#[test]
fn counters_never_go_back() {
    let mut state = old_elders();
    assert_eq!(state.action.inner().next_target_interval, Name(1234));
    state = run(state, &admission_events());
    assert_eq!(state.action.inner().next_target_interval, Name(1235));
    let second = Candidate(Attributes { name: Name(1002), age: Age(9) });
    state = run(state, &[ParsecVote::ExpectCandidate(second).to_event()]);
    assert_eq!(state.action.inner().next_target_interval, Name(1236));
    assert_eq!(state.action.our_section(), SectionInfo(Section(0), 0));
}

#[test]
fn at_most_one_candidate_admitted_at_a_time() {
    let state = run(old_elders(), &admission_events()[..3]);
    assert_eq!(state.action.count_waiting_proofing_or_hop(), 1);
    let other = Candidate(Attributes { name: Name(1002), age: Age(9) });
    let state = run(state, &[ParsecVote::ExpectCandidate(other).to_event()]);
    assert_eq!(state.action.count_waiting_proofing_or_hop(), 1);
    assert_eq!(events_of(&state).last(), Some(&Rpc::RefuseCandidate(other).to_event()));
}

#[test]
fn readmission_sends_the_same_ticket() {
    let state = run(old_elders(), &[ParsecVote::ExpectCandidate(CANDIDATE_OLD).to_event()]);
    let first = events_of(&state).last().copied();
    let state = run(state, &[ParsecVote::ExpectCandidate(CANDIDATE_OLD).to_event()]);
    let second = events_of(&state).last().copied();
    let ticket = RelocatedInfo {
        candidate: CANDIDATE_OLD,
        expected_age: Age(10),
        target_interval_centre: Name(1234),
        section_info: SectionInfo(Section(0), 0),
    };
    assert_eq!(first, Some(Rpc::RelocateResponse(ticket).to_event()));
    assert_eq!(first, second);
}

#[test]
fn proof_responses_after_online_do_nothing() {
    let mut state = run(old_elders(), &admission_events()[..5]);
    state.action.remove_processed_state();
    let before = state.clone();
    let response = Rpc::ResourceProofResponse {
        candidate: CANDIDATE_NEW,
        destination: Name(132),
        proof: Proof::ValidEnd,
    };
    let state = run(state, &[response.to_event(), response.to_event()]);
    assert_eq!(state, before);
    assert_eq!(state.action.node_state(Name(1)).unwrap().state, State::Online);
}

#[test]
fn back_online_node_is_relocated_first_by_kind() {
    let state = run(
        old_elders(),
        &[
            ParsecVote::Offline(node(205, 5)).to_event(),
            ParsecVote::BackOnline(node(205, 5)).to_event(),
            ParsecVote::CheckRelocate.to_event(),
        ],
    );
    assert_eq!(
        events_of(&state),
        vec![
            routing_model::utilities::NodeChange::State(node(205, 5), State::Offline).to_event(),
            routing_model::utilities::NodeChange::State(node(205, 5), State::RelocatingBackOnline)
                .to_event(),
            Rpc::ExpectCandidate(Candidate(node(205, 5).0)).to_event(),
        ]
    );
}

#[test]
fn change_elder_value_is_plain_data() {
    let change = ChangeElder { changes: vec![(node(1, 1), true)], new_section: SectionInfo::default() };
    assert_eq!(change.clone(), change);
}

#[test]
fn late_refusal_after_entry_dropped_changes_nothing() {
    let mut state = run(
        old_elders(),
        &[
            TestEvent::SetWorkUnitEnoughToRelocate(node(205, 5)).to_event(),
            ParsecVote::WorkUnitIncrement.to_event(),
            ParsecVote::CheckRelocate.to_event(),
            ParsecVote::CheckRelocate.to_event(),
            ParsecVote::CheckRelocate.to_event(),
        ],
    );
    assert!(state.start_relocate_src.already_relocating.is_empty());
    state.action.remove_processed_state();
    let before = state.clone();
    let state = run(state, &[ParsecVote::RefuseCandidate(Candidate(node(205, 5).0)).to_event()]);
    assert_eq!(state, before);
    let state = run(state, &[ParsecVote::CheckRelocate.to_event()]);
    assert_eq!(events_of(&state), vec![Rpc::ExpectCandidate(Candidate(node(205, 5).0)).to_event()]);
}

#[test]
fn stale_accept_timeout_is_dropped() {
    let mut state = run(old_elders(), &admission_events()[..5]);
    state.action.remove_processed_state();
    let before = state.clone();
    let state = run(state, &[LocalEvent::TimeoutAccept.to_event()]);
    assert_eq!(state, before);
}
