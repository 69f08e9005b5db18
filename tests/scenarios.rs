use routing_model::actions::{Action, InnerAction};
use routing_model::state::{JoiningState, MemberState};
use routing_model::utilities::{
    ActionTriggered, Age, Attributes, Candidate, CandidateInfo, ChurnNeeded, Event,
    GenesisPfxInfo, LocalEvent, Name, Node, NodeChange, NodeState, ParsecVote, Proof,
    ProofRequest, ProofSource, RelocatedInfo, Rpc, Section, SectionInfo, State, TestEvent,
    TryResult,
};

const ATTRIBUTES_1_OLD: Attributes = Attributes { name: Name(1001), age: Age(9) };
const ATTRIBUTES_1: Attributes = Attributes { name: Name(1), age: Age(10) };
const ATTRIBUTES_2_OLD: Attributes = Attributes { name: Name(1002), age: Age(9) };
const ATTRIBUTES_2: Attributes = Attributes { name: Name(2), age: Age(10) };
const ATTRIBUTES_132_OLD: Attributes = Attributes { name: Name(132), age: Age(31) };
const ATTRIBUTES_132: Attributes = Attributes { name: Name(132), age: Age(32) };

const CANDIDATE_1_OLD: Candidate = Candidate(ATTRIBUTES_1_OLD);
const CANDIDATE_1: Candidate = Candidate(ATTRIBUTES_1);
const CANDIDATE_2_OLD: Candidate = Candidate(ATTRIBUTES_2_OLD);
const CANDIDATE_2: Candidate = Candidate(ATTRIBUTES_2);
const CANDIDATE_130: Candidate = Candidate(Attributes { name: Name(130), age: Age(30) });
const CANDIDATE_205: Candidate = Candidate(Attributes { name: Name(205), age: Age(5) });
const OTHER_SECTION_1: Section = Section(1);
const OTHER_SECTION_2: Section = Section(2);
const DST_SECTION_200: Section = Section(200);
const MERGED_SECTION_2: Section = Section(2);

const NODE_1_OLD: Node = Node(ATTRIBUTES_1_OLD);
const NODE_1: Node = Node(ATTRIBUTES_1);
const NODE_2_OLD: Node = Node(ATTRIBUTES_2_OLD);
const NODE_2: Node = Node(ATTRIBUTES_2);
const SET_ONLINE_NODE_1: NodeChange = NodeChange::ReplaceWith(TARGET_INTERVAL_1, NODE_1, State::Online);

const NODE_ELDER_109: Node = Node(Attributes { name: Name(109), age: Age(9) });
const NODE_ELDER_110: Node = Node(Attributes { name: Name(110), age: Age(10) });
const NODE_ELDER_111: Node = Node(Attributes { name: Name(111), age: Age(11) });
const NODE_ELDER_130: Node = Node(Attributes { name: Name(130), age: Age(30) });
const NODE_ELDER_131: Node = Node(Attributes { name: Name(131), age: Age(31) });
const NODE_ELDER_132: Node = Node(ATTRIBUTES_132);

const NAME_110: Name = NODE_ELDER_110.0.name;
const NAME_111: Name = NODE_ELDER_111.0.name;

const YOUNG_ADULT_205: Node = Node(Attributes { name: Name(205), age: Age(5) });
const SECTION_INFO_1: SectionInfo = SectionInfo(OUR_SECTION, 1);
const SECTION_INFO_2: SectionInfo = SectionInfo(OUR_SECTION, 2);
const DST_SECTION_INFO_200: SectionInfo = SectionInfo(DST_SECTION_200, 0);

const OTHER_SECTION_INFO: SectionInfo = SectionInfo(OTHER_SECTION_1, 0);
const REMOTE_OTHER_SECTION_INFO: SectionInfo = SectionInfo(OTHER_SECTION_2, 0);
const MERGED_SECTION_INFO: SectionInfo = SectionInfo(MERGED_SECTION_2, 0);

const SPLIT_SECTION_INFO_1: SectionInfo = SectionInfo(Section(1), 0);
const SPLIT_SECTION_INFO_2: SectionInfo = SectionInfo(Section(2), 0);

const CANDIDATE_INFO_VALID_1: CandidateInfo = CandidateInfo {
    old_public_id: CANDIDATE_1_OLD,
    new_public_id: CANDIDATE_1,
    destination: TARGET_INTERVAL_1,
    valid: true,
};
const REMOVE_CANDIDATE_1: NodeChange = NodeChange::Remove(TARGET_INTERVAL_1);

const CANDIDATE_RELOCATED_INFO_1: RelocatedInfo = RelocatedInfo {
    candidate: CANDIDATE_1_OLD,
    expected_age: Age(CANDIDATE_1_OLD.0.age.0 + 1),
    target_interval_centre: TARGET_INTERVAL_1,
    section_info: OUR_INITIAL_SECTION_INFO,
};

const CANDIDATE_RELOCATED_INFO_132: RelocatedInfo = RelocatedInfo {
    candidate: OUR_NODE_CANDIDATE_OLD,
    expected_age: OUR_NODE.0.age,
    target_interval_centre: TARGET_INTERVAL_1,
    section_info: DST_SECTION_INFO_200,
};

const CANDIDATE_INFO_VALID_RPC_1: Rpc = Rpc::CandidateInfo(CANDIDATE_INFO_VALID_1);
const TARGET_INTERVAL_1: Name = Name(1234);
const TARGET_INTERVAL_2: Name = Name(1235);

const OUR_SECTION: Section = Section(0);
const OUR_NODE_OLD: Node = Node(ATTRIBUTES_132_OLD);
const OUR_NODE: Node = Node(ATTRIBUTES_132);
const OUR_NAME: Name = OUR_NODE.0.name;
const OUR_NODE_CANDIDATE: Candidate = Candidate(OUR_NODE.0);
const OUR_NODE_CANDIDATE_OLD: Candidate = Candidate(OUR_NODE_OLD.0);
const OUR_PROOF_REQUEST: ProofRequest = ProofRequest { value: OUR_NAME.0 };
const OUR_INITIAL_SECTION_INFO: SectionInfo = SectionInfo(OUR_SECTION, 0);
const OUR_GENESIS_INFO: GenesisPfxInfo = GenesisPfxInfo(OUR_INITIAL_SECTION_INFO);

fn inner_action_132() -> InnerAction {
    InnerAction::new_with_our_attributes(OUR_NODE.0).with_next_target_interval(TARGET_INTERVAL_1)
}

fn inner_action_young_elders() -> InnerAction {
    inner_action_132()
        .extend_current_nodes_with(
            &NodeState::default_elder(),
            &[NODE_ELDER_109, NODE_ELDER_110, NODE_ELDER_132],
        )
        .extend_current_nodes_with(&NodeState::default(), &[YOUNG_ADULT_205])
}

fn inner_action_old_elders() -> InnerAction {
    inner_action_132()
        .extend_current_nodes_with(
            &NodeState::default_elder(),
            &[NODE_ELDER_130, NODE_ELDER_131, NODE_ELDER_132],
        )
        .extend_current_nodes_with(&NodeState::default(), &[YOUNG_ADULT_205])
}

fn inner_action_with_dst_section_200() -> InnerAction {
    inner_action_132().with_section_members(
        DST_SECTION_INFO_200,
        &[NODE_ELDER_109, NODE_ELDER_110, NODE_ELDER_111],
    )
}

fn process_events(mut state: MemberState, events: &[Event]) -> MemberState {
    for event in events.iter().cloned() {
        if TryResult::Unhandled == state.try_next(event) {
            state.failure_event(event);
        }
        if state.failure.is_some() {
            break;
        }
    }
    state
}

fn run_test(test_name: &str, start_state: &MemberState, events: &[Event], expected: &[Event]) {
    let final_state = process_events(start_state.clone(), events);
    let action = final_state.action.inner();
    assert_eq!(
        (expected.to_vec(), None),
        (action.our_events, final_state.failure),
        "{}",
        test_name
    );
}

fn arrange_initial_state(state: &MemberState, events: &[Event]) -> MemberState {
    let mut state = process_events(state.clone(), events);
    state.action.remove_processed_state();
    state
}

fn initial_state_young_elders() -> MemberState {
    MemberState { action: Action::new(inner_action_young_elders()), ..Default::default() }
}

fn initial_state_old_elders() -> MemberState {
    MemberState { action: Action::new(inner_action_old_elders()), ..Default::default() }
}

fn get_relocated_info(candidate: Candidate, section_info: SectionInfo) -> RelocatedInfo {
    RelocatedInfo {
        candidate,
        expected_age: candidate.0.age.increment_by_one(),
        target_interval_centre: TARGET_INTERVAL_1,
        section_info,
    }
}

#[test]
fn rpc_expect_candidate() {
    run_test(
        "",
        &initial_state_old_elders(),
        &[Rpc::ExpectCandidate(CANDIDATE_1_OLD).to_event()],
        &[ParsecVote::ExpectCandidate(CANDIDATE_1_OLD).to_event()],
    );
}

#[test]
fn parsec_expect_candidate() {
    run_test(
        "",
        &initial_state_old_elders(),
        &[
            ParsecVote::ExpectCandidate(CANDIDATE_1_OLD).to_event(),
            ParsecVote::CheckResourceProof.to_event(),
        ],
        &[
            NodeChange::AddWithState(
                Node(Attributes { name: TARGET_INTERVAL_1, age: CANDIDATE_1.0.age }),
                State::WaitingCandidateInfo(CANDIDATE_RELOCATED_INFO_1),
            )
            .to_event(),
            Rpc::RelocateResponse(CANDIDATE_RELOCATED_INFO_1).to_event(),
            ActionTriggered::Scheduled(LocalEvent::TimeoutAccept).to_event(),
        ],
    );
}

#[test]
fn parsec_expect_candidate_then_candidate_twice() {
    let initial_state = arrange_initial_state(
        &initial_state_old_elders(),
        &[ParsecVote::ExpectCandidate(CANDIDATE_1_OLD).to_event()],
    );
    run_test(
        "Get ExpectCandidate again for same candidate reply with same Rpc::RelocateResponse",
        &initial_state,
        &[ParsecVote::ExpectCandidate(CANDIDATE_1_OLD).to_event()],
        &[Rpc::RelocateResponse(CANDIDATE_RELOCATED_INFO_1).to_event()],
    );
}

#[test]
fn parsec_expect_candidate_then_candidate_info11() {
    let initial_state = arrange_initial_state(
        &initial_state_old_elders(),
        &[
            ParsecVote::ExpectCandidate(CANDIDATE_1_OLD).to_event(),
            ParsecVote::CheckResourceProof.to_event(),
        ],
    );
    run_test(
        "Start resource proofing candidate: Send RPC.",
        &initial_state,
        &[CANDIDATE_INFO_VALID_RPC_1.to_event()],
        &[Rpc::ResourceProof { candidate: CANDIDATE_1, source: OUR_NAME, proof: OUR_PROOF_REQUEST }
            .to_event()],
    );
}

#[test]
fn parsec_expect_candidate_then_candidate_info_twice() {
    let initial_state = arrange_initial_state(
        &initial_state_old_elders(),
        &[
            ParsecVote::ExpectCandidate(CANDIDATE_1_OLD).to_event(),
            ParsecVote::CheckResourceProof.to_event(),
            CANDIDATE_INFO_VALID_RPC_1.to_event(),
        ],
    );
    run_test(
        "Start resource proofing candidate: Send same RPC again.",
        &initial_state,
        &[CANDIDATE_INFO_VALID_RPC_1.to_event()],
        &[Rpc::ResourceProof { candidate: CANDIDATE_1, source: OUR_NAME, proof: OUR_PROOF_REQUEST }
            .to_event()],
    );
}

#[test]
fn parsec_expect_candidate_then_candidate_info_then_expect_candidate_again() {
    let initial_state = arrange_initial_state(
        &initial_state_old_elders(),
        &[
            ParsecVote::ExpectCandidate(CANDIDATE_1_OLD).to_event(),
            ParsecVote::CheckResourceProof.to_event(),
            CANDIDATE_INFO_VALID_RPC_1.to_event(),
        ],
    );
    run_test(
        "Continue accepting old ExpectCandidate until candidate resource proof complete",
        &initial_state,
        &[ParsecVote::ExpectCandidate(CANDIDATE_1_OLD).to_event()],
        &[Rpc::RelocateResponse(CANDIDATE_RELOCATED_INFO_1).to_event()],
    );
}

#[test]
fn parsec_expect_candidate_with_shorter_section_exists() {
    let initial_state = arrange_initial_state(
        &initial_state_old_elders(),
        &[TestEvent::SetShortestPrefix(Some(OTHER_SECTION_1)).to_event()],
    );
    run_test(
        "Relocate candidate immediately when a section with shorter prefix exists.",
        &initial_state,
        &[ParsecVote::ExpectCandidate(CANDIDATE_1_OLD).to_event()],
        &[Rpc::ExpectCandidate(CANDIDATE_1_OLD).to_event()],
    );
}

#[test]
fn parsec_expect_candidate_then_invalid_candidate_info() {
    let initial_state = arrange_initial_state(
        &initial_state_old_elders(),
        &[
            ParsecVote::ExpectCandidate(CANDIDATE_1_OLD).to_event(),
            ParsecVote::CheckResourceProof.to_event(),
        ],
    );
    run_test(
        "Discard invalid CandidateInfo",
        &initial_state,
        &[Rpc::CandidateInfo(CandidateInfo {
            old_public_id: CANDIDATE_1_OLD,
            new_public_id: CANDIDATE_1,
            destination: OUR_NAME,
            valid: false,
        })
        .to_event()],
        &[],
    );
}

#[test]
fn parsec_expect_candidate_then_time_out() {
    let initial_state = arrange_initial_state(
        &initial_state_old_elders(),
        &[
            ParsecVote::ExpectCandidate(CANDIDATE_1_OLD).to_event(),
            ParsecVote::CheckResourceProof.to_event(),
            CANDIDATE_INFO_VALID_RPC_1.to_event(),
        ],
    );
    run_test(
        "Timeout for resource proof: Vote to fail the candidate's resource proof",
        &initial_state,
        &[LocalEvent::TimeoutAccept.to_event()],
        &[ParsecVote::PurgeCandidate(CANDIDATE_1_OLD).to_event()],
    );
}

#[test]
fn parsec_expect_candidate_then_wrong_candidate_info() {
    let initial_state = arrange_initial_state(
        &initial_state_old_elders(),
        &[
            ParsecVote::ExpectCandidate(CANDIDATE_1_OLD).to_event(),
            ParsecVote::CheckResourceProof.to_event(),
        ],
    );
    run_test(
        "Discard CandidateInfo from candidate we are not or no longer expecting",
        &initial_state,
        &[Rpc::CandidateInfo(CandidateInfo {
            old_public_id: CANDIDATE_2,
            new_public_id: CANDIDATE_2,
            destination: OUR_NAME,
            valid: true,
        })
        .to_event()],
        &[],
    );
}

#[test]
fn parsec_expect_candidate_then_candidate_info_then_part_proof() {
    let initial_state = arrange_initial_state(
        &initial_state_old_elders(),
        &[
            ParsecVote::ExpectCandidate(CANDIDATE_1_OLD).to_event(),
            ParsecVote::CheckResourceProof.to_event(),
            CANDIDATE_INFO_VALID_RPC_1.to_event(),
        ],
    );
    run_test(
        "Respond to proof from current candidate with receipt.",
        &initial_state,
        &[Rpc::ResourceProofResponse {
            candidate: CANDIDATE_1,
            destination: OUR_NAME,
            proof: Proof::ValidPart,
        }
        .to_event()],
        &[Rpc::ResourceProofReceipt { candidate: CANDIDATE_1, source: OUR_NAME }.to_event()],
    );
}

#[test]
fn parsec_expect_candidate_then_candidate_info_then_end_proof() {
    let initial_state = arrange_initial_state(
        &initial_state_old_elders(),
        &[
            ParsecVote::ExpectCandidate(CANDIDATE_1_OLD).to_event(),
            ParsecVote::CheckResourceProof.to_event(),
            CANDIDATE_INFO_VALID_RPC_1.to_event(),
        ],
    );
    run_test(
        "Vote candidate online when receiving the end of the proof and respond with receipt.",
        &initial_state,
        &[Rpc::ResourceProofResponse {
            candidate: CANDIDATE_1,
            destination: OUR_NAME,
            proof: Proof::ValidEnd,
        }
        .to_event()],
        &[
            ParsecVote::Online(CANDIDATE_1_OLD, CANDIDATE_1).to_event(),
            Rpc::ResourceProofReceipt { candidate: CANDIDATE_1, source: OUR_NAME }.to_event(),
        ],
    );
}

#[test]
fn parsec_expect_candidate_then_candidate_info_then_end_proof_twice() {
    let initial_state = arrange_initial_state(
        &initial_state_old_elders(),
        &[
            ParsecVote::ExpectCandidate(CANDIDATE_1_OLD).to_event(),
            ParsecVote::CheckResourceProof.to_event(),
            CANDIDATE_INFO_VALID_RPC_1.to_event(),
            Rpc::ResourceProofResponse {
                candidate: CANDIDATE_1,
                destination: OUR_NAME,
                proof: Proof::ValidEnd,
            }
            .to_event(),
        ],
    );
    run_test(
        "Discard further ResourceProofResponse once voted online.",
        &initial_state,
        &[Rpc::ResourceProofResponse {
            candidate: CANDIDATE_1,
            destination: OUR_NAME,
            proof: Proof::ValidEnd,
        }
        .to_event()],
        &[],
    );
}

#[test]
fn parsec_expect_candidate_then_candidate_info_then_invalid_proof() {
    let initial_state = arrange_initial_state(
        &initial_state_old_elders(),
        &[
            ParsecVote::ExpectCandidate(CANDIDATE_1_OLD).to_event(),
            ParsecVote::CheckResourceProof.to_event(),
            CANDIDATE_INFO_VALID_RPC_1.to_event(),
        ],
    );
    run_test(
        "Discard invalid proofs.",
        &initial_state,
        &[Rpc::ResourceProofResponse {
            candidate: CANDIDATE_1,
            destination: OUR_NAME,
            proof: Proof::Invalid,
        }
        .to_event()],
        &[],
    );
}

#[test]
fn parsec_expect_candidate_then_candidate_info_then_end_proof_wrong_candidate() {
    let initial_state = arrange_initial_state(
        &initial_state_old_elders(),
        &[
            ParsecVote::ExpectCandidate(CANDIDATE_1_OLD).to_event(),
            ParsecVote::CheckResourceProof.to_event(),
            CANDIDATE_INFO_VALID_RPC_1.to_event(),
        ],
    );
    run_test(
        "Discard final proof from a candidate that is not the current one.",
        &initial_state,
        &[Rpc::ResourceProofResponse {
            candidate: CANDIDATE_2,
            destination: OUR_NAME,
            proof: Proof::ValidEnd,
        }
        .to_event()],
        &[],
    );
}

#[test]
fn parsec_expect_candidate_then_purge_and_online_for_wrong_candidate() {
    let initial_state = arrange_initial_state(
        &initial_state_young_elders(),
        &[
            ParsecVote::ExpectCandidate(CANDIDATE_1_OLD).to_event(),
            ParsecVote::CheckResourceProof.to_event(),
            CANDIDATE_INFO_VALID_RPC_1.to_event(),
        ],
    );
    run_test(
        "Ignore parsec votes not for the current candidate.",
        &initial_state,
        &[
            ParsecVote::Online(CANDIDATE_2_OLD, CANDIDATE_2).to_event(),
            ParsecVote::PurgeCandidate(CANDIDATE_2_OLD).to_event(),
        ],
        &[],
    );
}

#[test]
fn rpc_merge() {
    run_test(
        "",
        &initial_state_old_elders(),
        &[Rpc::Merge(OTHER_SECTION_INFO).to_event()],
        &[ParsecVote::NeighbourMerge(OTHER_SECTION_INFO).to_event()],
    );
}

#[test]
fn parsec_neighbour_merge() {
    run_test(
        "When a neighbour Merge RPC is consensused, store its info to decide merging",
        &initial_state_old_elders(),
        &[ParsecVote::NeighbourMerge(OTHER_SECTION_INFO).to_event()],
        &[ActionTriggered::MergeInfoStored(OTHER_SECTION_INFO).to_event()],
    );
}

#[test]
fn parsec_neighbour_merge_then_check_elder() {
    let initial_state = arrange_initial_state(
        &initial_state_old_elders(),
        &[ParsecVote::NeighbourMerge(OTHER_SECTION_INFO).to_event()],
    );
    run_test(
        "When we have neighbour info, we are ready to merge on next CheckElder",
        &initial_state,
        &[ParsecVote::CheckElder.to_event()],
        &[
            Rpc::Merge(SectionInfo(OUR_SECTION, 0)).to_event(),
            ParsecVote::NewSectionInfo(MERGED_SECTION_INFO).to_event(),
        ],
    );
}

#[test]
fn parsec_merge_needed() {
    run_test(
        "Merge if we detect our section needs merging on CheckElder",
        &initial_state_old_elders(),
        &[
            TestEvent::SetChurnNeeded(ChurnNeeded::Merge).to_event(),
            ParsecVote::CheckElder.to_event(),
        ],
        &[Rpc::Merge(SectionInfo(OUR_SECTION, 0)).to_event()],
    );
}

#[test]
fn parsec_merge_sibling() {
    let initial_state = arrange_initial_state(
        &initial_state_old_elders(),
        &[
            TestEvent::SetChurnNeeded(ChurnNeeded::Merge).to_event(),
            ParsecVote::CheckElder.to_event(),
        ],
    );
    run_test(
        "Decide to merge, and then later store merge infos in ProcessMerge",
        &initial_state,
        &[ParsecVote::NeighbourMerge(OTHER_SECTION_INFO).to_event()],
        &[
            ActionTriggered::MergeInfoStored(OTHER_SECTION_INFO).to_event(),
            ParsecVote::NewSectionInfo(MERGED_SECTION_INFO).to_event(),
        ],
    );
}

#[test]
fn parsec_merge_non_sibling() {
    let initial_state = arrange_initial_state(
        &initial_state_old_elders(),
        &[
            TestEvent::SetChurnNeeded(ChurnNeeded::Merge).to_event(),
            ParsecVote::CheckElder.to_event(),
        ],
    );
    run_test(
        "Get consensus on merging with a non-sibling neighbour",
        &initial_state,
        &[ParsecVote::NeighbourMerge(REMOTE_OTHER_SECTION_INFO).to_event()],
        &[ActionTriggered::MergeInfoStored(REMOTE_OTHER_SECTION_INFO).to_event()],
    );
}

#[test]
fn parsec_new_section() {
    let initial_state = arrange_initial_state(
        &initial_state_old_elders(),
        &[
            ParsecVote::NeighbourMerge(OTHER_SECTION_INFO).to_event(),
            ParsecVote::CheckElder.to_event(),
        ],
    );
    run_test(
        "Get consensus on new section after merge and finalise",
        &initial_state,
        &[ParsecVote::NewSectionInfo(MERGED_SECTION_INFO).to_event()],
        &[
            ActionTriggered::CompleteMerge.to_event(),
            ActionTriggered::Scheduled(LocalEvent::TimeoutCheckElder).to_event(),
        ],
    );
}

#[test]
fn parsec_split_needed() {
    run_test(
        "Split if we detect our section needs splitting on CheckElder",
        &initial_state_old_elders(),
        &[
            TestEvent::SetChurnNeeded(ChurnNeeded::Split).to_event(),
            ParsecVote::CheckElder.to_event(),
        ],
        &[
            ParsecVote::NewSectionInfo(SPLIT_SECTION_INFO_1).to_event(),
            ParsecVote::NewSectionInfo(SPLIT_SECTION_INFO_2).to_event(),
        ],
    );
}

#[test]
fn parsec_split_complete() {
    let initial_state = arrange_initial_state(
        &initial_state_old_elders(),
        &[
            TestEvent::SetChurnNeeded(ChurnNeeded::Split).to_event(),
            ParsecVote::CheckElder.to_event(),
        ],
    );
    run_test(
        "Get consensus on new sections after split and finalise",
        &initial_state,
        &[
            ParsecVote::NewSectionInfo(SPLIT_SECTION_INFO_1).to_event(),
            ParsecVote::NewSectionInfo(SPLIT_SECTION_INFO_2).to_event(),
        ],
        &[
            ActionTriggered::CompleteSplit.to_event(),
            ActionTriggered::Scheduled(LocalEvent::TimeoutCheckElder).to_event(),
        ],
    );
}

#[test]
fn parsec_expect_candidate_then_online_no_elder_change() {
    let initial_state = arrange_initial_state(
        &initial_state_old_elders(),
        &[
            ParsecVote::ExpectCandidate(CANDIDATE_1_OLD).to_event(),
            ParsecVote::CheckResourceProof.to_event(),
        ],
    );
    run_test(
        "Accept a new node (No Elder Change): send RPC and schedule next ResourceProof.",
        &initial_state,
        &[
            ParsecVote::Online(CANDIDATE_1_OLD, CANDIDATE_1).to_event(),
            ParsecVote::CheckElder.to_event(),
        ],
        &[
            SET_ONLINE_NODE_1.to_event(),
            Rpc::NodeApproval(CANDIDATE_1, OUR_GENESIS_INFO).to_event(),
            ActionTriggered::Scheduled(LocalEvent::CheckResourceProofTimeout).to_event(),
            ActionTriggered::Scheduled(LocalEvent::TimeoutCheckElder).to_event(),
        ],
    );
}

#[test]
fn parsec_expect_candidate_then_online_elder_change() {
    let initial_state = arrange_initial_state(
        &initial_state_young_elders(),
        &[
            ParsecVote::ExpectCandidate(CANDIDATE_1_OLD).to_event(),
            ParsecVote::CheckResourceProof.to_event(),
        ],
    );
    run_test(
        "Accept a new node (Elder Change): send RPC and schedule next ResourceProof.",
        &initial_state,
        &[
            ParsecVote::Online(CANDIDATE_1_OLD, CANDIDATE_1).to_event(),
            ParsecVote::CheckElder.to_event(),
        ],
        &[
            SET_ONLINE_NODE_1.to_event(),
            Rpc::NodeApproval(CANDIDATE_1, OUR_GENESIS_INFO).to_event(),
            ActionTriggered::Scheduled(LocalEvent::CheckResourceProofTimeout).to_event(),
            ParsecVote::AddElderNode(NODE_1).to_event(),
            ParsecVote::RemoveElderNode(NODE_ELDER_109).to_event(),
            ParsecVote::NewSectionInfo(SECTION_INFO_1).to_event(),
        ],
    );
}

#[test]
fn parsec_expect_candidate_then_online_elder_change_get_wrong_votes() {
    let initial_state = arrange_initial_state(
        &initial_state_young_elders(),
        &[
            ParsecVote::ExpectCandidate(CANDIDATE_1_OLD).to_event(),
            ParsecVote::CheckResourceProof.to_event(),
            ParsecVote::Online(CANDIDATE_1_OLD, CANDIDATE_1).to_event(),
            ParsecVote::CheckElder.to_event(),
        ],
    );
    run_test(
        "Error if consensus unexpected votes.",
        &initial_state,
        &[
            ParsecVote::RemoveElderNode(NODE_1).to_event(),
            ParsecVote::AddElderNode(NODE_ELDER_109).to_event(),
            ParsecVote::NewSectionInfo(SECTION_INFO_2).to_event(),
        ],
        &[
            ActionTriggered::UnexpectedEventErrorTriggered.to_event(),
            ActionTriggered::UnexpectedEventErrorTriggered.to_event(),
            ActionTriggered::UnexpectedEventErrorTriggered.to_event(),
        ],
    );
}

#[test]
fn parsec_expect_candidate_then_online_elder_change_remove_elder() {
    let initial_state = arrange_initial_state(
        &initial_state_young_elders(),
        &[
            ParsecVote::ExpectCandidate(CANDIDATE_1_OLD).to_event(),
            ParsecVote::CheckResourceProof.to_event(),
            ParsecVote::Online(CANDIDATE_1_OLD, CANDIDATE_1).to_event(),
            ParsecVote::CheckElder.to_event(),
        ],
    );
    run_test(
        "Nothing change until all expected votes have happened.",
        &initial_state,
        &[ParsecVote::RemoveElderNode(NODE_ELDER_109).to_event()],
        &[],
    );
}

#[test]
fn parsec_expect_candidate_then_online_elder_change_complete_elder() {
    let initial_state = arrange_initial_state(
        &initial_state_young_elders(),
        &[
            ParsecVote::ExpectCandidate(CANDIDATE_1_OLD).to_event(),
            ParsecVote::CheckResourceProof.to_event(),
            ParsecVote::Online(CANDIDATE_1_OLD, CANDIDATE_1).to_event(),
            ParsecVote::CheckElder.to_event(),
            ParsecVote::RemoveElderNode(NODE_ELDER_109).to_event(),
        ],
    );
    run_test(
        "Once completed, update our section and elders",
        &initial_state,
        &[
            ParsecVote::AddElderNode(NODE_1).to_event(),
            ParsecVote::NewSectionInfo(SECTION_INFO_1).to_event(),
        ],
        &[
            NodeChange::Elder(NODE_1, true).to_event(),
            NodeChange::Elder(NODE_ELDER_109, false).to_event(),
            ActionTriggered::OurSectionChanged(SECTION_INFO_1).to_event(),
            ActionTriggered::Scheduled(LocalEvent::TimeoutCheckElder).to_event(),
        ],
    );
}

#[test]
fn parsec_expect_candidate_when_candidate_completed_with_elder_change_in_progress() {
    let initial_state = arrange_initial_state(
        &initial_state_young_elders(),
        &[
            ParsecVote::ExpectCandidate(CANDIDATE_1_OLD).to_event(),
            ParsecVote::CheckResourceProof.to_event(),
            ParsecVote::Online(CANDIDATE_1_OLD, CANDIDATE_1).to_event(),
            ParsecVote::CheckElder.to_event(),
        ],
    );
    let info_2 = RelocatedInfo {
        candidate: CANDIDATE_2_OLD,
        expected_age: CANDIDATE_2.0.age,
        target_interval_centre: TARGET_INTERVAL_2,
        section_info: OUR_INITIAL_SECTION_INFO,
    };
    run_test(
        "Accept new candidate even if elder where changed by first candidate joining.",
        &initial_state,
        &[
            ParsecVote::ExpectCandidate(CANDIDATE_2_OLD).to_event(),
            ParsecVote::CheckResourceProof.to_event(),
        ],
        &[
            NodeChange::AddWithState(
                Node(Attributes { name: TARGET_INTERVAL_2, age: CANDIDATE_2.0.age }),
                State::WaitingCandidateInfo(info_2),
            )
            .to_event(),
            Rpc::RelocateResponse(info_2).to_event(),
            ActionTriggered::Scheduled(LocalEvent::TimeoutAccept).to_event(),
        ],
    );
}

#[test]
fn parsec_expect_candidate_then_purge() {
    let initial_state = arrange_initial_state(
        &initial_state_young_elders(),
        &[
            ParsecVote::ExpectCandidate(CANDIDATE_1_OLD).to_event(),
            ParsecVote::CheckResourceProof.to_event(),
        ],
    );
    run_test(
        "Complete proof failing the candidate: Remove and schedule next candidate.",
        &initial_state,
        &[ParsecVote::PurgeCandidate(CANDIDATE_1_OLD).to_event()],
        &[
            REMOVE_CANDIDATE_1.to_event(),
            ActionTriggered::Scheduled(LocalEvent::CheckResourceProofTimeout).to_event(),
        ],
    );
}

#[test]
fn parsec_expect_candidate_then_candidate_info_then_purge() {
    let initial_state = arrange_initial_state(
        &initial_state_young_elders(),
        &[
            ParsecVote::ExpectCandidate(CANDIDATE_1_OLD).to_event(),
            ParsecVote::CheckResourceProof.to_event(),
            CANDIDATE_INFO_VALID_RPC_1.to_event(),
        ],
    );
    run_test(
        "Complete proof failing the candidate: Remove and schedule next candidate.",
        &initial_state,
        &[ParsecVote::PurgeCandidate(CANDIDATE_1_OLD).to_event()],
        &[
            REMOVE_CANDIDATE_1.to_event(),
            ActionTriggered::Scheduled(LocalEvent::CheckResourceProofTimeout).to_event(),
        ],
    );
}

#[test]
fn parsec_expect_candidate_twice() {
    let initial_state = arrange_initial_state(
        &initial_state_young_elders(),
        &[
            ParsecVote::ExpectCandidate(CANDIDATE_1_OLD).to_event(),
            ParsecVote::CheckResourceProof.to_event(),
            CANDIDATE_INFO_VALID_RPC_1.to_event(),
        ],
    );
    run_test(
        "Refuse new candidate if first not completed",
        &initial_state,
        &[ParsecVote::ExpectCandidate(CANDIDATE_2_OLD).to_event()],
        &[Rpc::RefuseCandidate(CANDIDATE_2_OLD).to_event()],
    );
}

#[test]
fn parsec_unexpected_purge_online() {
    run_test(
        "Get unexpected Parsec consensus Online and PurgeCandidate.",
        &initial_state_old_elders(),
        &[
            ParsecVote::Online(CANDIDATE_1_OLD, CANDIDATE_1).to_event(),
            ParsecVote::PurgeCandidate(CANDIDATE_1_OLD).to_event(),
        ],
        &[],
    );
}

#[test]
fn rpc_unexpected_candidate_info_resource_proof_response() {
    run_test(
        "Get unexpected RPC CandidateInfo and ResourceProofResponse.",
        &initial_state_old_elders(),
        &[
            CANDIDATE_INFO_VALID_RPC_1.to_event(),
            Rpc::ResourceProofResponse {
                candidate: CANDIDATE_1,
                destination: OUR_NAME,
                proof: Proof::ValidEnd,
            }
            .to_event(),
        ],
        &[],
    );
}

#[test]
fn local_events_offline_online_again_for_different_nodes() {
    run_test(
        "Get local event node detected offline online again different nodes",
        &initial_state_old_elders(),
        &[
            LocalEvent::NodeDetectedOffline(NODE_ELDER_130).to_event(),
            LocalEvent::NodeDetectedBackOnline(NODE_ELDER_131).to_event(),
        ],
        &[
            ParsecVote::Offline(NODE_ELDER_130).to_event(),
            ParsecVote::BackOnline(NODE_ELDER_131).to_event(),
        ],
    );
}

#[test]
fn parsec_offline() {
    run_test(
        "Change node state when consensus offline.",
        &initial_state_old_elders(),
        &[ParsecVote::Offline(NODE_ELDER_130).to_event()],
        &[NodeChange::State(NODE_ELDER_130, State::Offline).to_event()],
    );
}

#[test]
fn parsec_offline_then_check_elder() {
    let initial_state = arrange_initial_state(
        &initial_state_old_elders(),
        &[ParsecVote::Offline(NODE_ELDER_130).to_event()],
    );
    run_test(
        "On CheckElder, initiate removing offline elder from the SectionInfo.",
        &initial_state,
        &[ParsecVote::CheckElder.to_event()],
        &[
            ParsecVote::AddElderNode(YOUNG_ADULT_205).to_event(),
            ParsecVote::RemoveElderNode(NODE_ELDER_130).to_event(),
            ParsecVote::NewSectionInfo(SECTION_INFO_1).to_event(),
        ],
    );
}

#[test]
fn parsec_offline_then_parsec_online() {
    let initial_state = arrange_initial_state(
        &initial_state_old_elders(),
        &[ParsecVote::Offline(NODE_ELDER_130).to_event()],
    );
    run_test(
        "Relocate nodes coming back online.",
        &initial_state,
        &[ParsecVote::BackOnline(NODE_ELDER_130).to_event()],
        &[NodeChange::State(NODE_ELDER_130, State::RelocatingBackOnline).to_event()],
    );
}

#[test]
fn local_event_time_out_work_unit() {
    run_test(
        "Work unit timer and vote together to keep span consistent.",
        &initial_state_old_elders(),
        &[LocalEvent::TimeoutWorkUnit.to_event()],
        &[
            ParsecVote::WorkUnitIncrement.to_event(),
            ActionTriggered::Scheduled(LocalEvent::TimeoutWorkUnit).to_event(),
        ],
    );
}

#[test]
fn start_relocation() {
    run_test(
        "When work unit is sufficient, CheckRelocate initiate relocating non elder node.",
        &initial_state_old_elders(),
        &[
            TestEvent::SetWorkUnitEnoughToRelocate(YOUNG_ADULT_205).to_event(),
            ParsecVote::WorkUnitIncrement.to_event(),
            ParsecVote::CheckRelocate.to_event(),
        ],
        &[
            ActionTriggered::WorkUnitIncremented.to_event(),
            NodeChange::State(YOUNG_ADULT_205, State::RelocatingAgeIncrease).to_event(),
            Rpc::ExpectCandidate(CANDIDATE_205).to_event(),
        ],
    );
}

#[test]
fn parsec_check_work_unit_increment_has_no_effect_if_relocating_node() {
    let initial_state = arrange_initial_state(
        &initial_state_old_elders(),
        &[
            TestEvent::SetWorkUnitEnoughToRelocate(YOUNG_ADULT_205).to_event(),
            ParsecVote::WorkUnitIncrement.to_event(),
            TestEvent::SetWorkUnitEnoughToRelocate(NODE_ELDER_130).to_event(),
        ],
    );
    run_test(
        "Additional WorkUnitIncrement does not trigger a new relocate if one started",
        &initial_state,
        &[ParsecVote::WorkUnitIncrement.to_event()],
        &[ActionTriggered::WorkUnitIncremented.to_event()],
    );
}

#[test]
fn parsec_check_get_node_to_relocate_uses_online_nodes_only() {
    let all_non_online_states = vec![
        State::RelocatingAgeIncrease,
        State::RelocatingHop,
        State::RelocatingBackOnline,
        State::Relocated(get_relocated_info(CANDIDATE_1_OLD, SECTION_INFO_1)),
        State::WaitingCandidateInfo(get_relocated_info(CANDIDATE_2_OLD, SECTION_INFO_2)),
        State::WaitingProofing,
        State::Offline,
    ];
    let age = CANDIDATE_1_OLD.0.age;
    let states_with_enough_work_units: Vec<NodeState> = all_non_online_states
        .into_iter()
        .enumerate()
        .map(|(name_increment, state)| NodeState {
            node: Node(Attributes { name: Name(1000 + name_increment as i32), age }),
            is_elder: false,
            work_units_done: age.0,
            state,
        })
        .collect();
    let inner_action =
        inner_action_young_elders().extend_current_nodes(&states_with_enough_work_units);
    let initial_state = MemberState { action: Action::new(inner_action), ..Default::default() };
    run_test(
        "Check get_node_to_relocate doesn't choose anything but 'Online' nodes",
        &initial_state,
        &[ParsecVote::WorkUnitIncrement.to_event()],
        &[ActionTriggered::WorkUnitIncremented.to_event()],
    );
}

#[test]
fn parsec_check_relocate_trigger_again_no_retry() {
    let initial_state = arrange_initial_state(
        &initial_state_old_elders(),
        &[
            TestEvent::SetWorkUnitEnoughToRelocate(YOUNG_ADULT_205).to_event(),
            ParsecVote::WorkUnitIncrement.to_event(),
            ParsecVote::CheckRelocate.to_event(),
        ],
    );
    run_test(
        "Additional CheckRelocate do not trigger a resend",
        &initial_state,
        &[ParsecVote::CheckRelocate.to_event(), ParsecVote::CheckRelocate.to_event()],
        &[],
    );
}

#[test]
fn parsec_relocation_trigger_again_until_retry() {
    let initial_state = arrange_initial_state(
        &initial_state_old_elders(),
        &[
            TestEvent::SetWorkUnitEnoughToRelocate(YOUNG_ADULT_205).to_event(),
            ParsecVote::WorkUnitIncrement.to_event(),
            ParsecVote::CheckRelocate.to_event(),
            ParsecVote::CheckRelocate.to_event(),
            ParsecVote::CheckRelocate.to_event(),
        ],
    );
    run_test(
        "Enough additional CheckRelocate trigger a resend",
        &initial_state,
        &[ParsecVote::CheckRelocate.to_event()],
        &[Rpc::ExpectCandidate(CANDIDATE_205).to_event()],
    );
}

#[test]
fn parsec_check_relocate_trigger_again_with_relocating_hop_and_back_online() {
    let initial_state = MemberState {
        action: Action::new(
            inner_action_old_elders()
                .extend_current_nodes_with(
                    &NodeState { state: State::RelocatingHop, ..NodeState::default() },
                    &[NODE_1_OLD],
                )
                .extend_current_nodes_with(
                    &NodeState { state: State::RelocatingBackOnline, ..NodeState::default() },
                    &[NODE_2, NODE_2_OLD, NODE_1],
                ),
        ),
        ..MemberState::default()
    };
    run_test(
        "Relocated nodes are relocated AgeIncrease, then Hop, then BackOnline, break tie by age then name",
        &initial_state,
        &[
            TestEvent::SetWorkUnitEnoughToRelocate(YOUNG_ADULT_205).to_event(),
            ParsecVote::WorkUnitIncrement.to_event(),
            ParsecVote::CheckRelocate.to_event(),
            ParsecVote::CheckRelocate.to_event(),
            ParsecVote::CheckRelocate.to_event(),
            ParsecVote::CheckRelocate.to_event(),
        ],
        &[
            ActionTriggered::WorkUnitIncremented.to_event(),
            NodeChange::State(YOUNG_ADULT_205, State::RelocatingAgeIncrease).to_event(),
            Rpc::ExpectCandidate(CANDIDATE_205).to_event(),
            Rpc::ExpectCandidate(CANDIDATE_1_OLD).to_event(),
            Rpc::ExpectCandidate(CANDIDATE_2).to_event(),
            Rpc::ExpectCandidate(CANDIDATE_205).to_event(),
        ],
    );
}

#[test]
fn parsec_relocate_trigger_elder_change() {
    run_test(
        "Work unit trigger relocation (Elder Change): Update Elders and relocate only after.",
        &initial_state_old_elders(),
        &[
            TestEvent::SetWorkUnitEnoughToRelocate(NODE_ELDER_130).to_event(),
            ParsecVote::WorkUnitIncrement.to_event(),
            ParsecVote::CheckRelocate.to_event(),
            ParsecVote::CheckElder.to_event(),
        ],
        &[
            ActionTriggered::WorkUnitIncremented.to_event(),
            NodeChange::State(NODE_ELDER_130, State::RelocatingAgeIncrease).to_event(),
            ParsecVote::AddElderNode(YOUNG_ADULT_205).to_event(),
            ParsecVote::RemoveElderNode(NODE_ELDER_130).to_event(),
            ParsecVote::NewSectionInfo(SECTION_INFO_1).to_event(),
        ],
    );
}

#[test]
fn parsec_relocate_trigger_elder_change_complete() {
    let initial_state = arrange_initial_state(
        &initial_state_old_elders(),
        &[
            TestEvent::SetWorkUnitEnoughToRelocate(NODE_ELDER_130).to_event(),
            ParsecVote::WorkUnitIncrement.to_event(),
            ParsecVote::CheckElder.to_event(),
        ],
    );
    run_test(
        "Work unit trigger relocation (Elder Change): Update Elders and relocate only after.",
        &initial_state,
        &[
            ParsecVote::RemoveElderNode(NODE_ELDER_130).to_event(),
            ParsecVote::AddElderNode(YOUNG_ADULT_205).to_event(),
            ParsecVote::NewSectionInfo(SECTION_INFO_1).to_event(),
            ParsecVote::CheckRelocate.to_event(),
        ],
        &[
            NodeChange::Elder(YOUNG_ADULT_205, true).to_event(),
            NodeChange::Elder(NODE_ELDER_130, false).to_event(),
            ActionTriggered::OurSectionChanged(SECTION_INFO_1).to_event(),
            ActionTriggered::Scheduled(LocalEvent::TimeoutCheckElder).to_event(),
            Rpc::ExpectCandidate(CANDIDATE_130).to_event(),
        ],
    );
}

#[test]
fn parsec_relocation_trigger_refuse_candidate_rpc() {
    let initial_state = arrange_initial_state(
        &initial_state_old_elders(),
        &[
            TestEvent::SetWorkUnitEnoughToRelocate(YOUNG_ADULT_205).to_event(),
            ParsecVote::WorkUnitIncrement.to_event(),
            ParsecVote::CheckRelocate.to_event(),
        ],
    );
    run_test(
        "Vote for RPC to be processed",
        &initial_state,
        &[Rpc::RefuseCandidate(CANDIDATE_205).to_event()],
        &[ParsecVote::RefuseCandidate(CANDIDATE_205).to_event()],
    );
}

#[test]
fn parsec_relocation_trigger_relocate_response_rpc() {
    let initial_state = arrange_initial_state(
        &initial_state_old_elders(),
        &[
            TestEvent::SetWorkUnitEnoughToRelocate(YOUNG_ADULT_205).to_event(),
            ParsecVote::WorkUnitIncrement.to_event(),
            ParsecVote::CheckRelocate.to_event(),
        ],
    );
    run_test(
        "Vote for RPC to be processed",
        &initial_state,
        &[Rpc::RelocateResponse(get_relocated_info(CANDIDATE_205, DST_SECTION_INFO_200)).to_event()],
        &[ParsecVote::RelocateResponse(get_relocated_info(CANDIDATE_205, DST_SECTION_INFO_200))
            .to_event()],
    );
}

#[test]
fn parsec_relocation_trigger_accept() {
    let initial_state = arrange_initial_state(
        &initial_state_old_elders(),
        &[
            TestEvent::SetWorkUnitEnoughToRelocate(YOUNG_ADULT_205).to_event(),
            ParsecVote::WorkUnitIncrement.to_event(),
            ParsecVote::CheckRelocate.to_event(),
        ],
    );
    let info = get_relocated_info(CANDIDATE_205, DST_SECTION_INFO_200);
    run_test(
        "When RelocateResponse, update node state and vote for RelocatedInfo.",
        &initial_state,
        &[
            ParsecVote::RelocateResponse(info).to_event(),
            ParsecVote::RelocatedInfo(info).to_event(),
        ],
        &[
            NodeChange::State(YOUNG_ADULT_205, State::Relocated(info)).to_event(),
            ParsecVote::RelocatedInfo(info).to_event(),
            Rpc::RelocatedInfo(info).to_event(),
            NodeChange::Remove(YOUNG_ADULT_205.name()).to_event(),
        ],
    );
}

#[test]
fn parsec_relocation_trigger_refuse() {
    let initial_state = arrange_initial_state(
        &initial_state_old_elders(),
        &[
            TestEvent::SetWorkUnitEnoughToRelocate(YOUNG_ADULT_205).to_event(),
            ParsecVote::WorkUnitIncrement.to_event(),
            ParsecVote::CheckRelocate.to_event(),
        ],
    );
    run_test(
        "On refuse, only get ready to resend ExpectCandidate on next check.",
        &initial_state,
        &[ParsecVote::RefuseCandidate(CANDIDATE_205).to_event()],
        &[],
    );
}

#[test]
fn parsec_relocation_trigger_refuse_trigger_again() {
    let initial_state = arrange_initial_state(
        &initial_state_old_elders(),
        &[
            TestEvent::SetWorkUnitEnoughToRelocate(YOUNG_ADULT_205).to_event(),
            ParsecVote::WorkUnitIncrement.to_event(),
            ParsecVote::CheckRelocate.to_event(),
            ParsecVote::RefuseCandidate(CANDIDATE_205).to_event(),
        ],
    );
    run_test(
        "On next check after refuse, re-send ExpectCandidate.",
        &initial_state,
        &[ParsecVote::CheckRelocate.to_event()],
        &[Rpc::ExpectCandidate(CANDIDATE_205).to_event()],
    );
}

#[test]
fn parsec_relocation_trigger_elder_change_refuse_trigger_again() {
    let initial_state = arrange_initial_state(
        &initial_state_old_elders(),
        &[
            TestEvent::SetWorkUnitEnoughToRelocate(NODE_ELDER_130).to_event(),
            ParsecVote::WorkUnitIncrement.to_event(),
            ParsecVote::CheckElder.to_event(),
            ParsecVote::RemoveElderNode(NODE_ELDER_130).to_event(),
            ParsecVote::AddElderNode(YOUNG_ADULT_205).to_event(),
            ParsecVote::NewSectionInfo(SECTION_INFO_1).to_event(),
            ParsecVote::CheckRelocate.to_event(),
            ParsecVote::RefuseCandidate(CANDIDATE_130).to_event(),
        ],
    );
    run_test(
        "On next check after refuse, re-send ExpectCandidate for a node that was elder.",
        &initial_state,
        &[ParsecVote::CheckRelocate.to_event()],
        &[Rpc::ExpectCandidate(CANDIDATE_130).to_event()],
    );
}

#[test]
fn unexpected_refuse_or_accept_candidate() {
    run_test(
        "Vote for unexpected responses to ExpectCandidate as we may be lagging.",
        &initial_state_old_elders(),
        &[
            Rpc::RefuseCandidate(CANDIDATE_205).to_event(),
            Rpc::RelocateResponse(get_relocated_info(CANDIDATE_205, DST_SECTION_INFO_200)).to_event(),
        ],
        &[
            ParsecVote::RefuseCandidate(CANDIDATE_205).to_event(),
            ParsecVote::RelocateResponse(get_relocated_info(CANDIDATE_205, DST_SECTION_INFO_200))
                .to_event(),
        ],
    );
}

fn process_joining_events(mut state: JoiningState, events: &[Event]) -> JoiningState {
    for event in events.iter().cloned() {
        if TryResult::Unhandled == state.try_next(event) {
            state.failure_event(event);
        }
        if state.failure.is_some() {
            break;
        }
    }
    state
}

fn run_joining_test(
    test_name: &str,
    start_state: &JoiningState,
    events: &[Event],
    expected_events: &[Event],
    expected_output: Option<GenesisPfxInfo>,
) {
    let final_state = process_joining_events(start_state.clone(), events);
    let action = final_state.action.inner();
    assert_eq!(
        ((expected_events.to_vec(), expected_output), None),
        ((action.our_events, final_state.join_routine.routine_complete_output), final_state.failure),
        "{}",
        test_name
    );
}

fn arrange_initial_joining_state(state: &JoiningState, events: &[Event]) -> JoiningState {
    let mut state = process_joining_events(state.clone(), events);
    state.action.remove_processed_state();
    state
}

fn initial_joining_state_with_dst_200() -> JoiningState {
    JoiningState { action: Action::new(inner_action_with_dst_section_200()), ..Default::default() }
}

fn connection_info_request(destination: Name) -> Event {
    Rpc::ConnectionInfoRequest { source: OUR_NAME, destination, connection_info: OUR_NAME.0 }
        .to_event()
}

/// Not yet connected to any elder of the destination: ask each of them for
/// its connection info.
fn requests_to_dst_200_elders() -> Vec<Event> {
    vec![
        connection_info_request(NODE_ELDER_109.name()),
        connection_info_request(NAME_110),
        connection_info_request(NAME_111),
    ]
}

#[test]
fn joining_start() {
    let mut initial_state = initial_joining_state_with_dst_200();
    initial_state.start(CANDIDATE_RELOCATED_INFO_132);
    let mut expected = requests_to_dst_200_elders();
    expected.push(ActionTriggered::Scheduled(LocalEvent::JoiningTimeoutResendInfo).to_event());
    expected.push(ActionTriggered::Scheduled(LocalEvent::JoiningTimeoutProofRefused).to_event());
    run_joining_test("", &initial_state, &[], &expected, None);
}

#[test]
fn joining_resend_timeout() {
    let mut initial_state = initial_joining_state_with_dst_200();
    initial_state.start(CANDIDATE_RELOCATED_INFO_132);
    let initial_state = arrange_initial_joining_state(&initial_state, &[]);
    let mut expected = requests_to_dst_200_elders();
    expected.push(ActionTriggered::Scheduled(LocalEvent::JoiningTimeoutResendInfo).to_event());
    run_joining_test(
        "When not yet connected, ask again for connection info.",
        &initial_state,
        &[LocalEvent::JoiningTimeoutResendInfo.to_event()],
        &expected,
        None,
    );
}

#[test]
fn joining_receive_two_connection_info() {
    let mut initial_state = initial_joining_state_with_dst_200();
    initial_state.start(CANDIDATE_RELOCATED_INFO_132);
    let initial_state = arrange_initial_joining_state(&initial_state, &[]);
    run_joining_test(
        "Connection info requests are not acted on by a joining node.",
        &initial_state,
        &[
            Rpc::ConnectionInfoRequest {
                source: NAME_110,
                destination: OUR_NAME,
                connection_info: NAME_110.0,
            }
            .to_event(),
            Rpc::ConnectionInfoRequest {
                source: NAME_111,
                destination: OUR_NAME,
                connection_info: NAME_111.0,
            }
            .to_event(),
        ],
        &[],
        None,
    );
}

#[test]
fn joining_receive_node_connected() {
    let mut initial_state = initial_joining_state_with_dst_200();
    initial_state.start(CANDIDATE_RELOCATED_INFO_132);
    let initial_state = arrange_initial_joining_state(&initial_state, &[]);
    run_joining_test(
        "NodeConnected is not acted on by a joining node.",
        &initial_state,
        &[Rpc::NodeConnected(OUR_NODE_CANDIDATE, GenesisPfxInfo(DST_SECTION_INFO_200)).to_event()],
        &[],
        None,
    );
}

#[test]
fn joining_receive_two_resource_proof() {
    let mut initial_state = initial_joining_state_with_dst_200();
    initial_state.start(CANDIDATE_RELOCATED_INFO_132);
    let initial_state = arrange_initial_joining_state(
        &initial_state,
        &[Rpc::NodeConnected(OUR_NODE_CANDIDATE, GenesisPfxInfo(DST_SECTION_INFO_200)).to_event()],
    );
    run_joining_test(
        "Start computing resource proof when receiving ResourceProof RPC.",
        &initial_state,
        &[
            Rpc::ResourceProof {
                candidate: OUR_NODE_CANDIDATE,
                source: NAME_111,
                proof: ProofRequest { value: NAME_111.0 },
            }
            .to_event(),
            Rpc::ResourceProof {
                candidate: OUR_NODE_CANDIDATE,
                source: NAME_110,
                proof: ProofRequest { value: NAME_111.0 },
            }
            .to_event(),
        ],
        &[
            ActionTriggered::ComputeResourceProofForElder(NAME_111).to_event(),
            ActionTriggered::ComputeResourceProofForElder(NAME_110).to_event(),
        ],
        None,
    );
}

#[test]
fn joining_computed_two_proofs() {
    let mut initial_state = initial_joining_state_with_dst_200();
    initial_state.start(CANDIDATE_RELOCATED_INFO_132);
    let initial_state = arrange_initial_joining_state(
        &initial_state,
        &[Rpc::NodeConnected(OUR_NODE_CANDIDATE, GenesisPfxInfo(DST_SECTION_INFO_200)).to_event()],
    );
    run_joining_test(
        "When proof computed, start sending response to correct Elder.",
        &initial_state,
        &[
            TestEvent::SetResourceProof(NAME_111, ProofSource(2)).to_event(),
            LocalEvent::ResourceProofForElderReady(NAME_111).to_event(),
            TestEvent::SetResourceProof(NAME_110, ProofSource(2)).to_event(),
            LocalEvent::ResourceProofForElderReady(NAME_110).to_event(),
        ],
        &[
            Rpc::ResourceProofResponse {
                candidate: OUR_NODE_CANDIDATE,
                destination: NAME_111,
                proof: Proof::ValidPart,
            }
            .to_event(),
            Rpc::ResourceProofResponse {
                candidate: OUR_NODE_CANDIDATE,
                destination: NAME_110,
                proof: Proof::ValidPart,
            }
            .to_event(),
        ],
        None,
    );
}

#[test]
fn joining_got_part_proof_receipt() {
    let mut initial_state = initial_joining_state_with_dst_200();
    initial_state.start(CANDIDATE_RELOCATED_INFO_132);
    let initial_state = arrange_initial_joining_state(
        &initial_state,
        &[
            Rpc::NodeConnected(OUR_NODE_CANDIDATE, GenesisPfxInfo(DST_SECTION_INFO_200)).to_event(),
            Rpc::ResourceProof {
                candidate: OUR_NODE_CANDIDATE,
                source: NAME_111,
                proof: ProofRequest { value: NAME_111.0 },
            }
            .to_event(),
            TestEvent::SetResourceProof(NAME_111, ProofSource(2)).to_event(),
            LocalEvent::ResourceProofForElderReady(NAME_111).to_event(),
        ],
    );
    run_joining_test(
        "On receiving receipt, send the next part of the proof to that Elder.",
        &initial_state,
        &[Rpc::ResourceProofReceipt { candidate: OUR_NODE_CANDIDATE, source: NAME_111 }.to_event()],
        &[Rpc::ResourceProofResponse {
            candidate: OUR_NODE_CANDIDATE,
            destination: NAME_111,
            proof: Proof::ValidPart,
        }
        .to_event()],
        None,
    );
}

#[test]
fn joining_got_end_proof_receipt() {
    let mut initial_state = initial_joining_state_with_dst_200();
    initial_state.start(CANDIDATE_RELOCATED_INFO_132);
    let initial_state = arrange_initial_joining_state(
        &initial_state,
        &[
            Rpc::NodeConnected(OUR_NODE_CANDIDATE, GenesisPfxInfo(DST_SECTION_INFO_200)).to_event(),
            Rpc::ResourceProof {
                candidate: OUR_NODE_CANDIDATE,
                source: NAME_111,
                proof: ProofRequest { value: NAME_111.0 },
            }
            .to_event(),
            TestEvent::SetResourceProof(NAME_111, ProofSource(2)).to_event(),
            LocalEvent::ResourceProofForElderReady(NAME_111).to_event(),
            Rpc::ResourceProofReceipt { candidate: OUR_NODE_CANDIDATE, source: NAME_111 }.to_event(),
        ],
    );
    run_joining_test(
        "A stream of two parts and an end: the second receipt brings the end.",
        &initial_state,
        &[Rpc::ResourceProofReceipt { candidate: OUR_NODE_CANDIDATE, source: NAME_111 }.to_event()],
        &[Rpc::ResourceProofResponse {
            candidate: OUR_NODE_CANDIDATE,
            destination: NAME_111,
            proof: Proof::ValidEnd,
        }
        .to_event()],
        None,
    );
}

#[test]
fn joining_resend_timeout_one_proof_completed_one_in_progress() {
    let mut initial_state = initial_joining_state_with_dst_200();
    initial_state.start(CANDIDATE_RELOCATED_INFO_132);
    let initial_state = arrange_initial_joining_state(
        &initial_state,
        &[
            Rpc::NodeConnected(OUR_NODE_CANDIDATE, GenesisPfxInfo(DST_SECTION_INFO_200)).to_event(),
            TestEvent::SetResourceProof(NAME_111, ProofSource(2)).to_event(),
            LocalEvent::ResourceProofForElderReady(NAME_111).to_event(),
            TestEvent::SetResourceProof(NAME_110, ProofSource(2)).to_event(),
            LocalEvent::ResourceProofForElderReady(NAME_110).to_event(),
            Rpc::ResourceProofReceipt { candidate: OUR_NODE_CANDIDATE, source: NAME_111 }.to_event(),
            Rpc::ResourceProofReceipt { candidate: OUR_NODE_CANDIDATE, source: NAME_111 }.to_event(),
        ],
    );
    let mut expected = requests_to_dst_200_elders();
    expected.push(ActionTriggered::Scheduled(LocalEvent::JoiningTimeoutResendInfo).to_event());
    expected.extend(requests_to_dst_200_elders());
    expected.push(ActionTriggered::Scheduled(LocalEvent::JoiningTimeoutResendInfo).to_event());
    run_joining_test(
        "The resend timeout asks again every elder not yet connected.",
        &initial_state,
        &[
            LocalEvent::JoiningTimeoutResendInfo.to_event(),
            LocalEvent::JoiningTimeoutResendInfo.to_event(),
        ],
        &expected,
        None,
    );
}

#[test]
fn joining_approved() {
    let mut initial_state = initial_joining_state_with_dst_200();
    initial_state.start(CANDIDATE_RELOCATED_INFO_132);
    let initial_state = arrange_initial_joining_state(&initial_state, &[]);
    run_joining_test(
        "On NodeApproval: complete the routine work.",
        &initial_state,
        &[Rpc::NodeApproval(OUR_NODE_CANDIDATE, GenesisPfxInfo(DST_SECTION_INFO_200)).to_event()],
        &[],
        Some(GenesisPfxInfo(DST_SECTION_INFO_200)),
    );
}

#[test]
fn joining_connection_info_response_then_candidate_info() {
    let mut initial_state = initial_joining_state_with_dst_200();
    initial_state.start(CANDIDATE_RELOCATED_INFO_132);
    let initial_state = arrange_initial_joining_state(&initial_state, &[]);
    let candidate_info = Rpc::CandidateInfo(CandidateInfo {
        old_public_id: OUR_NODE_CANDIDATE_OLD,
        new_public_id: OUR_NODE_CANDIDATE,
        destination: TARGET_INTERVAL_1,
        valid: true,
    })
    .to_event();
    run_joining_test(
        "Once an elder answers with its connection info, hand it our identity; \
         the next resend goes to it directly.",
        &initial_state,
        &[
            Rpc::ConnectionInfoResponse { source: NAME_110, destination: OUR_NAME, connection_info: 110 }
                .to_event(),
            LocalEvent::JoiningTimeoutResendInfo.to_event(),
        ],
        &[
            candidate_info,
            connection_info_request(NODE_ELDER_109.name()),
            connection_info_request(NAME_111),
            candidate_info,
            ActionTriggered::Scheduled(LocalEvent::JoiningTimeoutResendInfo).to_event(),
        ],
        None,
    );
}

#[test]
fn candidate_admission_at_destination() {
    let events = [
        ParsecVote::ExpectCandidate(CANDIDATE_1_OLD).to_event(),
        ParsecVote::CheckResourceProof.to_event(),
        ParsecVote::Online(CANDIDATE_1_OLD, CANDIDATE_1).to_event(),
        ParsecVote::CheckElder.to_event(),
    ];
    let state = process_events(initial_state_old_elders(), &events);
    assert_eq!(state.failure, None);
    let new_node = state.action.node_state(Name(1)).unwrap();
    assert_eq!(new_node.node, NODE_1);
    assert_eq!(new_node.state, State::Online);
    let journal = state.action.inner().our_events;
    assert!(journal.contains(&Rpc::RelocateResponse(CANDIDATE_RELOCATED_INFO_1).to_event()));
    assert!(journal.contains(&Rpc::NodeApproval(CANDIDATE_1, OUR_GENESIS_INFO).to_event()));
    assert!(state.action.node_state(TARGET_INTERVAL_1).is_none());

    // With the candidate's info in between, the proof request goes out too.
    let with_info = [
        events[0],
        events[1],
        CANDIDATE_INFO_VALID_RPC_1.to_event(),
        events[2],
        events[3],
    ];
    let state = process_events(initial_state_old_elders(), &with_info);
    let journal = state.action.inner().our_events;
    assert!(journal.contains(
        &Rpc::ResourceProof { candidate: CANDIDATE_1, source: OUR_NAME, proof: OUR_PROOF_REQUEST }
            .to_event()
    ));
    assert!(journal.contains(&Rpc::NodeApproval(CANDIDATE_1, OUR_GENESIS_INFO).to_event()));
    assert_eq!(state.action.node_state(Name(1)).unwrap().state, State::Online);
}

#[test]
fn shorter_prefix_forwards_and_never_admits() {
    let state = process_events(
        initial_state_old_elders(),
        &[
            TestEvent::SetShortestPrefix(Some(OTHER_SECTION_1)).to_event(),
            ParsecVote::ExpectCandidate(CANDIDATE_1_OLD).to_event(),
            ParsecVote::ExpectCandidate(CANDIDATE_1_OLD).to_event(),
        ],
    );
    assert_eq!(
        state.action.inner().our_events,
        vec![
            Rpc::ExpectCandidate(CANDIDATE_1_OLD).to_event(),
            Rpc::ExpectCandidate(CANDIDATE_1_OLD).to_event(),
        ]
    );
    assert_eq!(state.action.inner().our_current_nodes.len(), 4);
    assert_eq!(state.action.count_waiting_proofing_or_hop(), 0);
    assert_eq!(state.action.inner().next_target_interval, TARGET_INTERVAL_1);
}

#[test]
fn elder_change_on_online_updates_section_and_flags() {
    let state = process_events(
        initial_state_young_elders(),
        &[
            ParsecVote::ExpectCandidate(CANDIDATE_1_OLD).to_event(),
            ParsecVote::CheckResourceProof.to_event(),
            ParsecVote::Online(CANDIDATE_1_OLD, CANDIDATE_1).to_event(),
            ParsecVote::CheckElder.to_event(),
            ParsecVote::RemoveElderNode(NODE_ELDER_109).to_event(),
            ParsecVote::AddElderNode(NODE_1).to_event(),
            ParsecVote::NewSectionInfo(SECTION_INFO_1).to_event(),
        ],
    );
    assert_eq!(state.failure, None);
    assert_eq!(state.action.our_section(), SECTION_INFO_1);
    assert_eq!(state.action.our_section().1, 1);
    assert!(state.action.node_state(Name(1)).unwrap().is_elder);
    assert!(!state.action.node_state(Name(109)).unwrap().is_elder);
    let elders = state.action.inner().our_current_nodes.iter().filter(|ns| ns.is_elder).count();
    assert_eq!(elders, 3);
}

#[test]
fn joining_receipt_after_end_sends_nothing() {
    let mut initial_state = initial_joining_state_with_dst_200();
    initial_state.start(CANDIDATE_RELOCATED_INFO_132);
    let receipt =
        Rpc::ResourceProofReceipt { candidate: OUR_NODE_CANDIDATE, source: NAME_111 }.to_event();
    let initial_state = arrange_initial_joining_state(
        &initial_state,
        &[
            TestEvent::SetResourceProof(NAME_111, ProofSource(2)).to_event(),
            LocalEvent::ResourceProofForElderReady(NAME_111).to_event(),
            receipt,
            receipt,
        ],
    );
    run_joining_test(
        "On receiving receipt for end, do not send anymore.",
        &initial_state,
        &[receipt],
        &[],
        None,
    );
}
