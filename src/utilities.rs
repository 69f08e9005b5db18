use vstd::prelude::*;

verus! {

/// A node's address in the overlay; also the key of the node table.
#[derive(Debug, Clone, Copy, Default, PartialEq, Eq, Structural)]
pub struct Name(pub i32);

/// A node's age; older nodes are preferred as elders.
#[derive(Debug, Clone, Copy, Default, PartialEq, Eq, Structural)]
pub struct Age(pub i32);

impl Age {
    pub fn increment_by_one(self) -> (r: Age)
        requires
            self.0 < i32::MAX,
        ensures
            r.0 == self.0 + 1,
    {
        Age(self.0 + 1)
    }
}

#[derive(Debug, Clone, Copy, Default, PartialEq, Eq, Structural)]
pub struct Attributes {
    pub age: Age,
    pub name: Name,
}

/// A node in transit between two sections.
#[derive(Debug, Clone, Copy, PartialEq, Eq, Structural)]
pub struct Candidate(pub Attributes);

impl Candidate {
    pub fn name(self) -> (r: Name)
        ensures
            r == self.0.name,
    {
        self.0.name
    }
}

#[derive(Debug, Clone, Copy, Default, PartialEq, Eq, Structural)]
pub struct Node(pub Attributes);

impl Node {
    pub fn name(self) -> (r: Name)
        ensures
            r == self.0.name,
    {
        self.0.name
    }
}

/// A change of the node table, as recorded in the journal.
#[derive(Debug, Clone, Copy, PartialEq, Eq, Structural)]
pub enum NodeChange {
    AddWithState(Node, State),
    ReplaceWith(Name, Node, State),
    State(Node, State),
    Remove(Name),
    Elder(Node, bool),
}

impl NodeChange {
    pub fn to_event(self) -> (r: Event)
        ensures
            r == Event::NodeChange(self),
    {
        Event::NodeChange(self)
    }
}

/// The ticket a destination section hands to a candidate it admits.
#[derive(Debug, Clone, Copy, PartialEq, Eq, Structural)]
pub struct RelocatedInfo {
    pub candidate: Candidate,
    pub expected_age: Age,
    pub target_interval_centre: Name,
    pub section_info: SectionInfo,
}

impl RelocatedInfo {
    pub fn old_public_id(&self) -> (r: Candidate)
        ensures
            r == self.candidate,
    {
        self.candidate
    }
}

/// Lifecycle tag of a section member. The order of the variants matters:
/// `Online` comes first so that online nodes are chosen as elders first.
#[derive(Debug, Clone, Copy, PartialEq, Eq, Structural)]
pub enum State {
    /// A full member that is connected.
    Online,
    /// An adult that has done enough work to be relocated.
    RelocatingAgeIncrease,
    /// A node sent on to a section with a shorter prefix.
    RelocatingHop,
    /// A node that came back after being offline.
    RelocatingBackOnline,
    /// Relocation agreed; only waiting for the info to be processed.
    Relocated(RelocatedInfo),
    /// Not yet a full adult: the candidate's info or connection is awaited.
    WaitingCandidateInfo(RelocatedInfo),
    /// Not yet a full adult: the resource proof is awaited.
    WaitingProofing,
    /// A node that was online and lost its connection.
    Offline,
}

impl State {
    pub open spec fn spec_is_relocating(self) -> bool {
        self is RelocatingAgeIncrease || self is RelocatingHop || self is RelocatingBackOnline
    }

    pub open spec fn spec_is_not_yet_full_node(self) -> bool {
        self is WaitingCandidateInfo || self is WaitingProofing || self is RelocatingHop
    }

    pub fn is_relocating(self) -> (r: bool)
        ensures
            r == self.spec_is_relocating(),
    {
        match self {
            State::RelocatingAgeIncrease | State::RelocatingHop | State::RelocatingBackOnline => true,
            _ => false,
        }
    }

    pub fn waiting_candidate_info(self) -> (r: Option<RelocatedInfo>)
        ensures
            r == (match self {
                State::WaitingCandidateInfo(info) => Some(info),
                _ => None::<RelocatedInfo>,
            }),
    {
        match self {
            State::WaitingCandidateInfo(info) => Some(info),
            _ => None,
        }
    }

    pub fn is_not_yet_full_node(self) -> (r: bool)
        ensures
            r == self.spec_is_not_yet_full_node(),
    {
        match self {
            State::WaitingCandidateInfo(_) | State::WaitingProofing | State::RelocatingHop => true,
            _ => false,
        }
    }
}

/// A section member's row in the node table.
#[derive(Debug, Clone, Copy, PartialEq, Eq, Structural)]
pub struct NodeState {
    pub node: Node,
    pub work_units_done: i32,
    pub is_elder: bool,
    pub state: State,
}

impl NodeState {
    pub open spec fn spec_default() -> NodeState {
        NodeState {
            node: Node(Attributes { age: Age(0), name: Name(0) }),
            work_units_done: 0,
            is_elder: false,
            state: State::Online,
        }
    }

    pub fn default_elder() -> (r: NodeState)
        ensures
            r == (NodeState { is_elder: true, ..NodeState::spec_default() }),
    {
        NodeState {
            node: Node(Attributes { age: Age(0), name: Name(0) }),
            work_units_done: 0,
            is_elder: true,
            state: State::Online,
        }
    }
}

impl Default for NodeState {
    fn default() -> (r: NodeState)
        ensures
            r == NodeState::spec_default(),
    {
        NodeState {
            node: Node(Attributes { age: Age(0), name: Name(0) }),
            work_units_done: 0,
            is_elder: false,
            state: State::Online,
        }
    }
}

/// A section tag; it stands for a prefix of the address space.
#[derive(Debug, Clone, Copy, Default, PartialEq, Eq, Structural)]
pub struct Section(pub i32);

/// A section together with the version of its membership.
#[derive(Debug, Clone, Copy, Default, PartialEq, Eq, Structural)]
pub struct SectionInfo(pub Section, pub i32);

/// A membership snapshot handed to a node when it is approved.
#[derive(Debug, Clone, Copy, Default, PartialEq, Eq, Structural)]
pub struct GenesisPfxInfo(pub SectionInfo);

#[derive(Debug, Clone, Copy, PartialEq, Eq, Structural)]
pub enum ChurnNeeded {
    Split,
    Merge,
}

/// A new elder assignment: each changed node with its new elder flag, and the
/// section info that results from it.
#[derive(Debug, Clone, PartialEq)]
pub struct ChangeElder {
    pub changes: Vec<(Node, bool)>,
    pub new_section: SectionInfo,
}

#[derive(Debug, Clone, Copy, PartialEq, Eq, Structural)]
pub struct ProofRequest {
    pub value: i32,
}

#[derive(Debug, Clone, Copy, PartialEq, Eq, Structural)]
pub enum Proof {
    ValidPart,
    ValidEnd,
    Invalid,
}

impl Proof {
    pub fn is_valid(self) -> (r: bool)
        ensures
            r == !(self is Invalid),
    {
        match self {
            Proof::ValidPart | Proof::ValidEnd => true,
            Proof::Invalid => false,
        }
    }
}

/// A finite, replayable stream of proof parts: while the counter is positive
/// it yields `ValidPart`, at zero `ValidEnd`, below zero nothing.
#[derive(Debug, Clone, Copy, Default, PartialEq, Eq, Structural)]
pub struct ProofSource(pub i32);

/// The part that a proof stream with counter `n` yields.
pub open spec fn proof_part_of(n: int) -> Option<Proof> {
    if n > 0 {
        Some(Proof::ValidPart)
    } else if n == 0 {
        Some(Proof::ValidEnd)
    } else {
        None
    }
}

/// The counter of a proof stream after one more part was taken.
pub open spec fn proof_counter_after(n: int) -> int {
    if n > -1 {
        n - 1
    } else {
        n
    }
}

impl ProofSource {
    /// Yields the part the counter stands for, then moves the counter on.
    pub fn next_part(&mut self) -> (r: Option<Proof>)
        ensures
            r == proof_part_of(old(self).0 as int),
            final(self).0 == proof_counter_after(old(self).0 as int),
    {
        let r = self.resend();
        if self.0 > -1 {
            self.0 -= 1;
        }
        r
    }

    pub fn resend(self) -> (r: Option<Proof>)
        ensures
            r == proof_part_of(self.0 as int),
    {
        if self.0 > 0 {
            Some(Proof::ValidPart)
        } else if self.0 == 0 {
            Some(Proof::ValidEnd)
        } else {
            None
        }
    }
}

/// What a relocated candidate tells the destination: its identity before and
/// after the move, and the name of the row that awaits it.
#[derive(Debug, Clone, Copy, PartialEq, Eq, Structural)]
pub struct CandidateInfo {
    pub old_public_id: Candidate,
    pub new_public_id: Candidate,
    pub destination: Name,
    pub valid: bool,
}

/// The events a sub-machine dispatches on.
#[derive(Debug, Clone, Copy, PartialEq, Eq, Structural)]
pub enum WaitedEvent {
    Rpc(Rpc),
    ParsecConsensus(ParsecVote),
    LocalEvent(LocalEvent),
}

/// Everything that enters a state or is recorded in its journal.
#[derive(Debug, Clone, Copy, PartialEq, Eq, Structural)]
pub enum Event {
    Rpc(Rpc),
    ParsecConsensus(ParsecVote),
    LocalEvent(LocalEvent),
    TestEvent(TestEvent),
    NodeChange(NodeChange),
    ActionTriggered(ActionTriggered),
}

impl Event {
    pub open spec fn spec_to_waited_event(self) -> Option<WaitedEvent> {
        match self {
            Event::Rpc(rpc) => Some(WaitedEvent::Rpc(rpc)),
            Event::ParsecConsensus(vote) => Some(WaitedEvent::ParsecConsensus(vote)),
            Event::LocalEvent(local_event) => Some(WaitedEvent::LocalEvent(local_event)),
            _ => None,
        }
    }

    pub fn to_waited_event(&self) -> (r: Option<WaitedEvent>)
        ensures
            r == self.spec_to_waited_event(),
    {
        match *self {
            Event::Rpc(rpc) => Some(WaitedEvent::Rpc(rpc)),
            Event::ParsecConsensus(vote) => Some(WaitedEvent::ParsecConsensus(vote)),
            Event::LocalEvent(local_event) => Some(WaitedEvent::LocalEvent(local_event)),
            Event::TestEvent(_) | Event::NodeChange(_) | Event::ActionTriggered(_) => None,
        }
    }

    pub fn to_test_event(&self) -> (r: Option<TestEvent>)
        ensures
            r == (match *self {
                Event::TestEvent(t) => Some(t),
                _ => None::<TestEvent>,
            }),
    {
        match *self {
            Event::TestEvent(test_event) => Some(test_event),
            _ => None,
        }
    }
}

/// The messages exchanged between nodes.
#[derive(Debug, Clone, Copy, PartialEq, Eq, Structural)]
pub enum Rpc {
    RefuseCandidate(Candidate),
    RelocateResponse(RelocatedInfo),
    RelocatedInfo(RelocatedInfo),
    ExpectCandidate(Candidate),
    NodeConnected(Candidate, GenesisPfxInfo),
    ResourceProof { candidate: Candidate, source: Name, proof: ProofRequest },
    ResourceProofReceipt { candidate: Candidate, source: Name },
    NodeApproval(Candidate, GenesisPfxInfo),
    ResourceProofResponse { candidate: Candidate, destination: Name, proof: Proof },
    CandidateInfo(CandidateInfo),
    ConnectionInfoRequest { source: Name, destination: Name, connection_info: i32 },
    ConnectionInfoResponse { source: Name, destination: Name, connection_info: i32 },
    Merge(SectionInfo),
}

impl Rpc {
    /// The name of the node a message is addressed to, where it has one.
    pub open spec fn spec_destination(self) -> Option<Name> {
        match self {
            Rpc::NodeApproval(candidate, _) => Some(candidate.0.name),
            Rpc::NodeConnected(candidate, _) => Some(candidate.0.name),
            Rpc::ResourceProof { candidate, .. } => Some(candidate.0.name),
            Rpc::ResourceProofReceipt { candidate, .. } => Some(candidate.0.name),
            Rpc::ResourceProofResponse { destination, .. } => Some(destination),
            Rpc::CandidateInfo(info) => Some(info.destination),
            Rpc::ConnectionInfoRequest { destination, .. } => Some(destination),
            Rpc::ConnectionInfoResponse { destination, .. } => Some(destination),
            _ => None,
        }
    }

    pub fn to_event(&self) -> (r: Event)
        ensures
            r == Event::Rpc(*self),
    {
        Event::Rpc(*self)
    }

    pub fn destination(&self) -> (r: Option<Name>)
        ensures
            r == self.spec_destination(),
    {
        match self {
            Rpc::RefuseCandidate(_)
            | Rpc::RelocateResponse(_)
            | Rpc::RelocatedInfo(_)
            | Rpc::ExpectCandidate(_)
            | Rpc::Merge(_) => None,
            Rpc::NodeApproval(candidate, _)
            | Rpc::NodeConnected(candidate, _)
            | Rpc::ResourceProof { candidate, .. }
            | Rpc::ResourceProofReceipt { candidate, .. } => Some(candidate.0.name),
            Rpc::ResourceProofResponse { destination, .. }
            | Rpc::ConnectionInfoRequest { destination, .. }
            | Rpc::ConnectionInfoResponse { destination, .. } => Some(*destination),
            Rpc::CandidateInfo(info) => Some(info.destination),
        }
    }
}

/// The events that the section agrees on through consensus.
#[derive(Debug, Clone, Copy, PartialEq, Eq, Structural)]
pub enum ParsecVote {
    ExpectCandidate(Candidate),
    Online(Candidate, Candidate),
    PurgeCandidate(Candidate),
    CheckResourceProof,
    AddElderNode(Node),
    RemoveElderNode(Node),
    NewSectionInfo(SectionInfo),
    WorkUnitIncrement,
    CheckRelocate,
    RefuseCandidate(Candidate),
    RelocateResponse(RelocatedInfo),
    RelocatedInfo(RelocatedInfo),
    CheckElder,
    Offline(Node),
    BackOnline(Node),
    NeighbourMerge(SectionInfo),
}

impl ParsecVote {
    /// The candidate a vote is about, where it is about one.
    pub open spec fn spec_candidate(self) -> Option<Candidate> {
        match self {
            ParsecVote::ExpectCandidate(c) => Some(c),
            ParsecVote::Online(c, _) => Some(c),
            ParsecVote::PurgeCandidate(c) => Some(c),
            ParsecVote::RefuseCandidate(c) => Some(c),
            ParsecVote::RelocateResponse(info) => Some(info.candidate),
            _ => None,
        }
    }

    pub fn to_event(&self) -> (r: Event)
        ensures
            r == Event::ParsecConsensus(*self),
    {
        Event::ParsecConsensus(*self)
    }

    pub fn candidate(&self) -> (r: Option<Candidate>)
        ensures
            r == self.spec_candidate(),
    {
        match self {
            ParsecVote::ExpectCandidate(candidate)
            | ParsecVote::Online(candidate, _)
            | ParsecVote::PurgeCandidate(candidate)
            | ParsecVote::RefuseCandidate(candidate) => Some(*candidate),
            ParsecVote::RelocateResponse(info) => Some(info.candidate),
            ParsecVote::CheckResourceProof
            | ParsecVote::AddElderNode(_)
            | ParsecVote::RemoveElderNode(_)
            | ParsecVote::NewSectionInfo(_)
            | ParsecVote::WorkUnitIncrement
            | ParsecVote::CheckRelocate
            | ParsecVote::RelocatedInfo(_)
            | ParsecVote::CheckElder
            | ParsecVote::Offline(_)
            | ParsecVote::BackOnline(_)
            | ParsecVote::NeighbourMerge(_) => None,
        }
    }
}

/// Timer fires and locally computed readiness signals.
#[derive(Debug, Clone, Copy, PartialEq, Eq, Structural)]
pub enum LocalEvent {
    TimeoutAccept,
    CheckResourceProofTimeout,
    TimeoutWorkUnit,
    TimeoutCheckRelocate,
    TimeoutCheckElder,
    JoiningTimeoutResendInfo,
    JoiningTimeoutConnectRefused,
    JoiningTimeoutProofRefused,
    ResourceProofForElderReady(Name),
    NodeDetectedOffline(Node),
    NodeDetectedBackOnline(Node),
}

impl LocalEvent {
    pub fn to_event(&self) -> (r: Event)
        ensures
            r == Event::LocalEvent(*self),
    {
        Event::LocalEvent(*self)
    }
}

/// Events that drive the model from outside: they set what would otherwise be
/// measured or computed.
#[derive(Debug, Clone, Copy, PartialEq, Eq, Structural)]
pub enum TestEvent {
    SetChurnNeeded(ChurnNeeded),
    SetShortestPrefix(Option<Section>),
    SetWorkUnitEnoughToRelocate(Node),
    SetResourceProof(Name, ProofSource),
}

impl TestEvent {
    pub fn to_event(self) -> (r: Event)
        ensures
            r == Event::TestEvent(self),
    {
        Event::TestEvent(self)
    }
}

/// Effects recorded in the journal that are neither messages, votes nor
/// changes of the node table.
#[derive(Debug, Clone, Copy, PartialEq, Eq, Structural)]
pub enum ActionTriggered {
    WorkUnitIncremented,
    MergeInfoStored(SectionInfo),
    OurSectionChanged(SectionInfo),
    CompleteMerge,
    CompleteSplit,
    Scheduled(LocalEvent),
    Killed(LocalEvent),
    ComputeResourceProofForElder(Name),
    /// A waited event that a flow should handle but does not yet.
    NotYetImplementedErrorTriggered,
    /// An unexpected event that was ignored.
    UnexpectedEventErrorTriggered,
}

impl ActionTriggered {
    pub fn to_event(self) -> (r: Event)
        ensures
            r == Event::ActionTriggered(self),
    {
        Event::ActionTriggered(self)
    }
}

#[derive(Debug, Clone, Copy, PartialEq, Eq, Structural)]
pub enum TryResult {
    Handled,
    Unhandled,
}

} // verus!
