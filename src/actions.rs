//! The effect mediator: the only owner of the node table and the only writer
//! of the journal.
use crate::table::{
    has_row, is_insert_position, lemma_has_row, lemma_row_index, lemma_with_elder,
    lemma_with_row_sorted, lemma_with_state, lemma_without_row_sorted, row, row_index,
    rows_sorted, with_elder, with_enough_work, with_row, with_state, without_row,
};
use crate::utilities::{
    ActionTriggered, Attributes, Candidate, CandidateInfo, ChurnNeeded, Event, GenesisPfxInfo,
    LocalEvent, Name, Node, NodeChange, NodeState, ParsecVote, Proof, ProofRequest, ProofSource,
    RelocatedInfo, Rpc, Section, SectionInfo, State, TestEvent, proof_counter_after,
    proof_part_of,
};
use vstd::prelude::*;

verus! {

/// What an `InnerAction` holds, as mathematical values.
pub struct ActionModel {
    pub our_attributes: Attributes,
    pub our_section: SectionInfo,
    pub nodes: Seq<NodeState>,
    pub events: Seq<Event>,
    pub shortest_prefix: Option<Section>,
    pub section_members: Seq<(SectionInfo, Seq<Node>)>,
    pub next_target_interval: Name,
    pub merge_infos: Option<SectionInfo>,
    pub churn_needed: Option<ChurnNeeded>,
    pub connected: Seq<Name>,
    pub proofs: Seq<(Name, ProofSource)>,
}

impl ActionModel {
    /// Rows in order of name; one proof stream per elder, one elder list per
    /// section info, each connected name once.
    pub open spec fn wf(self) -> bool {
        &&& rows_sorted(self.nodes)
        &&& forall|i: int, j: int|
            0 <= i < j < self.proofs.len() ==> self.proofs[i].0 != self.proofs[j].0
        &&& forall|i: int, j: int|
            0 <= i < j < self.section_members.len() ==> self.section_members[i].0
                != self.section_members[j].0
        &&& forall|i: int, j: int|
            0 <= i < j < self.connected.len() ==> self.connected[i] != self.connected[j]
    }

    pub open spec fn log(self, e: Event) -> ActionModel {
        ActionModel { events: self.events.push(e), ..self }
    }

    /// Records each vote of `votes`, in order.
    pub open spec fn log_votes(self, votes: Seq<ParsecVote>) -> ActionModel {
        ActionModel {
            events: self.events + votes.map_values(|v: ParsecVote| Event::ParsecConsensus(v)),
            ..self
        }
    }

    pub open spec fn with_nodes(self, nodes: Seq<NodeState>) -> ActionModel {
        ActionModel { nodes, ..self }
    }

    pub open spec fn our_name(self) -> Name {
        self.our_attributes.name
    }

    /// Sets the state of the row named `n` and records it.
    pub open spec fn set_state(self, n: Name, st: State) -> ActionModel {
        self.with_nodes(with_state(self.nodes, n, st)).log(
            Event::NodeChange(NodeChange::State(row(self.nodes, n).node, st)),
        )
    }

    /// Sets the elder flag of the row named `n` and records it.
    pub open spec fn set_elder(self, n: Name, b: bool) -> ActionModel {
        self.with_nodes(with_elder(self.nodes, n, b)).log(
            Event::NodeChange(NodeChange::Elder(row(self.nodes, n).node, b)),
        )
    }

    /// Applies the elder changes in order.
    pub open spec fn set_elders(self, changes: Seq<(Node, bool)>) -> ActionModel
        decreases changes.len(),
    {
        if changes.len() == 0 {
            self
        } else {
            self.set_elders(changes.drop_last()).set_elder(
                changes.last().0.0.name,
                changes.last().1,
            )
        }
    }

    pub open spec fn set_section(self, section: SectionInfo) -> ActionModel {
        ActionModel { our_section: section, ..self }.log(
            Event::ActionTriggered(ActionTriggered::OurSectionChanged(section)),
        )
    }

    /// Index of the first proof stream kept for `n`.
    pub open spec fn proof_index(self, n: Name) -> Option<int> {
        if exists|i: int| 0 <= i < self.proofs.len() && self.proofs[i].0 == n {
            Some(
                choose|i: int|
                    0 <= i < self.proofs.len() && self.proofs[i].0 == n && forall|j: int|
                        0 <= j < i ==> self.proofs[j].0 != n,
            )
        } else {
            None
        }
    }

    /// Keeps `p` as the proof stream for `n`, in place of any earlier one.
    pub open spec fn set_proof(self, n: Name, p: ProofSource) -> ActionModel {
        match self.proof_index(n) {
            Some(i) => ActionModel { proofs: self.proofs.update(i, (n, p)), ..self },
            None => ActionModel { proofs: self.proofs.push((n, p)), ..self },
        }
    }

    pub open spec fn apply_test_event(self, e: TestEvent) -> ActionModel {
        match e {
            TestEvent::SetChurnNeeded(c) => ActionModel { churn_needed: Some(c), ..self },
            TestEvent::SetShortestPrefix(v) => ActionModel { shortest_prefix: v, ..self },
            TestEvent::SetWorkUnitEnoughToRelocate(node) => self.with_nodes(
                with_enough_work(self.nodes, node.0.name),
            ),
            TestEvent::SetResourceProof(n, p) => self.set_proof(n, p),
        }
    }

    /// The first elder list kept for `section`.
    pub open spec fn members_of(self, section: SectionInfo) -> Option<Seq<Node>> {
        if exists|i: int| 0 <= i < self.section_members.len() && self.section_members[i].0 == section {
            let i = choose|i: int|
                0 <= i < self.section_members.len() && self.section_members[i].0 == section
                    && forall|j: int|
                    0 <= j < i ==> self.section_members[j].0 != section;
            Some(self.section_members[i].1)
        } else {
            None
        }
    }

    /// The ticket that a new candidate is given.
    pub open spec fn next_ticket(self, candidate: Candidate) -> RelocatedInfo {
        RelocatedInfo {
            candidate,
            expected_age: crate::utilities::Age((candidate.0.age.0 + 1) as i32),
            target_interval_centre: self.next_target_interval,
            section_info: self.our_section,
        }
    }

    /// The row that awaits a candidate holding `info`.
    pub open spec fn waiting_row(info: RelocatedInfo) -> NodeState {
        NodeState {
            node: Node(Attributes { age: info.expected_age, name: info.target_interval_centre }),
            work_units_done: 0,
            is_elder: false,
            state: State::WaitingCandidateInfo(info),
        }
    }

    /// Admits `candidate`: a new row awaits it under the next target name.
    pub open spec fn accept_candidate(self, candidate: Candidate) -> ActionModel {
        let info = self.next_ticket(candidate);
        let ns = Self::waiting_row(info);
        ActionModel {
            next_target_interval: Name((self.next_target_interval.0 + 1) as i32),
            nodes: with_row(self.nodes, ns),
            ..self
        }.log(Event::NodeChange(NodeChange::AddWithState(ns.node, ns.state)))
    }

    pub open spec fn can_admit(self, candidate: Candidate) -> bool {
        &&& candidate.0.age.0 < i32::MAX
        &&& self.next_target_interval.0 < i32::MAX
        &&& !has_row(self.nodes, self.next_target_interval)
    }

    /// Replaces the row named `n` by an online row for `new_id`.
    pub open spec fn make_online(self, n: Name, new_id: Candidate) -> ActionModel {
        let ns = NodeState { node: Node(new_id.0), ..NodeState::spec_default() };
        self.log(Event::NodeChange(NodeChange::ReplaceWith(n, ns.node, ns.state))).with_nodes(
            with_row(without_row(self.nodes, n), ns),
        )
    }

    pub open spec fn can_make_online(self, n: Name, new_id: Candidate) -> bool {
        has_row(self.nodes, n) && (new_id.0.name == n || !has_row(self.nodes, new_id.0.name))
    }

    pub open spec fn purge(self, n: Name) -> ActionModel {
        self.log(Event::NodeChange(NodeChange::Remove(n))).with_nodes(without_row(self.nodes, n))
    }

    /// The message that hands our identity to an elder of the destination.
    pub open spec fn candidate_info_rpc(self, info: RelocatedInfo) -> Rpc {
        Rpc::CandidateInfo(
            CandidateInfo {
                old_public_id: info.candidate,
                new_public_id: Candidate(self.our_attributes),
                destination: info.target_interval_centre,
                valid: true,
            },
        )
    }

    pub open spec fn add_connected(self, n: Name) -> ActionModel {
        if self.connected.contains(n) {
            self
        } else {
            ActionModel { connected: self.connected.push(n), ..self }
        }
    }

    /// Takes the next part of the proof stream kept for `source`.
    pub open spec fn take_proof_part(self, source: Name) -> ActionModel {
        match self.proof_index(source) {
            Some(i) => ActionModel {
                proofs: self.proofs.update(
                    i,
                    (source, ProofSource(proof_counter_after(self.proofs[i].1.0 as int) as i32)),
                ),
                ..self
            },
            None => self,
        }
    }

    /// The part that taking from the proof stream of `source` yields.
    pub open spec fn proof_part(self, source: Name) -> Option<Proof> {
        match self.proof_index(source) {
            Some(i) => proof_part_of(self.proofs[i].1.0 as int),
            None => None,
        }
    }
}

/// The node table, the journal and what the flows of one node share.
#[derive(Debug, Clone, PartialEq)]
pub struct InnerAction {
    pub our_attributes: Attributes,
    pub our_section: SectionInfo,
    /// The rows of the section's members, in strictly increasing order of name.
    pub our_current_nodes: Vec<NodeState>,
    pub our_events: Vec<Event>,
    pub shortest_prefix: Option<Section>,
    /// The elders known for other sections, by section info.
    pub section_members: Vec<(SectionInfo, Vec<Node>)>,
    pub next_target_interval: Name,
    pub merge_infos: Option<SectionInfo>,
    pub churn_needed: Option<ChurnNeeded>,
    pub connected: Vec<Name>,
    /// The proof streams of a joining node, by the elder that asked for them.
    pub resource_proofs_for_elder: Vec<(Name, ProofSource)>,
}

impl View for InnerAction {
    type V = ActionModel;

    open spec fn view(&self) -> ActionModel {
        ActionModel {
            our_attributes: self.our_attributes,
            our_section: self.our_section,
            nodes: self.our_current_nodes@,
            events: self.our_events@,
            shortest_prefix: self.shortest_prefix,
            section_members: self.section_members@.map_values(
                |p: (SectionInfo, Vec<Node>)| (p.0, p.1@),
            ),
            next_target_interval: self.next_target_interval,
            merge_infos: self.merge_infos,
            churn_needed: self.churn_needed,
            connected: self.connected@,
            proofs: self.resource_proofs_for_elder@,
        }
    }
}

/// The names that `nodes` leaves distinct from each other and from `s`.
pub open spec fn fresh_rows(s: Seq<NodeState>, nodes: Seq<NodeState>) -> bool {
    &&& forall|i: int| 0 <= i < nodes.len() ==> !has_row(s, #[trigger] nodes[i].node.0.name)
    &&& forall|i: int, j: int|
        0 <= i < j < nodes.len() ==> nodes[i].node.0.name != nodes[j].node.0.name
}

fn copy_proofs(proofs: &Vec<(Name, ProofSource)>) -> (r: Vec<(Name, ProofSource)>)
    ensures
        r@ == proofs@,
{
    let mut r: Vec<(Name, ProofSource)> = Vec::new();
    let mut i: usize = 0;
    while i < proofs.len()
        invariant
            0 <= i <= proofs@.len(),
            r@ == proofs@.take(i as int),
        decreases proofs@.len() - i,
    {
        r.push(proofs[i]);
        i = i + 1;
        assert(r@ =~= proofs@.take(i as int));
    }
    assert(proofs@.take(proofs@.len() as int) =~= proofs@);
    r
}

fn copy_nodes(nodes: &[Node]) -> (r: Vec<Node>)
    ensures
        r@ == nodes@,
{
    let mut r: Vec<Node> = Vec::new();
    let mut i: usize = 0;
    while i < nodes.len()
        invariant
            0 <= i <= nodes@.len(),
            r@ == nodes@.take(i as int),
        decreases nodes@.len() - i,
    {
        r.push(nodes[i]);
        i = i + 1;
        assert(r@ =~= nodes@.take(i as int));
    }
    assert(nodes@.take(nodes@.len() as int) =~= nodes@);
    r
}

impl InnerAction {
    pub fn new_with_our_attributes(name: Attributes) -> (r: Self)
        ensures
            r@ == (ActionModel {
                our_attributes: name,
                our_section: SectionInfo(Section(0), 0),
                nodes: Seq::empty(),
                events: Seq::empty(),
                shortest_prefix: None,
                section_members: Seq::empty(),
                next_target_interval: Name(0),
                merge_infos: None,
                churn_needed: None,
                connected: Seq::empty(),
                proofs: Seq::empty(),
            }),
            r@.wf(),
    {
        let r = InnerAction {
            our_attributes: name,
            our_section: SectionInfo(Section(0), 0),
            our_current_nodes: Vec::new(),
            our_events: Vec::new(),
            shortest_prefix: None,
            section_members: Vec::new(),
            next_target_interval: Name(0),
            merge_infos: None,
            churn_needed: None,
            connected: Vec::new(),
            resource_proofs_for_elder: Vec::new(),
        };
        assert(r@.section_members =~= Seq::empty());
        r
    }

    /// Index at which a row named `name` stands, or would stand.
    fn search(&self, name: Name) -> (r: (usize, bool))
        requires
            self@.wf(),
        ensures
            r.1 ==> r.0 < self@.nodes.len() && self@.nodes[r.0 as int].node.0.name == name
                && row_index(self@.nodes, name) == r.0,
            r.1 == has_row(self@.nodes, name),
            !r.1 ==> is_insert_position(self@.nodes, name, r.0 as int),
    {
        let mut i: usize = 0;
        while i < self.our_current_nodes.len()
            invariant
                0 <= i <= self.our_current_nodes@.len(),
                self@.wf(),
                forall|j: int| 0 <= j < i ==> self@.nodes[j].node.0.name.0 < name.0,
            decreases self.our_current_nodes@.len() - i,
        {
            let n = self.our_current_nodes[i].node.0.name;
            if n.0 == name.0 {
                proof {
                    lemma_row_index(self@.nodes, name, i as int);
                }
                return (i, true);
            }
            if n.0 > name.0 {
                proof {
                    assert forall|j: int| i <= j < self@.nodes.len() implies self@.nodes[j].node.0.name.0
                        > name.0 by {
                        if j > i {
                            assert(self@.nodes[i as int].node.0.name.0 < self@.nodes[j].node.0.name.0);
                        }
                    }
                    assert(!has_row(self@.nodes, name));
                }
                return (i, false);
            }
            i = i + 1;
        }
        (i, false)
    }

    pub fn extend_current_nodes(self, nodes: &[NodeState]) -> (r: Self)
        requires
            self@.wf(),
            fresh_rows(self@.nodes, nodes@),
        ensures
            r@.wf(),
            r@ == self@.with_nodes(r@.nodes),
            r@.nodes.len() == self@.nodes.len() + nodes@.len(),
            forall|n: Name|
                has_row(r@.nodes, n) <==> (has_row(self@.nodes, n) || exists|i: int|
                    0 <= i < nodes@.len() && nodes@[i].node.0.name == n),
            forall|n: Name| has_row(self@.nodes, n) ==> row(r@.nodes, n) == row(self@.nodes, n),
            forall|i: int| 0 <= i < nodes@.len() ==> row(r@.nodes, #[trigger] nodes@[i].node.0.name) == nodes@[i],
    {
        let ghost start = self@;
        let mut r = self;
        let mut k: usize = 0;
        while k < nodes.len()
            invariant
                0 <= k <= nodes@.len(),
                r@.wf(),
                fresh_rows(start.nodes, nodes@),
                r@ == start.with_nodes(r@.nodes),
                r@.nodes.len() == start.nodes.len() + k,
                forall|n: Name|
                    has_row(r@.nodes, n) <==> (has_row(start.nodes, n) || exists|i: int|
                        0 <= i < k && nodes@[i].node.0.name == n),
                forall|n: Name| has_row(start.nodes, n) ==> row(r@.nodes, n) == row(start.nodes, n),
                forall|i: int| 0 <= i < k ==> row(r@.nodes, #[trigger] nodes@[i].node.0.name) == nodes@[i],
            decreases nodes@.len() - k,
        {
            let ns = nodes[k];
            let ghost before = r@.nodes;
            assert(!has_row(before, ns.node.0.name)) by {
                if has_row(before, ns.node.0.name) {
                    if !has_row(start.nodes, ns.node.0.name) {
                        let i = choose|i: int| 0 <= i < k && nodes@[i].node.0.name == ns.node.0.name;
                        assert(nodes@[i].node.0.name != nodes@[k as int].node.0.name);
                    }
                }
            }
            let pos = r.add_row(ns);
            proof {
                let after = r@.nodes;
                let p = pos as int;
                assert forall|n: Name| has_row(before, n) implies row(after, n) == row(before, n) by {
                    let j = row_index(before, n);
                    lemma_has_row(before, n);
                    let j2 = if j < p { j } else { j + 1 };
                    assert(after[j2] == before[j]);
                    lemma_row_index(after, n, j2);
                }
                assert(after[p] == ns);
                lemma_row_index(after, ns.node.0.name, p);
                assert forall|n: Name|
                    has_row(after, n) <==> (has_row(start.nodes, n) || exists|i: int|
                        0 <= i < k + 1 && nodes@[i].node.0.name == n) by {
                    if has_row(after, n) {
                        if n != ns.node.0.name {
                            let j = choose|j: int| 0 <= j < after.len() && after[j].node.0.name == n;
                            let j2 = if j < p { j } else { j - 1 };
                            assert(before[j2] == after[j]);
                            assert(has_row(before, n));
                        } else {
                            assert(nodes@[k as int].node.0.name == n);
                        }
                    }
                    if has_row(start.nodes, n) || exists|i: int| 0 <= i < k + 1 && nodes@[i].node.0.name == n {
                        if n == ns.node.0.name {
                            assert(after[p].node.0.name == n);
                        } else {
                            if !has_row(start.nodes, n) {
                                let i = choose|i: int| 0 <= i < k + 1 && nodes@[i].node.0.name == n;
                                assert(i < k);
                            }
                            assert(has_row(before, n));
                            let j = choose|j: int| 0 <= j < before.len() && before[j].node.0.name == n;
                            let j2 = if j < p { j } else { j + 1 };
                            assert(after[j2] == before[j]);
                        }
                    }
                }
            }
            k = k + 1;
        }
        r
    }

    pub fn extend_current_nodes_with(self, value: &NodeState, nodes: &[Node]) -> (r: Self)
        requires
            self@.wf(),
            forall|i: int| 0 <= i < nodes@.len() ==> !has_row(self@.nodes, #[trigger] nodes@[i].0.name),
            forall|i: int, j: int| 0 <= i < j < nodes@.len() ==> nodes@[i].0.name != nodes@[j].0.name,
        ensures
            r@.wf(),
            r@ == self@.with_nodes(r@.nodes),
            r@.nodes.len() == self@.nodes.len() + nodes@.len(),
            forall|n: Name|
                has_row(r@.nodes, n) <==> (has_row(self@.nodes, n) || exists|i: int|
                    0 <= i < nodes@.len() && nodes@[i].0.name == n),
            forall|n: Name| has_row(self@.nodes, n) ==> row(r@.nodes, n) == row(self@.nodes, n),
            forall|i: int|
                0 <= i < nodes@.len() ==> row(r@.nodes, #[trigger] nodes@[i].0.name) == (NodeState {
                    node: nodes@[i],
                    ..*value
                }),
    {
        let mut states: Vec<NodeState> = Vec::new();
        let mut k: usize = 0;
        while k < nodes.len()
            invariant
                0 <= k <= nodes@.len(),
                states@.len() == k,
                forall|i: int| 0 <= i < k ==> states@[i] == (NodeState { node: nodes@[i], ..*value }),
            decreases nodes@.len() - k,
        {
            states.push(NodeState { node: nodes[k], ..*value });
            k = k + 1;
        }
        assert forall|i: int| 0 <= i < states@.len() implies #[trigger] states@[i].node.0.name
            == nodes@[i].0.name by {}
        let r = self.extend_current_nodes(states.as_slice());
        assert forall|n: Name|
            has_row(r@.nodes, n) <==> (has_row(self@.nodes, n) || exists|i: int|
                0 <= i < nodes@.len() && nodes@[i].0.name == n) by {
            if exists|i: int| 0 <= i < states@.len() && states@[i].node.0.name == n {
                let i = choose|i: int| 0 <= i < states@.len() && states@[i].node.0.name == n;
                assert(nodes@[i].0.name == n);
            }
            if exists|i: int| 0 <= i < nodes@.len() && nodes@[i].0.name == n {
                let i = choose|i: int| 0 <= i < nodes@.len() && nodes@[i].0.name == n;
                assert(states@[i].node.0.name == n);
            }
        }
        assert forall|i: int| 0 <= i < nodes@.len() implies row(r@.nodes, #[trigger] nodes@[i].0.name)
            == (NodeState { node: nodes@[i], ..*value }) by {
            assert(states@[i].node.0.name == nodes@[i].0.name);
        }
        r
    }

    pub fn with_section_members(self, section: SectionInfo, nodes: &[Node]) -> (r: Self)
        requires
            self@.members_of(section) is None,
        ensures
            r@ == (ActionModel {
                section_members: self@.section_members.push((section, nodes@)),
                ..self@
            }),
    {
        let ghost start = self@;
        let mut r = self;
        let v = copy_nodes(nodes);
        r.section_members.push((section, v));
        assert(r@.section_members =~= start.section_members.push((section, nodes@)));
        r
    }

    pub fn with_next_target_interval(self, target: Name) -> (r: Self)
        ensures
            r@ == (ActionModel { next_target_interval: target, ..self@ }),
    {
        let mut r = self;
        r.next_target_interval = target;
        r
    }

    /// Index of the first proof stream kept for `name`.
    fn find_proof(&self, name: Name) -> (r: Option<usize>)
        ensures
            r is Some ==> self@.proof_index(name) == Some(r->0 as int) && r->0 < self@.proofs.len(),
            r is None ==> self@.proof_index(name) is None,
    {
        let mut i: usize = 0;
        while i < self.resource_proofs_for_elder.len()
            invariant
                0 <= i <= self@.proofs.len(),
                forall|j: int| 0 <= j < i ==> self@.proofs[j].0 != name,
            decreases self@.proofs.len() - i,
        {
            if self.resource_proofs_for_elder[i].0 == name {
                proof {
                    lemma_first_proof(self@, name, i as int);
                }
                return Some(i);
            }
            i = i + 1;
        }
        None
    }

    /// Inserts a row in its place, without recording it; returns the place.
    fn add_row(&mut self, ns: NodeState) -> (k: usize)
        requires
            old(self)@.wf(),
            !has_row(old(self)@.nodes, ns.node.0.name),
        ensures
            final(self)@ == old(self)@.with_nodes(with_row(old(self)@.nodes, ns)),
            final(self)@.wf(),
            is_insert_position(old(self)@.nodes, ns.node.0.name, k as int),
            final(self)@.nodes == old(self)@.nodes.insert(k as int, ns),
    {
        let (k, found) = self.search(ns.node.0.name);
        proof {
            lemma_with_row_sorted(self@.nodes, ns, k as int);
        }
        self.our_current_nodes.insert(k, ns);
        k
    }

    fn add_node(&mut self, node_state: NodeState)
        requires
            old(self)@.wf(),
            !has_row(old(self)@.nodes, node_state.node.0.name),
        ensures
            final(self)@ == old(self)@.log(
                Event::NodeChange(NodeChange::AddWithState(node_state.node, node_state.state)),
            ).with_nodes(with_row(old(self)@.nodes, node_state)),
            final(self)@.wf(),
    {
        self.our_events.push(NodeChange::AddWithState(node_state.node, node_state.state).to_event());
        let _ = self.add_row(node_state);
    }

    fn remove_node(&mut self, name: Name)
        requires
            old(self)@.wf(),
            has_row(old(self)@.nodes, name),
        ensures
            final(self)@ == old(self)@.purge(name),
            final(self)@.wf(),
    {
        self.our_events.push(NodeChange::Remove(name).to_event());
        let (k, _) = self.search(name);
        proof {
            lemma_without_row_sorted(self@.nodes, name);
        }
        self.our_current_nodes.remove(k);
    }

    fn replace_node(&mut self, node_name: Name, node_state: NodeState)
        requires
            old(self)@.wf(),
            has_row(old(self)@.nodes, node_name),
            node_state.node.0.name == node_name || !has_row(old(self)@.nodes, node_state.node.0.name),
        ensures
            final(self)@ == old(self)@.log(
                Event::NodeChange(
                    NodeChange::ReplaceWith(node_name, node_state.node, node_state.state),
                ),
            ).with_nodes(with_row(without_row(old(self)@.nodes, node_name), node_state)),
            final(self)@.wf(),
    {
        self.our_events.push(
            NodeChange::ReplaceWith(node_name, node_state.node, node_state.state).to_event(),
        );
        let (k, _) = self.search(node_name);
        proof {
            lemma_without_row_sorted(self@.nodes, node_name);
            if node_state.node.0.name != node_name {
                let t = without_row(self@.nodes, node_name);
                if has_row(t, node_state.node.0.name) {
                    let i = choose|i: int| 0 <= i < t.len() && t[i].node.0.name == node_state.node.0.name;
                    let i2 = if i < k { i } else { i + 1 };
                    assert(t[i] == self@.nodes[i2]);
                }
            }
        }
        self.our_current_nodes.remove(k);
        let _ = self.add_row(node_state);
    }

    fn set_node_state(&mut self, name: Name, state: State)
        requires
            old(self)@.wf(),
            has_row(old(self)@.nodes, name),
        ensures
            final(self)@ == old(self)@.set_state(name, state),
            final(self)@.wf(),
    {
        let (k, _) = self.search(name);
        let mut ns = self.our_current_nodes[k];
        ns.state = state;
        self.our_current_nodes.set(k, ns);
        proof {
            assert(self@.nodes =~= with_state(old(self)@.nodes, name, state)) by {
                assert forall|i: int| 0 <= i < self@.nodes.len() implies self@.nodes[i] == with_state(
                    old(self)@.nodes,
                    name,
                    state,
                )[i] by {
                    if i != k {
                        assert(old(self)@.nodes[i].node.0.name != name) by {
                            if i < k {
                                assert(old(self)@.nodes[i].node.0.name.0 < name.0);
                            } else {
                                assert(old(self)@.nodes[k as int].node.0.name.0 < old(self)@.nodes[i].node.0.name.0);
                            }
                        }
                    }
                }
            }
            lemma_with_state(old(self)@.nodes, name, state);
        }
        self.our_events.push(NodeChange::State(ns.node, state).to_event());
    }

    fn set_elder_state(&mut self, name: Name, value: bool)
        requires
            old(self)@.wf(),
            has_row(old(self)@.nodes, name),
        ensures
            final(self)@ == old(self)@.set_elder(name, value),
            final(self)@.wf(),
    {
        let (k, _) = self.search(name);
        let mut ns = self.our_current_nodes[k];
        ns.is_elder = value;
        self.our_current_nodes.set(k, ns);
        proof {
            assert(self@.nodes =~= with_elder(old(self)@.nodes, name, value)) by {
                assert forall|i: int| 0 <= i < self@.nodes.len() implies self@.nodes[i] == with_elder(
                    old(self)@.nodes,
                    name,
                    value,
                )[i] by {
                    if i != k {
                        assert(old(self)@.nodes[i].node.0.name != name) by {
                            if i < k {
                                assert(old(self)@.nodes[i].node.0.name.0 < name.0);
                            } else {
                                assert(old(self)@.nodes[k as int].node.0.name.0 < old(self)@.nodes[i].node.0.name.0);
                            }
                        }
                    }
                }
            }
            lemma_with_elder(old(self)@.nodes, name, value);
        }
        self.our_events.push(NodeChange::Elder(ns.node, value).to_event());
    }

    fn set_section_info(&mut self, section: SectionInfo)
        ensures
            final(self)@ == old(self)@.set_section(section),
    {
        self.our_section = section;
        self.our_events.push(ActionTriggered::OurSectionChanged(section).to_event());
    }

    fn store_merge_infos(&mut self, merge_info: SectionInfo)
        ensures
            final(self)@ == (ActionModel { merge_infos: Some(merge_info), ..old(self)@ }).log(
                Event::ActionTriggered(ActionTriggered::MergeInfoStored(merge_info)),
            ),
    {
        self.merge_infos = Some(merge_info);
        self.our_events.push(ActionTriggered::MergeInfoStored(merge_info).to_event());
    }

    fn complete_merge(&mut self)
        ensures
            final(self)@ == old(self)@.log(Event::ActionTriggered(ActionTriggered::CompleteMerge)),
    {
        self.our_events.push(ActionTriggered::CompleteMerge.to_event());
    }

    fn complete_split(&mut self)
        ensures
            final(self)@ == old(self)@.log(Event::ActionTriggered(ActionTriggered::CompleteSplit)),
    {
        self.our_events.push(ActionTriggered::CompleteSplit.to_event());
    }
}

} // verus!

verus! {

pub open spec fn vote_for_change(c: (Node, bool)) -> ParsecVote {
    if c.1 {
        ParsecVote::AddElderNode(c.0)
    } else {
        ParsecVote::RemoveElderNode(c.0)
    }
}

/// The votes that carry out an elder change: one per changed node, then the
/// new section info.
pub open spec fn elder_change_votes(changes: Seq<(Node, bool)>, section: SectionInfo) -> Seq<
    ParsecVote,
> {
    changes.map_values(|c: (Node, bool)| vote_for_change(c)).push(
        ParsecVote::NewSectionInfo(section),
    )
}

/// Sections are siblings when their tags are one apart.
pub open spec fn is_sibling(a: Section, b: Section) -> bool {
    a.0 - b.0 == 1 || b.0 - a.0 == 1
}

/// The section that two merged siblings become.
pub open spec fn merged_section(ours: Section, theirs: Section) -> SectionInfo {
    SectionInfo(Section((ours.0 + theirs.0 + 1) as i32), 0)
}

pub open spec fn can_merge(ours: Section, theirs: Section) -> bool {
    i32::MIN <= ours.0 + theirs.0 + 1 <= i32::MAX
}

/// The two sections a split produces.
pub open spec fn split_votes(ours: Section) -> Seq<ParsecVote> {
    seq![
        ParsecVote::NewSectionInfo(SectionInfo(Section((ours.0 + 1) as i32), 0)),
        ParsecVote::NewSectionInfo(SectionInfo(Section((ours.0 + 2) as i32), 0)),
    ]
}

pub open spec fn ready_to_relocate(ns: NodeState) -> bool {
    ns.state is Online && ns.work_units_done >= ns.node.0.age.0
}

pub open spec fn relocating_key_of(already: Seq<(Candidate, i32)>, c: Candidate) -> bool {
    exists|i: int| 0 <= i < already.len() && already[i].0 == c
}

/// A row that may be chosen for relocation now.
pub open spec fn may_relocate(ns: NodeState, already: Seq<(Candidate, i32)>) -> bool {
    &&& ns.state.spec_is_relocating()
    &&& !ns.is_elder
    &&& !relocating_key_of(already, Candidate(ns.node.0))
}

pub open spec fn waits_for(ns: NodeState, c: Candidate) -> bool {
    ns.state is WaitingCandidateInfo && ns.state->WaitingCandidateInfo_0.candidate == c
}

pub open spec fn member_names(nodes: Seq<Node>) -> Seq<Name> {
    nodes.map_values(|n: Node| n.0.name)
}

pub open spec fn is_connected_in(connected: Seq<Name>) -> spec_fn(Name) -> bool {
    |n: Name| connected.contains(n)
}

pub open spec fn is_unconnected_in(connected: Seq<Name>) -> spec_fn(Name) -> bool {
    |n: Name| !connected.contains(n)
}

pub proof fn lemma_first_proof(m: ActionModel, n: Name, i: int)
    requires
        0 <= i < m.proofs.len(),
        m.proofs[i].0 == n,
        forall|j: int| 0 <= j < i ==> m.proofs[j].0 != n,
    ensures
        m.proof_index(n) == Some(i),
{
    let c = choose|c: int|
        0 <= c < m.proofs.len() && m.proofs[c].0 == n && forall|j: int| 0 <= j < c ==> m.proofs[j].0 != n;
    assert(c == i) by {
        if c < i {
            assert(m.proofs[c].0 != n);
        } else if c > i {
            assert(m.proofs[i].0 != n);
        }
    }
}

pub proof fn lemma_first_members(m: ActionModel, s: SectionInfo, i: int)
    requires
        0 <= i < m.section_members.len(),
        m.section_members[i].0 == s,
        forall|j: int| 0 <= j < i ==> m.section_members[j].0 != s,
    ensures
        m.members_of(s) == Some(m.section_members[i].1),
{
    let c = choose|c: int|
        0 <= c < m.section_members.len() && m.section_members[c].0 == s && forall|j: int|
            0 <= j < c ==> m.section_members[j].0 != s;
    assert(c == i) by {
        if c < i {
            assert(m.section_members[c].0 != s);
        } else if c > i {
            assert(m.section_members[i].0 != s);
        }
    }
}

/// The effect mediator of one node: the node table, the journal, and the
/// requests the flows make of the outside world.
#[derive(Debug, Clone, PartialEq)]
pub struct Action(pub InnerAction);

impl View for Action {
    type V = ActionModel;

    open spec fn view(&self) -> ActionModel {
        self.0@
    }
}

/// The action of a node with default attributes and nothing else.
pub open spec fn default_action_model() -> ActionModel {
    ActionModel {
        our_attributes: Attributes { age: crate::utilities::Age(0), name: Name(0) },
        our_section: SectionInfo(Section(0), 0),
        nodes: Seq::empty(),
        events: Seq::empty(),
        shortest_prefix: None,
        section_members: Seq::empty(),
        next_target_interval: Name(0),
        merge_infos: None,
        churn_needed: None,
        connected: Seq::empty(),
        proofs: Seq::empty(),
    }
}

impl Default for Action {
    fn default() -> (r: Action)
        ensures
            r@ == default_action_model(),
            r@ == (ActionModel {
                our_attributes: Attributes { age: crate::utilities::Age(0), name: Name(0) },
                our_section: SectionInfo(Section(0), 0),
                nodes: Seq::empty(),
                events: Seq::empty(),
                shortest_prefix: None,
                section_members: Seq::empty(),
                next_target_interval: Name(0),
                merge_infos: None,
                churn_needed: None,
                connected: Seq::empty(),
                proofs: Seq::empty(),
            }),
            r@.wf(),
    {
        Action::new(
            InnerAction::new_with_our_attributes(
                Attributes { age: crate::utilities::Age(0), name: Name(0) },
            ),
        )
    }
}

impl Action {
    pub fn new(inner: InnerAction) -> (r: Self)
        ensures
            r@ == inner@,
    {
        Action(inner)
    }

    /// A copy of what the action holds.
    pub fn inner(&self) -> (r: InnerAction)
        ensures
            r@ == self@,
    {
        let inner = &self.0;
        let mut members: Vec<(SectionInfo, Vec<Node>)> = Vec::new();
        let mut i: usize = 0;
        while i < inner.section_members.len()
            invariant
                0 <= i <= inner.section_members@.len(),
                members@.len() == i,
                forall|j: int|
                    0 <= j < i ==> #[trigger] members@[j].0 == inner.section_members@[j].0
                        && members@[j].1@ == inner.section_members@[j].1@,
            decreases inner.section_members@.len() - i,
        {
            let nodes = copy_nodes(inner.section_members[i].1.as_slice());
            members.push((inner.section_members[i].0, nodes));
            i = i + 1;
        }
        let nodes = inner.our_current_nodes.clone();
        let events = inner.our_events.clone();
        let connected = inner.connected.clone();
        let proofs = copy_proofs(&inner.resource_proofs_for_elder);
        assert(nodes@ =~= inner.our_current_nodes@);
        assert(events@ =~= inner.our_events@);
        assert(connected@ =~= inner.connected@);
        assert(proofs@ =~= inner.resource_proofs_for_elder@);
        let r = InnerAction {
            our_attributes: inner.our_attributes,
            our_section: inner.our_section,
            our_current_nodes: nodes,
            our_events: events,
            shortest_prefix: inner.shortest_prefix,
            section_members: members,
            next_target_interval: inner.next_target_interval,
            merge_infos: inner.merge_infos,
            churn_needed: inner.churn_needed,
            connected,
            resource_proofs_for_elder: proofs,
        };
        assert(r@.section_members =~= self@.section_members) by {
            assert forall|j: int| 0 <= j < r@.section_members.len() implies r@.section_members[j]
                == self@.section_members[j] by {
                assert(members@[j].0 == inner.section_members@[j].0);
            }
        }
        r
    }

    /// Clears the journal; the table stays as it is.
    pub fn remove_processed_state(&mut self)
        ensures
            final(self)@ == (ActionModel { events: Seq::empty(), ..old(self)@ }),
    {
        self.0.our_events = Vec::new();
    }

    pub fn process_test_events(&mut self, event: TestEvent)
        requires
            old(self)@.wf(),
        ensures
            final(self)@ == old(self)@.apply_test_event(event),
            final(self)@.wf(),
    {
        match event {
            TestEvent::SetChurnNeeded(churn_needed) => {
                self.0.churn_needed = Some(churn_needed);
                assert(self@ == old(self)@.apply_test_event(event));
            },
            TestEvent::SetShortestPrefix(value) => {
                self.0.shortest_prefix = value;
                assert(self@ == old(self)@.apply_test_event(event));
            },
            TestEvent::SetWorkUnitEnoughToRelocate(node) => {
                let name = node.0.name;
                let (k, found) = self.0.search(name);
                let ghost before = self@.nodes;
                if found {
                    let mut ns = self.0.our_current_nodes[k];
                    ns.work_units_done = ns.node.0.age.0;
                    self.0.our_current_nodes.set(k, ns);
                }
                proof {
                    let w = with_enough_work(before, name);
                    assert forall|i: int| 0 <= i < before.len() implies self@.nodes[i] == w[i] by {
                        if before[i].node.0.name == name {
                            lemma_row_index(before, name, i);
                        }
                    }
                    assert(self@.nodes =~= w);
                    crate::table::lemma_pointwise_update(before, w);
                }
            },
            TestEvent::SetResourceProof(name, stream) => {
                let ghost before = self@;
                match self.0.find_proof(name) {
                    Some(i) => {
                        self.0.resource_proofs_for_elder.set(i, (name, stream));
                        assert(self@.proofs =~= before.set_proof(name, stream).proofs);
                        assert(self@ == old(self)@.apply_test_event(event));
                    },
                    None => {
                        self.0.resource_proofs_for_elder.push((name, stream));
                        assert(self@.proofs =~= before.set_proof(name, stream).proofs);
                        assert(self@ == old(self)@.apply_test_event(event));
                    },
                }
            },
        }
    }

    /// Votes each of `votes`, in order.
    pub fn vote_all(&mut self, votes: &Vec<ParsecVote>)
        ensures
            final(self)@ == old(self)@.log_votes(votes@),
    {
        let ghost start = self@;
        let mut i: usize = 0;
        while i < votes.len()
            invariant
                0 <= i <= votes@.len(),
                self@ == start.log_votes(votes@.take(i as int)),
            decreases votes@.len() - i,
        {
            self.vote_parsec(votes[i]);
            i = i + 1;
            assert(self@.events =~= start.log_votes(votes@.take(i as int)).events);
        }
        assert(votes@.take(i as int) =~= votes@);
    }

    pub fn vote_parsec(&mut self, vote: ParsecVote)
        ensures
            final(self)@ == old(self)@.log(Event::ParsecConsensus(vote)),
    {
        self.0.our_events.push(vote.to_event());
    }

    pub fn send_rpc(&mut self, rpc: Rpc)
        ensures
            final(self)@ == old(self)@.log(Event::Rpc(rpc)),
    {
        self.0.our_events.push(rpc.to_event());
    }

    pub fn schedule_event(&mut self, event: LocalEvent)
        ensures
            final(self)@ == old(self)@.log(Event::ActionTriggered(ActionTriggered::Scheduled(event))),
    {
        self.action_triggered(ActionTriggered::Scheduled(event));
    }

    pub fn action_triggered(&mut self, event: ActionTriggered)
        ensures
            final(self)@ == old(self)@.log(Event::ActionTriggered(event)),
    {
        self.0.our_events.push(event.to_event());
    }

    /// Admits a candidate: it gets the next target name, one more year of age
    /// and our section; a row awaits it there. Returns its ticket.
    pub fn add_node_waiting_candidate_info(&mut self, candidate: Candidate) -> (r: RelocatedInfo)
        requires
            old(self)@.wf(),
            old(self)@.can_admit(candidate),
        ensures
            r == old(self)@.next_ticket(candidate),
            final(self)@ == old(self)@.accept_candidate(candidate),
            final(self)@.wf(),
    {
        let target_interval_centre = self.0.next_target_interval;
        self.0.next_target_interval = Name(target_interval_centre.0 + 1);
        let info = RelocatedInfo {
            candidate,
            expected_age: candidate.0.age.increment_by_one(),
            target_interval_centre,
            section_info: self.0.our_section,
        };
        let state = NodeState {
            node: Node(Attributes { name: info.target_interval_centre, age: info.expected_age }),
            work_units_done: 0,
            is_elder: false,
            state: State::WaitingCandidateInfo(info),
        };
        self.0.add_node(state);
        info
    }

    pub fn set_candidate_online_state(&mut self, candidate_name: Name, new_public_id: Candidate)
        requires
            old(self)@.wf(),
            old(self)@.can_make_online(candidate_name, new_public_id),
        ensures
            final(self)@ == old(self)@.make_online(candidate_name, new_public_id),
            final(self)@.wf(),
    {
        let state = NodeState {
            node: Node(new_public_id.0),
            work_units_done: 0,
            is_elder: false,
            state: State::Online,
        };
        self.0.replace_node(candidate_name, state);
    }

    pub fn set_node_offline_state(&mut self, node: Node)
        requires
            old(self)@.wf(),
            has_row(old(self)@.nodes, node.0.name),
        ensures
            final(self)@ == old(self)@.set_state(node.0.name, State::Offline),
            final(self)@.wf(),
    {
        self.0.set_node_state(node.name(), State::Offline);
    }

    pub fn set_node_back_online_state(&mut self, node: Node)
        requires
            old(self)@.wf(),
            has_row(old(self)@.nodes, node.0.name),
        ensures
            final(self)@ == old(self)@.set_state(node.0.name, State::RelocatingBackOnline),
            final(self)@.wf(),
    {
        self.0.set_node_state(node.name(), State::RelocatingBackOnline);
    }

    pub fn set_candidate_relocating_state(&mut self, candidate: Candidate)
        requires
            old(self)@.wf(),
            has_row(old(self)@.nodes, candidate.0.name),
        ensures
            final(self)@ == old(self)@.set_state(candidate.0.name, State::RelocatingAgeIncrease),
            final(self)@.wf(),
    {
        self.0.set_node_state(candidate.name(), State::RelocatingAgeIncrease);
    }

    pub fn set_candidate_relocated_state(&mut self, info: RelocatedInfo)
        requires
            old(self)@.wf(),
            has_row(old(self)@.nodes, info.candidate.0.name),
        ensures
            final(self)@ == old(self)@.set_state(info.candidate.0.name, State::Relocated(info)),
            final(self)@.wf(),
    {
        self.0.set_node_state(info.candidate.name(), State::Relocated(info));
    }

    pub fn purge_node_info(&mut self, name: Name)
        requires
            old(self)@.wf(),
            has_row(old(self)@.nodes, name),
        ensures
            final(self)@ == old(self)@.purge(name),
            final(self)@.wf(),
    {
        self.0.remove_node(name);
    }

    pub fn check_shortest_prefix(&self) -> (r: Option<Section>)
        ensures
            r == self@.shortest_prefix,
    {
        self.0.shortest_prefix
    }

    /// Compares the elder flags with the elder rule: the first `min(3, n)`
    /// rows in elder order are elders. Returns the changes, and the next
    /// version of our section, where they differ.
    pub fn check_elder(&self) -> (r: Option<crate::utilities::ChangeElder>)
        requires
            self@.our_section.1 < i32::MAX,
        ensures
            exists|sorted: Seq<NodeState>|
                #[trigger] crate::order::is_elder_arrangement(sorted, self@.nodes) && (r is None
                    <==> crate::order::elder_changes(sorted).len() == 0) && (r is Some ==> (
                r->0.changes@ == crate::order::elder_changes(sorted) && r->0.new_section
                    == SectionInfo(self@.our_section.0, (self@.our_section.1 + 1) as i32))),
    {
        let sorted = crate::order::arrange_in_elder_order(&self.0.our_current_nodes);
        let changes = crate::order::compute_elder_changes(&sorted);
        assert(crate::order::is_elder_arrangement(sorted@, self@.nodes));
        if changes.len() == 0 {
            None
        } else {
            Some(
                crate::utilities::ChangeElder {
                    changes,
                    new_section: SectionInfo(self.0.our_section.0, self.0.our_section.1 + 1),
                },
            )
        }
    }

    pub fn get_elder_change_votes(&self, change_elder: &crate::utilities::ChangeElder) -> (r: Vec<
        ParsecVote,
    >)
        ensures
            r@ == elder_change_votes(change_elder.changes@, change_elder.new_section),
    {
        let mut r: Vec<ParsecVote> = Vec::new();
        let mut i: usize = 0;
        while i < change_elder.changes.len()
            invariant
                0 <= i <= change_elder.changes@.len(),
                r@ == change_elder.changes@.take(i as int).map_values(
                    |c: (Node, bool)| vote_for_change(c),
                ),
            decreases change_elder.changes@.len() - i,
        {
            let (node, new_is_elder) = change_elder.changes[i];
            if new_is_elder {
                r.push(ParsecVote::AddElderNode(node));
            } else {
                r.push(ParsecVote::RemoveElderNode(node));
            }
            i = i + 1;
            assert(r@ =~= change_elder.changes@.take(i as int).map_values(
                |c: (Node, bool)| vote_for_change(c),
            ));
        }
        assert(change_elder.changes@.take(i as int) =~= change_elder.changes@);
        r.push(ParsecVote::NewSectionInfo(change_elder.new_section));
        r
    }

    /// Applies the elder changes, in order, then takes the new section info.
    pub fn mark_elder_change(&mut self, change_elder: crate::utilities::ChangeElder)
        requires
            old(self)@.wf(),
            forall|i: int|
                0 <= i < change_elder.changes@.len() ==> has_row(
                    old(self)@.nodes,
                    #[trigger] change_elder.changes@[i].0.0.name,
                ),
        ensures
            final(self)@ == old(self)@.set_elders(change_elder.changes@).set_section(
                change_elder.new_section,
            ),
            final(self)@.wf(),
    {
        let ghost start = self@;
        let ghost changes = change_elder.changes@;
        let mut i: usize = 0;
        while i < change_elder.changes.len()
            invariant
                0 <= i <= changes.len(),
                changes == change_elder.changes@,
                self@ == start.set_elders(changes.take(i as int)),
                self@.wf(),
                forall|m: Name| has_row(self@.nodes, m) == has_row(start.nodes, m),
                forall|j: int| 0 <= j < changes.len() ==> has_row(start.nodes, #[trigger] changes[j].0.0.name),
            decreases changes.len() - i,
        {
            let (node, new_is_elder) = change_elder.changes[i];
            proof {
                assert(changes.take(i + 1).drop_last() =~= changes.take(i as int));
                lemma_with_elder(self@.nodes, node.0.name, new_is_elder);
            }
            self.0.set_elder_state(node.0.name, new_is_elder);
            i = i + 1;
        }
        assert(changes.take(i as int) =~= changes);
        self.0.set_section_info(change_elder.new_section);
    }

    pub fn get_section_split_votes(&self) -> (r: Vec<ParsecVote>)
        requires
            self@.our_section.0.0 + 2 <= i32::MAX,
        ensures
            r@ == split_votes(self@.our_section.0),
    {
        let our_section_name = self.0.our_section.0.0;
        let mut r: Vec<ParsecVote> = Vec::new();
        r.push(ParsecVote::NewSectionInfo(SectionInfo(Section(our_section_name + 1), 0)));
        r.push(ParsecVote::NewSectionInfo(SectionInfo(Section(our_section_name + 2), 0)));
        assert(r@ =~= split_votes(self@.our_section.0));
        r
    }

    /// The first online row, by name, that has done as much work as its age.
    pub fn get_node_to_relocate(&self) -> (r: Option<Candidate>)
        ensures
            r is None ==> forall|i: int| 0 <= i < self@.nodes.len() ==> !ready_to_relocate(#[trigger] self@.nodes[i]),
            r is Some ==> exists|i: int|
                0 <= i < self@.nodes.len() && ready_to_relocate(#[trigger] self@.nodes[i]) && r->0 == Candidate(self@.nodes[i].node.0)
                    && forall|j: int| 0 <= j < i ==> !ready_to_relocate(self@.nodes[j]),
    {
        let mut i: usize = 0;
        while i < self.0.our_current_nodes.len()
            invariant
                0 <= i <= self@.nodes.len(),
                forall|j: int| 0 <= j < i ==> !ready_to_relocate(#[trigger] self@.nodes[j]),
            decreases self@.nodes.len() - i,
        {
            let ns = self.0.our_current_nodes[i];
            if ns.state == State::Online && ns.work_units_done >= ns.node.0.age.0 {
                return Some(Candidate(ns.node.0));
            }
            i = i + 1;
        }
        None
    }

    pub fn has_relocating_node(&self) -> (r: bool)
        ensures
            r == exists|i: int| 0 <= i < self@.nodes.len() && (#[trigger] self@.nodes[i]).state is RelocatingAgeIncrease,
    {
        let mut i: usize = 0;
        while i < self.0.our_current_nodes.len()
            invariant
                0 <= i <= self@.nodes.len(),
                forall|j: int| 0 <= j < i ==> !((#[trigger] self@.nodes[j]).state is RelocatingAgeIncrease),
            decreases self@.nodes.len() - i,
        {
            if self.0.our_current_nodes[i].state == State::RelocatingAgeIncrease {
                return true;
            }
            i = i + 1;
        }
        false
    }

    /// Among relocating adults not yet being relocated, the one that goes
    /// first: age increase before hop before back online, then older, then
    /// larger name. The target section is left to the destination.
    pub fn get_best_relocating_node_and_target(&self, already_relocating: &Vec<(Candidate, i32)>) -> (r:
        Option<(Candidate, Section)>)
        ensures
            r is None ==> forall|i: int|
                0 <= i < self@.nodes.len() ==> !may_relocate(#[trigger] self@.nodes[i], already_relocating@),
            r is Some ==> (r->0).1 == Section(0) && exists|i: int|
                0 <= i < self@.nodes.len() && may_relocate(#[trigger] self@.nodes[i], already_relocating@)
                    && (r->0).0 == Candidate(self@.nodes[i].node.0) && forall|j: int|
                    0 <= j < self@.nodes.len() && may_relocate(self@.nodes[j], already_relocating@)
                        ==> !crate::order::lex_lt(
                        crate::order::relocation_key(self@.nodes[i]),
                        crate::order::relocation_key(self@.nodes[j]),
                    ),
    {
        let ghost nodes = self@.nodes;
        let ghost already = already_relocating@;
        let mut best: Option<usize> = None;
        let mut i: usize = 0;
        while i < self.0.our_current_nodes.len()
            invariant
                nodes == self@.nodes,
                already == already_relocating@,
                0 <= i <= nodes.len(),
                best is None ==> forall|j: int| 0 <= j < i ==> !may_relocate(#[trigger] nodes[j], already),
                best is Some ==> best->0 < i && may_relocate(nodes[best->0 as int], already) && forall|j: int|
                    0 <= j < i && may_relocate(nodes[j], already) ==> !crate::order::lex_lt(
                        crate::order::relocation_key(nodes[best->0 as int]),
                        crate::order::relocation_key(nodes[j]),
                    ),
            decreases nodes.len() - i,
        {
            let ns = self.0.our_current_nodes[i];
            let eligible = ns.state.is_relocating() && !ns.is_elder && !contains_candidate(
                already_relocating,
                Candidate(ns.node.0),
            );
            if eligible {
                match best {
                    None => {
                        best = Some(i);
                    },
                    Some(b) => {
                        let current = self.0.our_current_nodes[b];
                        if !crate::order::relocates_before(&current, &ns) {
                            proof {
                                assert forall|j: int|
                                    0 <= j < i + 1 && may_relocate(nodes[j], already) implies !crate::order::lex_lt(
                                    crate::order::relocation_key(ns),
                                    crate::order::relocation_key(nodes[j]),
                                ) by {
                                    if j < i {
                                        lemma_lex_trans(
                                            crate::order::relocation_key(ns),
                                            crate::order::relocation_key(nodes[b as int]),
                                            crate::order::relocation_key(nodes[j]),
                                        );
                                    } else {
                                        lemma_lex_irrefl(crate::order::relocation_key(ns));
                                    }
                                }
                            }
                            best = Some(i);
                        }
                    },
                }
            }
            i = i + 1;
        }
        match best {
            Some(b) => Some((Candidate(self.0.our_current_nodes[b].node.0), Section(0))),
            None => None,
        }
    }

    pub fn is_our_relocating_node(&self, candidate: Candidate) -> (r: bool)
        requires
            self@.wf(),
        ensures
            r == (has_row(self@.nodes, candidate.0.name) && row(
                self@.nodes,
                candidate.0.name,
            ).state.spec_is_relocating()),
    {
        let (k, found) = self.0.search(candidate.0.name);
        if found {
            self.0.our_current_nodes[k].state.is_relocating()
        } else {
            false
        }
    }

    /// The ticket of the first row, by name, that awaits `candidate`.
    pub fn get_waiting_candidate_info(&self, candidate: Candidate) -> (r: Option<RelocatedInfo>)
        ensures
            r is None ==> forall|i: int| 0 <= i < self@.nodes.len() ==> !waits_for(#[trigger] self@.nodes[i], candidate),
            r is Some ==> exists|i: int|
                0 <= i < self@.nodes.len() && waits_for(#[trigger] self@.nodes[i], candidate)
                    && self@.nodes[i].state == State::WaitingCandidateInfo(r->0) && forall|j: int|
                    0 <= j < i ==> !waits_for(self@.nodes[j], candidate),
    {
        let mut i: usize = 0;
        while i < self.0.our_current_nodes.len()
            invariant
                0 <= i <= self@.nodes.len(),
                forall|j: int| 0 <= j < i ==> !waits_for(#[trigger] self@.nodes[j], candidate),
            decreases self@.nodes.len() - i,
        {
            match self.0.our_current_nodes[i].state {
                State::WaitingCandidateInfo(info) => {
                    if info.candidate == candidate {
                        return Some(info);
                    }
                },
                _ => {},
            }
            i = i + 1;
        }
        None
    }

    /// How many rows are candidates still joining or nodes hopping on.
    pub fn count_waiting_proofing_or_hop(&self) -> (r: usize)
        ensures
            r == crate::table::count_not_yet_full(self@.nodes),
    {
        let ghost s = self@.nodes;
        let mut count: usize = 0;
        let mut i: usize = 0;
        while i < self.0.our_current_nodes.len()
            invariant
                s == self@.nodes,
                0 <= i <= s.len(),
                count == s.take(i as int).filter(crate::table::not_yet_full_pred()).len(),
                count <= i,
            decreases s.len() - i,
        {
            proof {
                crate::table::lemma_filter_take_step(s, crate::table::not_yet_full_pred(), i as int);
            }
            if self.0.our_current_nodes[i].state.is_not_yet_full_node() {
                count = count + 1;
            }
            i = i + 1;
        }
        assert(s.take(i as int) =~= s);
        count
    }

    /// The first row, by name, that awaits a candidate's info: its name and
    /// the candidate.
    pub fn resource_proof_candidate(&self) -> (r: Option<(Name, Candidate)>)
        ensures
            r is None ==> forall|i: int| 0 <= i < self@.nodes.len() ==> !((#[trigger] self@.nodes[i]).state is WaitingCandidateInfo),
            r is Some ==> exists|i: int|
                0 <= i < self@.nodes.len() && (#[trigger] self@.nodes[i]).state is WaitingCandidateInfo
                    && r->0 == (self@.nodes[i].node.0.name, self@.nodes[i].state->WaitingCandidateInfo_0.candidate)
                    && forall|j: int| 0 <= j < i ==> !(self@.nodes[j].state is WaitingCandidateInfo),
    {
        let mut i: usize = 0;
        while i < self.0.our_current_nodes.len()
            invariant
                0 <= i <= self@.nodes.len(),
                forall|j: int| 0 <= j < i ==> !((#[trigger] self@.nodes[j]).state is WaitingCandidateInfo),
            decreases self@.nodes.len() - i,
        {
            let ns = self.0.our_current_nodes[i];
            match ns.state.waiting_candidate_info() {
                Some(info) => {
                    return Some((ns.node.0.name, info.old_public_id()));
                },
                None => {},
            }
            i = i + 1;
        }
        None
    }

    /// Whether `info` is valid and the row it names awaits a candidate.
    pub fn is_valid_waited_info(&self, info: CandidateInfo) -> (r: bool)
        requires
            self@.wf(),
        ensures
            r == (info.valid && has_row(self@.nodes, info.destination) && row(
                self@.nodes,
                info.destination,
            ).state is WaitingCandidateInfo),
    {
        if !info.valid {
            return false;
        }
        let (k, found) = self.0.search(info.destination);
        if found {
            self.0.our_current_nodes[k].state.waiting_candidate_info().is_some()
        } else {
            false
        }
    }

    pub fn is_our_name(&self, name: Name) -> (r: bool)
        ensures
            r == (name == self@.our_name()),
    {
        self.our_name() == name
    }

    pub fn our_name(&self) -> (r: Name)
        ensures
            r == self@.our_name(),
    {
        self.0.our_attributes.name
    }

    pub fn node_state(&self, name: Name) -> (r: Option<NodeState>)
        requires
            self@.wf(),
        ensures
            r == (if has_row(self@.nodes, name) {
                Some(row(self@.nodes, name))
            } else {
                None
            }),
    {
        let (k, found) = self.0.search(name);
        if found {
            Some(self.0.our_current_nodes[k])
        } else {
            None
        }
    }

    pub fn our_section(&self) -> (r: SectionInfo)
        ensures
            r == self@.our_section,
    {
        self.0.our_section
    }

    pub fn send_node_approval_rpc(&mut self, candidate: Candidate)
        ensures
            final(self)@ == old(self)@.log(
                Event::Rpc(Rpc::NodeApproval(candidate, GenesisPfxInfo(old(self)@.our_section))),
            ),
    {
        let section = GenesisPfxInfo(self.0.our_section);
        self.send_rpc(Rpc::NodeApproval(candidate, section));
    }

    pub fn send_relocate_response_rpc(&mut self, info: RelocatedInfo)
        ensures
            final(self)@ == old(self)@.log(Event::Rpc(Rpc::RelocateResponse(info))),
    {
        self.send_rpc(Rpc::RelocateResponse(info));
    }

    pub fn send_candidate_proof_request(&mut self, candidate: Candidate)
        ensures
            final(self)@ == old(self)@.log(
                Event::Rpc(
                    Rpc::ResourceProof {
                        candidate,
                        source: old(self)@.our_name(),
                        proof: ProofRequest { value: old(self)@.our_name().0 },
                    },
                ),
            ),
    {
        let source = self.our_name();
        let proof = ProofRequest { value: source.0 };
        self.send_rpc(Rpc::ResourceProof { candidate, proof, source });
    }

    pub fn send_candidate_proof_receipt(&mut self, candidate: Candidate)
        ensures
            final(self)@ == old(self)@.log(
                Event::Rpc(Rpc::ResourceProofReceipt { candidate, source: old(self)@.our_name() }),
            ),
    {
        let source = self.our_name();
        self.send_rpc(Rpc::ResourceProofReceipt { candidate, source });
    }

    pub fn start_compute_resource_proof(&mut self, source: Name, proof: ProofRequest)
        ensures
            final(self)@ == old(self)@.log(
                Event::ActionTriggered(ActionTriggered::ComputeResourceProofForElder(source)),
            ),
    {
        self.action_triggered(ActionTriggered::ComputeResourceProofForElder(source));
    }

    /// The elders of the section in `info`, split into those we are
    /// connected to and the others, each in the order they are listed.
    pub fn get_connected_and_unconnected(&self, info: RelocatedInfo) -> (r: (Vec<Name>, Vec<Name>))
        requires
            self@.members_of(info.section_info) is Some,
        ensures
            r.0@ == member_names(self@.members_of(info.section_info)->0).filter(
                is_connected_in(self@.connected),
            ),
            r.1@ == member_names(self@.members_of(info.section_info)->0).filter(
                is_unconnected_in(self@.connected),
            ),
            forall|i: int| 0 <= i < r.0@.len() ==> self@.connected.contains(#[trigger] r.0@[i]),
    {
        let elders = self.get_section_elders(info.section_info);
        let ghost names = member_names(elders@);
        let ghost connected = self@.connected;
        let mut yes: Vec<Name> = Vec::new();
        let mut no: Vec<Name> = Vec::new();
        let mut i: usize = 0;
        while i < elders.len()
            invariant
                0 <= i <= elders@.len(),
                names == member_names(elders@),
                connected == self@.connected,
                yes@ == names.take(i as int).filter(is_connected_in(connected)),
                no@ == names.take(i as int).filter(is_unconnected_in(connected)),
                forall|j: int| 0 <= j < yes@.len() ==> connected.contains(#[trigger] yes@[j]),
            decreases elders@.len() - i,
        {
            let name = elders[i].0.name;
            proof {
                reveal(Seq::filter);
                assert(names.take(i + 1).drop_last() =~= names.take(i as int));
                assert(names.take(i + 1).last() == name);
            }
            if contains_name(&self.0.connected, name) {
                yes.push(name);
            } else {
                no.push(name);
            }
            i = i + 1;
        }
        assert(names.take(i as int) =~= names);
        (yes, no)
    }

    /// The elders listed for `info`.
    pub fn get_section_elders(&self, info: SectionInfo) -> (r: Vec<Node>)
        requires
            self@.members_of(info) is Some,
        ensures
            r@ == self@.members_of(info)->0,
    {
        let mut i: usize = 0;
        while i < self.0.section_members.len()
            invariant
                0 <= i <= self@.section_members.len(),
                self@.members_of(info) is Some,
                forall|j: int| 0 <= j < i ==> self@.section_members[j].0 != info,
            decreases self@.section_members.len() - i,
        {
            if self.0.section_members[i].0 == info {
                proof {
                    lemma_first_members(self@, info, i as int);
                }
                return self.0.section_members[i].1.clone();
            }
            i = i + 1;
        }
        proof {
            let j = choose|j: int| 0 <= j < self@.section_members.len() && self@.section_members[j].0 == info;
            assert(self@.section_members[j].0 != info);
        }
        Vec::new()
    }

    /// Takes the next part of the proof for `source`, if we hold one.
    pub fn get_next_resource_proof_part(&mut self, source: Name) -> (r: Option<Proof>)
        ensures
            final(self)@ == old(self)@.take_proof_part(source),
            r == old(self)@.proof_part(source),
    {
        let ghost before = self@;
        match self.0.find_proof(source) {
            Some(i) => {
                let mut stream = self.0.resource_proofs_for_elder[i].1;
                let part = stream.next_part();
                self.0.resource_proofs_for_elder.set(i, (source, stream));
                assert(stream == ProofSource(proof_counter_after(before.proofs[i as int].1.0 as int) as i32));
                assert(self@.proofs =~= before.take_proof_part(source).proofs);
                part
            },
            None => None,
        }
    }

    pub fn send_connection_info_request(&mut self, destination: Name)
        ensures
            final(self)@ == old(self)@.log(
                Event::Rpc(
                    Rpc::ConnectionInfoRequest {
                        source: old(self)@.our_name(),
                        destination,
                        connection_info: old(self)@.our_name().0,
                    },
                ),
            ),
    {
        let source = self.our_name();
        self.send_rpc(Rpc::ConnectionInfoRequest { source, destination, connection_info: source.0 });
    }

    pub fn send_connection_info_response(&mut self, destination: Name)
        ensures
            final(self)@ == old(self)@.log(
                Event::Rpc(
                    Rpc::ConnectionInfoResponse {
                        source: old(self)@.our_name(),
                        destination,
                        connection_info: old(self)@.our_name().0,
                    },
                ),
            ),
    {
        let source = self.our_name();
        self.send_rpc(Rpc::ConnectionInfoResponse { source, destination, connection_info: source.0 });
    }

    /// Counts `destination` as connected and hands it our identity.
    pub fn send_candidate_info(&mut self, destination: Name, relocated_info: RelocatedInfo)
        ensures
            final(self)@ == old(self)@.add_connected(destination).log(
                Event::Rpc(old(self)@.candidate_info_rpc(relocated_info)),
            ),
    {
        if !contains_name(&self.0.connected, destination) {
            self.0.connected.push(destination);
        }
        let new_public_id = Candidate(self.0.our_attributes);
        self.send_rpc(
            Rpc::CandidateInfo(
                CandidateInfo {
                    old_public_id: relocated_info.candidate,
                    new_public_id,
                    destination: relocated_info.target_interval_centre,
                    valid: true,
                },
            ),
        );
    }

    pub fn send_resource_proof_response(&mut self, destination: Name, proof: Proof)
        ensures
            final(self)@ == old(self)@.log(
                Event::Rpc(
                    Rpc::ResourceProofResponse {
                        candidate: Candidate(old(self)@.our_attributes),
                        destination,
                        proof,
                    },
                ),
            ),
    {
        let candidate = Candidate(self.0.our_attributes);
        self.send_rpc(Rpc::ResourceProofResponse { candidate, destination, proof });
    }

    pub fn send_merge_rpc(&mut self)
        ensures
            final(self)@ == old(self)@.log(Event::Rpc(Rpc::Merge(old(self)@.our_section))),
    {
        let section = self.our_section();
        self.send_rpc(Rpc::Merge(section));
    }

    /// Work units are counted by the journal alone in this model.
    pub fn increment_nodes_work_units(&mut self)
        ensures
            final(self)@ == old(self)@.log(
                Event::ActionTriggered(ActionTriggered::WorkUnitIncremented),
            ),
    {
        self.action_triggered(ActionTriggered::WorkUnitIncremented);
    }

    pub fn store_merge_infos(&mut self, merge_info: SectionInfo)
        ensures
            final(self)@ == (ActionModel { merge_infos: Some(merge_info), ..old(self)@ }).log(
                Event::ActionTriggered(ActionTriggered::MergeInfoStored(merge_info)),
            ),
    {
        self.0.store_merge_infos(merge_info);
    }

    pub fn has_merge_infos(&self) -> (r: bool)
        ensures
            r == self@.merge_infos is Some,
    {
        self.0.merge_infos.is_some()
    }

    pub fn merge_needed(&self) -> (r: bool)
        ensures
            r == (self@.churn_needed == Some(ChurnNeeded::Merge)),
    {
        match self.0.churn_needed {
            Some(ChurnNeeded::Merge) => true,
            _ => false,
        }
    }

    pub fn split_needed(&self) -> (r: bool)
        ensures
            r == (self@.churn_needed == Some(ChurnNeeded::Split)),
    {
        match self.0.churn_needed {
            Some(ChurnNeeded::Split) => true,
            _ => false,
        }
    }

    pub fn complete_merge(&mut self)
        ensures
            final(self)@ == old(self)@.log(Event::ActionTriggered(ActionTriggered::CompleteMerge)),
    {
        self.0.complete_merge();
    }

    /// Whether the stored neighbour info is of a sibling section.
    pub fn has_sibling_merge_info(&self) -> (r: bool)
        ensures
            r == (self@.merge_infos is Some && is_sibling(
                self@.our_section.0,
                (self@.merge_infos->0).0,
            )),
    {
        match self.0.merge_infos {
            Some(merge_info) => {
                let ours = self.0.our_section.0.0 as i64;
                let theirs = merge_info.0.0 as i64;
                ours - theirs == 1 || theirs - ours == 1
            },
            None => false,
        }
    }

    /// Consumes the stored neighbour info and returns the section that ours
    /// and it merge into.
    pub fn merge_sibling_info_to_new_section(&mut self) -> (r: SectionInfo)
        requires
            old(self)@.merge_infos is Some,
            can_merge(old(self)@.our_section.0, (old(self)@.merge_infos->0).0),
        ensures
            r == merged_section(old(self)@.our_section.0, (old(self)@.merge_infos->0).0),
            final(self)@ == (ActionModel { merge_infos: None, ..old(self)@ }),
    {
        let our_section = self.our_section();
        let their_section = match self.0.merge_infos {
            Some(info) => info.0,
            None => our_section.0,
        };
        self.0.merge_infos = None;
        let merged = (our_section.0.0 as i64) + (their_section.0 as i64) + 1;
        SectionInfo(Section(merged as i32), 0)
    }

    pub fn complete_split(&mut self)
        ensures
            final(self)@ == old(self)@.log(Event::ActionTriggered(ActionTriggered::CompleteSplit)),
    {
        self.0.complete_split();
    }
}

fn contains_name(names: &Vec<Name>, name: Name) -> (r: bool)
    ensures
        r == names@.contains(name),
{
    let mut i: usize = 0;
    while i < names.len()
        invariant
            0 <= i <= names@.len(),
            forall|j: int| 0 <= j < i ==> names@[j] != name,
        decreases names@.len() - i,
    {
        if names[i] == name {
            return true;
        }
        i = i + 1;
    }
    false
}

pub fn contains_candidate(already: &Vec<(Candidate, i32)>, candidate: Candidate) -> (r: bool)
    ensures
        r == relocating_key_of(already@, candidate),
{
    let mut i: usize = 0;
    while i < already.len()
        invariant
            0 <= i <= already@.len(),
            forall|j: int| 0 <= j < i ==> already@[j].0 != candidate,
        decreases already@.len() - i,
    {
        if already[i].0 == candidate {
            return true;
        }
        i = i + 1;
    }
    false
}

pub proof fn lemma_lex_irrefl(a: Seq<int>)
    ensures
        !crate::order::lex_lt(a, a),
{
}

pub proof fn lemma_lex_total(a: Seq<int>, b: Seq<int>)
    requires
        a.len() == b.len(),
        !crate::order::lex_lt(a, b),
        !crate::order::lex_lt(b, a),
    ensures
        a == b,
{
    assert forall|k: int| 0 <= k < a.len() implies a[k] == b[k] by {
        lemma_lex_prefix(a, b, k);
    }
    assert(a =~= b);
}

proof fn lemma_lex_prefix(a: Seq<int>, b: Seq<int>, k: int)
    requires
        a.len() == b.len(),
        0 <= k < a.len(),
        !crate::order::lex_lt(a, b),
        !crate::order::lex_lt(b, a),
    ensures
        a[k] == b[k],
    decreases k,
{
    if k > 0 {
        lemma_lex_prefix(a, b, k - 1);
    }
    assert forall|j: int| 0 <= j < k implies a[j] == b[j] by {
        lemma_lex_prefix(a, b, j);
    }
    if a[k] < b[k] {
        assert(crate::order::lex_lt(a, b));
    } else if b[k] < a[k] {
        assert(crate::order::lex_lt(b, a));
    }
}

pub proof fn lemma_lex_trans(a: Seq<int>, b: Seq<int>, c: Seq<int>)
    requires
        a.len() == b.len(),
        b.len() == c.len(),
        !crate::order::lex_lt(b, c),
        !crate::order::lex_lt(a, b) || a == b,
    ensures
        !crate::order::lex_lt(a, c),
{
    if crate::order::lex_lt(a, c) {
        let k = choose|k: int|
            0 <= k < a.len() && k < c.len() && a[k] < c[k] && forall|j: int| 0 <= j < k ==> a[j] == c[j];
        if a == b {
        } else {
            if crate::order::lex_lt(b, a) {
                let m = choose|m: int|
                    0 <= m < b.len() && m < a.len() && b[m] < a[m] && forall|j: int| 0 <= j < m ==> b[j] == a[j];
                let w = if m < k { m } else { k };
                assert(forall|j: int| 0 <= j < w ==> b[j] == c[j]);
                assert(b[w] < c[w]);
                assert(crate::order::lex_lt(b, c));
            } else {
                lemma_lex_total(a, b);
            }
        }
    }
}

} // verus!
