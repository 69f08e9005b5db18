//! The flows that change the section itself: elder changes, merges, splits,
//! and the tracking of members that go offline and come back.
use crate::actions::{
    ActionModel, can_merge, elder_change_votes, is_sibling, merged_section, split_votes,
};
use crate::order::{elder_changes, is_elder_arrangement};
use crate::state::{ElderFlowsModel, MemberState, is_section_vote};
use crate::table::has_row;
use crate::utilities::{
    ActionTriggered, ChangeElder, ChurnNeeded, Event, LocalEvent, Node, ParsecVote, Rpc,
    SectionInfo, State, TryResult, WaitedEvent,
};
use vstd::prelude::*;

verus! {

pub open spec fn not_vote(v: ParsecVote) -> spec_fn(ParsecVote) -> bool {
    |x: ParsecVote| x != v
}

/// The votes still awaited once `v` reached consensus.
pub open spec fn votes_without(votes: Seq<ParsecVote>, v: ParsecVote) -> Seq<ParsecVote> {
    votes.filter(not_vote(v))
}

fn remove_vote(votes: &Vec<ParsecVote>, v: ParsecVote) -> (r: Vec<ParsecVote>)
    ensures
        r@ == votes_without(votes@, v),
{
    let ghost s = votes@;
    let mut r: Vec<ParsecVote> = Vec::new();
    let mut i: usize = 0;
    while i < votes.len()
        invariant
            s == votes@,
            0 <= i <= s.len(),
            r@ == s.take(i as int).filter(not_vote(v)),
        decreases s.len() - i,
    {
        proof {
            reveal(Seq::filter);
            assert(s.take(i + 1).drop_last() =~= s.take(i as int));
        }
        if votes[i] != v {
            r.push(votes[i]);
        }
        i = i + 1;
    }
    assert(s.take(i as int) =~= s);
    r
}

pub proof fn lemma_votes_without_section_votes(votes: Seq<ParsecVote>, v: ParsecVote)
    requires
        forall|i: int| 0 <= i < votes.len() ==> is_section_vote(#[trigger] votes[i]),
    ensures
        forall|i: int|
            0 <= i < votes_without(votes, v).len() ==> is_section_vote(
                #[trigger] votes_without(votes, v)[i],
            ),
{
    let p = not_vote(v);
    assert forall|i: int| 0 <= i < votes_without(votes, v).len() implies is_section_vote(
        #[trigger] votes_without(votes, v)[i],
    ) by {
        crate::table::lemma_filter_from(votes, p, i);
    }
}

pub proof fn lemma_elder_change_votes_are_section_votes(changes: Seq<(Node, bool)>, section: SectionInfo)
    ensures
        forall|i: int|
            0 <= i < elder_change_votes(changes, section).len() ==> is_section_vote(
                #[trigger] elder_change_votes(changes, section)[i],
            ),
{
    let votes = elder_change_votes(changes, section);
    assert forall|i: int| 0 <= i < votes.len() implies is_section_vote(#[trigger] votes[i]) by {
        if i < changes.len() {
            assert(votes[i] == crate::actions::vote_for_change(changes[i]));
        }
    }
}

fn contains_vote(votes: &Vec<ParsecVote>, v: ParsecVote) -> (r: bool)
    ensures
        r == votes@.contains(v),
{
    let mut i: usize = 0;
    while i < votes.len()
        invariant
            0 <= i <= votes@.len(),
            forall|j: int| 0 <= j < i ==> votes@[j] != v,
        decreases votes@.len() - i,
    {
        if votes[i] == v {
            return true;
        }
        i = i + 1;
    }
    false
}

/// The action once a stored sibling info was turned into a vote for the
/// merged section; unchanged when the stored info is not a sibling's.
pub open spec fn after_sibling_check(a: ActionModel) -> ActionModel {
    if a.merge_infos is Some && is_sibling(a.our_section.0, (a.merge_infos->0).0) {
        ActionModel { merge_infos: None, ..a }.log(
            Event::ParsecConsensus(
                ParsecVote::NewSectionInfo(merged_section(a.our_section.0, (a.merge_infos->0).0)),
            ),
        )
    } else {
        a
    }
}

pub open spec fn sibling_check_ok(a: ActionModel) -> bool {
    a.merge_infos is Some && is_sibling(a.our_section.0, (a.merge_infos->0).0) ==> can_merge(
        a.our_section.0,
        (a.merge_infos->0).0,
    )
}

pub open spec fn scheduled(e: LocalEvent) -> Event {
    Event::ActionTriggered(ActionTriggered::Scheduled(e))
}

pub open spec fn voted(v: ParsecVote) -> Event {
    Event::ParsecConsensus(v)
}

pub open spec fn store_info(a: ActionModel, info: SectionInfo) -> ActionModel {
    ActionModel { merge_infos: Some(info), ..a }.log(
        Event::ActionTriggered(ActionTriggered::MergeInfoStored(info)),
    )
}

/// Changes of membership that the section agrees on: merging with a
/// neighbour, splitting, and changing elders, one at a time.
pub struct StartMergeSplitAndChangeElders;

impl StartMergeSplitAndChangeElders {
    pub open spec fn merge_pending(a: ActionModel) -> bool {
        a.merge_infos is Some || a.churn_needed == Some(ChurnNeeded::Merge)
    }

    /// What is owed before a `CheckElder` consensus can be acted on.
    pub open spec fn check_elder_ok(pre: MemberState) -> bool {
        let a = pre.action@;
        if Self::merge_pending(a) {
            sibling_check_ok(a)
        } else {
            a.our_section.1 < i32::MAX && (a.churn_needed == Some(ChurnNeeded::Split)
                ==> a.our_section.0.0 + 2 <= i32::MAX)
        }
    }

    /// The outcome of a `CheckElder` consensus when no merge is pending, for
    /// one arrangement of the members in elder order.
    pub open spec fn elder_or_split_step(pre: MemberState, post: MemberState, sorted: Seq<
        crate::utilities::NodeState,
    >) -> bool {
        let a = pre.action@;
        let m = pre.start_merge_split_and_change_elders@;
        if elder_changes(sorted).len() > 0 {
            let change = (
                elder_changes(sorted),
                SectionInfo(a.our_section.0, (a.our_section.1 + 1) as i32),
            );
            let votes = elder_change_votes(change.0, change.1);
            pre.elder_flows_changed(
                post,
                a.log_votes(votes),
                ElderFlowsModel {
                    elder_active: true,
                    elder_wait: votes,
                    elder_change: Some(change),
                    ..m
                },
            )
        } else if a.churn_needed == Some(ChurnNeeded::Split) {
            let votes = split_votes(a.our_section.0);
            pre.elder_flows_changed(
                post,
                a.log_votes(votes),
                ElderFlowsModel { split_active: true, split_wait: votes, ..m },
            )
        } else {
            pre.only_action(post, a.log(scheduled(LocalEvent::TimeoutCheckElder)))
        }
    }

    /// The outcome of a `CheckElder` consensus: merge if a merge is pending
    /// or needed; else change elders where the elder rule asks for it; else
    /// split if needed; else check again later.
    pub open spec fn check_elder_step(pre: MemberState, post: MemberState) -> bool {
        let a = pre.action@;
        let m = pre.start_merge_split_and_change_elders@;
        if Self::merge_pending(a) {
            pre.elder_flows_changed(
                post,
                after_sibling_check(a.log(Event::Rpc(Rpc::Merge(a.our_section)))),
                ElderFlowsModel { merge_active: true, ..m },
            )
        } else {
            exists|sorted: Seq<crate::utilities::NodeState>|
                #[trigger] is_elder_arrangement(sorted, a.nodes) && Self::elder_or_split_step(
                    pre,
                    post,
                    sorted,
                )
        }
    }

    pub open spec fn accepts(pre: MemberState, e: WaitedEvent) -> bool {
        match e {
            WaitedEvent::ParsecConsensus(ParsecVote::CheckElder) => Self::check_elder_ok(pre),
            _ => true,
        }
    }

    pub open spec fn step(pre: MemberState, e: WaitedEvent, post: MemberState, r: TryResult) -> bool {
        let a = pre.action@;
        match e {
            WaitedEvent::ParsecConsensus(ParsecVote::NeighbourMerge(info)) => r == TryResult::Handled
                && pre.only_action(post, store_info(a, info)),
            WaitedEvent::ParsecConsensus(ParsecVote::CheckElder) => r == TryResult::Handled
                && Self::check_elder_step(pre, post),
            WaitedEvent::Rpc(Rpc::Merge(info)) => r == TryResult::Handled && pre.only_action(
                post,
                a.log(voted(ParsecVote::NeighbourMerge(info))),
            ),
            WaitedEvent::LocalEvent(LocalEvent::TimeoutCheckElder) => r == TryResult::Handled
                && pre.only_action(post, a.log(voted(ParsecVote::CheckElder))),
            _ => r == TryResult::Unhandled && post == pre,
        }
    }

    pub fn start_event_loop(state: &mut MemberState)
        ensures
            old(state).only_action(
                *final(state),
                old(state).action@.log(scheduled(LocalEvent::TimeoutCheckElder)),
            ),
    {
        Self::start_check_elder_timeout(state);
    }

    pub fn try_next(state: &mut MemberState, event: WaitedEvent) -> (r: TryResult)
        requires
            old(state).wf(),
            Self::accepts(*old(state), event),
        ensures
            final(state).wf(),
            Self::step(*old(state), event, *final(state), r),
    {
        match event {
            WaitedEvent::ParsecConsensus(vote) => Self::try_consensus(state, &vote),
            WaitedEvent::Rpc(rpc) => Self::try_rpc(state, rpc),
            WaitedEvent::LocalEvent(LocalEvent::TimeoutCheckElder) => {
                Self::vote_parsec_check_elder(state);
                TryResult::Handled
            },
            _ => TryResult::Unhandled,
        }
    }

    fn try_consensus(state: &mut MemberState, vote: &ParsecVote) -> (r: TryResult)
        requires
            old(state).wf(),
            Self::accepts(*old(state), WaitedEvent::ParsecConsensus(*vote)),
        ensures
            final(state).wf(),
            Self::step(*old(state), WaitedEvent::ParsecConsensus(*vote), *final(state), r),
    {
        match vote {
            ParsecVote::NeighbourMerge(merge_info) => {
                state.action.store_merge_infos(*merge_info);
                TryResult::Handled
            },
            ParsecVote::CheckElder => {
                Self::check_merge(state);
                TryResult::Handled
            },
            _ => TryResult::Unhandled,
        }
    }

    fn try_rpc(state: &mut MemberState, rpc: Rpc) -> (r: TryResult)
        requires
            old(state).wf(),
        ensures
            final(state).wf(),
            Self::step(*old(state), WaitedEvent::Rpc(rpc), *final(state), r),
    {
        match rpc {
            Rpc::Merge(section_info) => {
                Self::vote_parsec_neighbour_merge(state, section_info);
                TryResult::Handled
            },
            _ => TryResult::Unhandled,
        }
    }

    fn check_merge(state: &mut MemberState)
        requires
            old(state).wf(),
            Self::check_elder_ok(*old(state)),
        ensures
            final(state).wf(),
            Self::check_elder_step(*old(state), *final(state)),
    {
        if state.action.has_merge_infos() || state.action.merge_needed() {
            ProcessMerge::start_event_loop(state);
        } else {
            Self::check_elder(state);
        }
    }

    fn check_elder(state: &mut MemberState)
        requires
            old(state).wf(),
            !Self::merge_pending(old(state).action@),
            Self::check_elder_ok(*old(state)),
        ensures
            final(state).wf(),
            Self::check_elder_step(*old(state), *final(state)),
    {
        let ghost pre = *state;
        match state.action.check_elder() {
            Some(change_elder) => {
                let ghost sorted = choose|sorted: Seq<crate::utilities::NodeState>|
                    #[trigger] is_elder_arrangement(sorted, pre.action@.nodes) && (elder_changes(
                        sorted,
                    ).len() == 0) == false && change_elder.changes@ == elder_changes(sorted)
                        && change_elder.new_section == SectionInfo(
                        pre.action@.our_section.0,
                        (pre.action@.our_section.1 + 1) as i32,
                    );
                ProcessElderChange::start_event_loop(state, change_elder);
                assert(Self::elder_or_split_step(pre, *state, sorted));
            },
            None => {
                let ghost sorted = choose|sorted: Seq<crate::utilities::NodeState>|
                    #[trigger] is_elder_arrangement(sorted, pre.action@.nodes) && elder_changes(
                        sorted,
                    ).len() == 0;
                if state.action.split_needed() {
                    ProcessSplit::start_event_loop(state);
                } else {
                    Self::start_check_elder_timeout(state);
                }
                assert(Self::elder_or_split_step(pre, *state, sorted));
            },
        }
    }

    pub(crate) fn transition_exit_process_elder_change(state: &mut MemberState)
        ensures
            old(state).only_action(
                *final(state),
                old(state).action@.log(scheduled(LocalEvent::TimeoutCheckElder)),
            ),
    {
        Self::start_check_elder_timeout(state);
    }

    pub(crate) fn transition_exit_process_split(state: &mut MemberState)
        ensures
            old(state).only_action(
                *final(state),
                old(state).action@.log(scheduled(LocalEvent::TimeoutCheckElder)),
            ),
    {
        Self::start_check_elder_timeout(state);
    }

    pub(crate) fn transition_exit_process_merge(state: &mut MemberState)
        ensures
            old(state).only_action(
                *final(state),
                old(state).action@.log(scheduled(LocalEvent::TimeoutCheckElder)),
            ),
    {
        Self::start_check_elder_timeout(state);
    }

    fn vote_parsec_check_elder(state: &mut MemberState)
        ensures
            old(state).only_action(*final(state), old(state).action@.log(voted(ParsecVote::CheckElder))),
    {
        state.action.vote_parsec(ParsecVote::CheckElder);
    }

    fn vote_parsec_neighbour_merge(state: &mut MemberState, section_info: SectionInfo)
        ensures
            old(state).only_action(
                *final(state),
                old(state).action@.log(voted(ParsecVote::NeighbourMerge(section_info))),
            ),
    {
        state.action.vote_parsec(ParsecVote::NeighbourMerge(section_info));
    }

    fn start_check_elder_timeout(state: &mut MemberState)
        ensures
            old(state).only_action(
                *final(state),
                old(state).action@.log(scheduled(LocalEvent::TimeoutCheckElder)),
            ),
    {
        state.action.schedule_event(LocalEvent::TimeoutCheckElder);
    }
}

/// Carries out an elder change: votes each change, waits until all of them
/// reached consensus, then applies them.
pub struct ProcessElderChange;

impl ProcessElderChange {
    /// Whether `v` is the last vote awaited.
    pub open spec fn completes(pre: MemberState, v: ParsecVote) -> bool {
        let m = pre.start_merge_split_and_change_elders@;
        m.elder_wait.contains(v) && votes_without(m.elder_wait, v).len() == 0
    }

    pub open spec fn accepts(pre: MemberState, e: WaitedEvent) -> bool {
        let m = pre.start_merge_split_and_change_elders@;
        match e {
            WaitedEvent::ParsecConsensus(v) => Self::completes(pre, v) ==> forall|i: int|
                0 <= i < (m.elder_change->0).0.len() ==> has_row(
                    pre.action@.nodes,
                    #[trigger] (m.elder_change->0).0[i].0.0.name,
                ),
            _ => true,
        }
    }

    pub open spec fn step(pre: MemberState, e: WaitedEvent, post: MemberState, r: TryResult) -> bool {
        let a = pre.action@;
        let m = pre.start_merge_split_and_change_elders@;
        match e {
            WaitedEvent::ParsecConsensus(v) => if m.elder_wait.contains(v) {
                let rest = votes_without(m.elder_wait, v);
                r == TryResult::Handled && if rest.len() == 0 {
                    pre.elder_flows_changed(
                        post,
                        a.set_elders((m.elder_change->0).0).set_section(
                            (m.elder_change->0).1,
                        ).log(scheduled(LocalEvent::TimeoutCheckElder)),
                        ElderFlowsModel {
                            elder_active: false,
                            elder_wait: rest,
                            elder_change: None,
                            ..m
                        },
                    )
                } else {
                    pre.elder_flows_changed(post, a, ElderFlowsModel { elder_wait: rest, ..m })
                }
            } else {
                r == TryResult::Unhandled && post == pre
            },
            _ => r == TryResult::Unhandled && post == pre,
        }
    }

    pub fn start_event_loop(state: &mut MemberState, change_elder: ChangeElder)
        requires
            old(state).wf(),
            old(state).action@.our_section.1 < i32::MAX,
            change_elder.new_section == SectionInfo(
                old(state).action@.our_section.0,
                (old(state).action@.our_section.1 + 1) as i32,
            ),
        ensures
            final(state).wf(),
            old(state).elder_flows_changed(
                *final(state),
                old(state).action@.log_votes(
                    elder_change_votes(change_elder.changes@, change_elder.new_section),
                ),
                ElderFlowsModel {
                    elder_active: true,
                    elder_wait: elder_change_votes(change_elder.changes@, change_elder.new_section),
                    elder_change: Some((change_elder.changes@, change_elder.new_section)),
                    ..old(state).start_merge_split_and_change_elders@
                },
            ),
    {
        Self::vote_for_elder_change(state, change_elder);
        state.start_merge_split_and_change_elders.sub_routine_process_elder_change.is_active = true;
    }

    fn exit_event_loop(state: &mut MemberState)
        ensures
            old(state).elder_flows_changed(
                *final(state),
                old(state).action@.log(scheduled(LocalEvent::TimeoutCheckElder)),
                ElderFlowsModel {
                    elder_active: false,
                    elder_change: None,
                    ..old(state).start_merge_split_and_change_elders@
                },
            ),
    {
        state.start_merge_split_and_change_elders.sub_routine_process_elder_change.is_active = false;
        state.start_merge_split_and_change_elders.sub_routine_process_elder_change.change_elder = None;
        StartMergeSplitAndChangeElders::transition_exit_process_elder_change(state);
    }

    /// Offered events only while an elder change is under way.
    pub fn try_next(state: &mut MemberState, event: WaitedEvent) -> (r: TryResult)
        requires
            old(state).wf(),
            old(state).start_merge_split_and_change_elders@.elder_active,
            Self::accepts(*old(state), event),
        ensures
            final(state).wf(),
            Self::step(*old(state), event, *final(state), r),
    {
        match event {
            WaitedEvent::ParsecConsensus(vote) => Self::try_consensus(state, &vote),
            _ => TryResult::Unhandled,
        }
    }

    fn try_consensus(state: &mut MemberState, vote: &ParsecVote) -> (r: TryResult)
        requires
            old(state).wf(),
            old(state).start_merge_split_and_change_elders@.elder_active,
            Self::accepts(*old(state), WaitedEvent::ParsecConsensus(*vote)),
        ensures
            final(state).wf(),
            Self::step(*old(state), WaitedEvent::ParsecConsensus(*vote), *final(state), r),
    {
        if !contains_vote(
            &state.start_merge_split_and_change_elders.sub_routine_process_elder_change.wait_votes,
            *vote,
        ) {
            return TryResult::Unhandled;
        }
        let rest = remove_vote(
            &state.start_merge_split_and_change_elders.sub_routine_process_elder_change.wait_votes,
            *vote,
        );
        proof {
            lemma_votes_without_section_votes(state.start_merge_split_and_change_elders@.elder_wait, *vote);
        }
        let done = rest.len() == 0;
        let ghost rest_view = rest@;
        let ghost other_wait = state.start_merge_split_and_change_elders@.split_wait;
        assert(forall|i: int| 0 <= i < other_wait.len() ==> is_section_vote(#[trigger] other_wait[i]));
        state.start_merge_split_and_change_elders.sub_routine_process_elder_change.wait_votes = rest;
        assert(state.start_merge_split_and_change_elders@.elder_wait == rest_view);
        assert(state.start_merge_split_and_change_elders@.split_wait == other_wait);
        assert(state.action@.wf());
        assert(forall|i: int| 0 <= i < rest_view.len() ==> is_section_vote(#[trigger] rest_view[i]));
        assert(state.wf());
        if done {
            Self::mark_elder_change(state);
            Self::exit_event_loop(state);
        }
        TryResult::Handled
    }

    fn vote_for_elder_change(state: &mut MemberState, change_elder: ChangeElder)
        requires
            old(state).wf(),
            old(state).action@.our_section.1 < i32::MAX,
            change_elder.new_section == SectionInfo(
                old(state).action@.our_section.0,
                (old(state).action@.our_section.1 + 1) as i32,
            ),
        ensures
            final(state).wf(),
            old(state).elder_flows_changed(
                *final(state),
                old(state).action@.log_votes(
                    elder_change_votes(change_elder.changes@, change_elder.new_section),
                ),
                ElderFlowsModel {
                    elder_wait: elder_change_votes(change_elder.changes@, change_elder.new_section),
                    elder_change: Some((change_elder.changes@, change_elder.new_section)),
                    ..old(state).start_merge_split_and_change_elders@
                },
            ),
    {
        let votes = state.action.get_elder_change_votes(&change_elder);
        proof {
            lemma_elder_change_votes_are_section_votes(change_elder.changes@, change_elder.new_section);
        }
        state.action.vote_all(&votes);
        state.start_merge_split_and_change_elders.sub_routine_process_elder_change.change_elder = Some(
            change_elder,
        );
        state.start_merge_split_and_change_elders.sub_routine_process_elder_change.wait_votes = votes;
    }

    /// Applies the awaited change, which is then no longer held.
    fn mark_elder_change(state: &mut MemberState)
        requires
            old(state).wf(),
            old(state).start_merge_split_and_change_elders@.elder_active,
            forall|i: int|
                0 <= i < (old(state).start_merge_split_and_change_elders@.elder_change->0).0.len()
                    ==> has_row(
                    old(state).action@.nodes,
                    #[trigger] (old(state).start_merge_split_and_change_elders@.elder_change->0).0[i].0.0.name,
                ),
        ensures
            old(state).elder_flows_changed(
                *final(state),
                old(state).action@.set_elders(
                    (old(state).start_merge_split_and_change_elders@.elder_change->0).0,
                ).set_section((old(state).start_merge_split_and_change_elders@.elder_change->0).1),
                ElderFlowsModel {
                    elder_change: None,
                    ..old(state).start_merge_split_and_change_elders@
                },
            ),
            final(state).action@.wf(),
    {
        let taken = state.start_merge_split_and_change_elders.sub_routine_process_elder_change.change_elder.take();
        match taken {
            Some(change_elder) => {
                state.action.mark_elder_change(change_elder);
            },
            None => {},
        }
    }
}

/// Carries out a merge with a neighbour section.
pub struct ProcessMerge;

impl ProcessMerge {
    pub open spec fn accepts(pre: MemberState, e: WaitedEvent) -> bool {
        match e {
            WaitedEvent::ParsecConsensus(ParsecVote::NeighbourMerge(info)) => sibling_check_ok(
                store_info(pre.action@, info),
            ),
            _ => true,
        }
    }

    pub open spec fn step(pre: MemberState, e: WaitedEvent, post: MemberState, r: TryResult) -> bool {
        let a = pre.action@;
        let m = pre.start_merge_split_and_change_elders@;
        match e {
            WaitedEvent::ParsecConsensus(ParsecVote::NewSectionInfo(_)) => r == TryResult::Handled
                && pre.elder_flows_changed(
                post,
                a.log(Event::ActionTriggered(ActionTriggered::CompleteMerge)).log(
                    scheduled(LocalEvent::TimeoutCheckElder),
                ),
                ElderFlowsModel { merge_active: false, ..m },
            ),
            WaitedEvent::ParsecConsensus(ParsecVote::NeighbourMerge(info)) => r == TryResult::Handled
                && pre.only_action(post, after_sibling_check(store_info(a, info))),
            _ => r == TryResult::Unhandled && post == pre,
        }
    }

    pub fn start_event_loop(state: &mut MemberState)
        requires
            old(state).wf(),
            sibling_check_ok(old(state).action@),
        ensures
            final(state).wf(),
            old(state).elder_flows_changed(
                *final(state),
                after_sibling_check(
                    old(state).action@.log(Event::Rpc(Rpc::Merge(old(state).action@.our_section))),
                ),
                ElderFlowsModel { merge_active: true, ..old(state).start_merge_split_and_change_elders@ },
            ),
    {
        Self::set_is_active(state, true);
        state.action.send_merge_rpc();
        Self::check_sibling_merge_info(state);
    }

    fn exit_event_loop(state: &mut MemberState)
        ensures
            old(state).elder_flows_changed(
                *final(state),
                old(state).action@.log(scheduled(LocalEvent::TimeoutCheckElder)),
                ElderFlowsModel { merge_active: false, ..old(state).start_merge_split_and_change_elders@ },
            ),
    {
        Self::set_is_active(state, false);
        StartMergeSplitAndChangeElders::transition_exit_process_merge(state);
    }

    fn set_is_active(state: &mut MemberState, is_active: bool)
        ensures
            old(state).elder_flows_changed(
                *final(state),
                old(state).action@,
                ElderFlowsModel { merge_active: is_active, ..old(state).start_merge_split_and_change_elders@ },
            ),
    {
        state.start_merge_split_and_change_elders.sub_routine_process_merge_active = is_active;
    }

    fn check_sibling_merge_info(state: &mut MemberState)
        requires
            old(state).wf(),
            sibling_check_ok(old(state).action@),
        ensures
            final(state).wf(),
            old(state).only_action(*final(state), after_sibling_check(old(state).action@)),
    {
        if state.action.has_sibling_merge_info() {
            let new_section = state.action.merge_sibling_info_to_new_section();
            state.action.vote_parsec(ParsecVote::NewSectionInfo(new_section));
        }
    }

    pub fn try_next(state: &mut MemberState, event: WaitedEvent) -> (r: TryResult)
        requires
            old(state).wf(),
            Self::accepts(*old(state), event),
        ensures
            final(state).wf(),
            Self::step(*old(state), event, *final(state), r),
    {
        match event {
            WaitedEvent::ParsecConsensus(vote) => Self::try_consensus(state, vote),
            WaitedEvent::Rpc(_) | WaitedEvent::LocalEvent(_) => TryResult::Unhandled,
        }
    }

    fn try_consensus(state: &mut MemberState, vote: ParsecVote) -> (r: TryResult)
        requires
            old(state).wf(),
            Self::accepts(*old(state), WaitedEvent::ParsecConsensus(vote)),
        ensures
            final(state).wf(),
            Self::step(*old(state), WaitedEvent::ParsecConsensus(vote), *final(state), r),
    {
        match vote {
            ParsecVote::NewSectionInfo(_) => {
                state.action.complete_merge();
                Self::update_elder_status(state);
                Self::exit_event_loop(state);
                TryResult::Handled
            },
            ParsecVote::NeighbourMerge(merge_info) => {
                state.action.store_merge_infos(merge_info);
                Self::check_sibling_merge_info(state);
                TryResult::Handled
            },
            _ => TryResult::Unhandled,
        }
    }

    /// The elders of the merged section are left to the next `CheckElder`.
    fn update_elder_status(state: &mut MemberState)
        ensures
            *final(state) == *old(state),
    {
    }
}

/// Carries out a split: votes for the two new sections and waits until both
/// reached consensus, in any order.
pub struct ProcessSplit;

impl ProcessSplit {
    pub open spec fn step(pre: MemberState, e: WaitedEvent, post: MemberState, r: TryResult) -> bool {
        let a = pre.action@;
        let m = pre.start_merge_split_and_change_elders@;
        match e {
            WaitedEvent::ParsecConsensus(v) => if m.split_wait.contains(v) {
                let rest = votes_without(m.split_wait, v);
                r == TryResult::Handled && if rest.len() == 0 {
                    pre.elder_flows_changed(
                        post,
                        a.log(Event::ActionTriggered(ActionTriggered::CompleteSplit)).log(
                            scheduled(LocalEvent::TimeoutCheckElder),
                        ),
                        ElderFlowsModel { split_active: false, split_wait: rest, ..m },
                    )
                } else {
                    pre.elder_flows_changed(post, a, ElderFlowsModel { split_wait: rest, ..m })
                }
            } else {
                r == TryResult::Unhandled && post == pre
            },
            _ => r == TryResult::Unhandled && post == pre,
        }
    }

    pub fn start_event_loop(state: &mut MemberState)
        requires
            old(state).wf(),
            old(state).action@.our_section.0.0 + 2 <= i32::MAX,
        ensures
            final(state).wf(),
            old(state).elder_flows_changed(
                *final(state),
                old(state).action@.log_votes(split_votes(old(state).action@.our_section.0)),
                ElderFlowsModel {
                    split_active: true,
                    split_wait: split_votes(old(state).action@.our_section.0),
                    ..old(state).start_merge_split_and_change_elders@
                },
            ),
    {
        Self::vote_for_split_sections(state);
        state.start_merge_split_and_change_elders.sub_routine_process_split.is_active = true;
    }

    fn exit_event_loop(state: &mut MemberState)
        ensures
            old(state).elder_flows_changed(
                *final(state),
                old(state).action@.log(scheduled(LocalEvent::TimeoutCheckElder)),
                ElderFlowsModel { split_active: false, ..old(state).start_merge_split_and_change_elders@ },
            ),
    {
        state.start_merge_split_and_change_elders.sub_routine_process_split.is_active = false;
        StartMergeSplitAndChangeElders::transition_exit_process_split(state);
    }

    pub fn try_next(state: &mut MemberState, event: WaitedEvent) -> (r: TryResult)
        requires
            old(state).wf(),
        ensures
            final(state).wf(),
            Self::step(*old(state), event, *final(state), r),
    {
        match event {
            WaitedEvent::ParsecConsensus(vote) => Self::try_consensus(state, &vote),
            WaitedEvent::Rpc(_) | WaitedEvent::LocalEvent(_) => TryResult::Unhandled,
        }
    }

    fn try_consensus(state: &mut MemberState, vote: &ParsecVote) -> (r: TryResult)
        requires
            old(state).wf(),
        ensures
            final(state).wf(),
            Self::step(*old(state), WaitedEvent::ParsecConsensus(*vote), *final(state), r),
    {
        if !contains_vote(&state.start_merge_split_and_change_elders.sub_routine_process_split.wait_votes, *vote) {
            return TryResult::Unhandled;
        }
        let rest = remove_vote(
            &state.start_merge_split_and_change_elders.sub_routine_process_split.wait_votes,
            *vote,
        );
        proof {
            lemma_votes_without_section_votes(state.start_merge_split_and_change_elders@.split_wait, *vote);
        }
        let done = rest.len() == 0;
        let ghost rest_view = rest@;
        let ghost other_wait = state.start_merge_split_and_change_elders@.elder_wait;
        assert(forall|i: int| 0 <= i < other_wait.len() ==> is_section_vote(#[trigger] other_wait[i]));
        state.start_merge_split_and_change_elders.sub_routine_process_split.wait_votes = rest;
        assert(state.start_merge_split_and_change_elders@.split_wait == rest_view);
        assert(state.start_merge_split_and_change_elders@.elder_wait == other_wait);
        assert(state.action@.wf());
        assert(forall|i: int| 0 <= i < rest_view.len() ==> is_section_vote(#[trigger] rest_view[i]));
        assert(state.wf());
        if done {
            Self::complete_split(state);
            Self::mark_elder_change(state);
            Self::exit_event_loop(state);
        }
        TryResult::Handled
    }

    fn vote_for_split_sections(state: &mut MemberState)
        requires
            old(state).wf(),
            old(state).action@.our_section.0.0 + 2 <= i32::MAX,
        ensures
            final(state).wf(),
            old(state).elder_flows_changed(
                *final(state),
                old(state).action@.log_votes(split_votes(old(state).action@.our_section.0)),
                ElderFlowsModel {
                    split_wait: split_votes(old(state).action@.our_section.0),
                    ..old(state).start_merge_split_and_change_elders@
                },
            ),
    {
        let votes = state.action.get_section_split_votes();
        state.action.vote_all(&votes);
        state.start_merge_split_and_change_elders.sub_routine_process_split.wait_votes = votes;
    }

    fn complete_split(state: &mut MemberState)
        ensures
            old(state).only_action(
                *final(state),
                old(state).action@.log(Event::ActionTriggered(ActionTriggered::CompleteSplit)),
            ),
    {
        state.action.complete_split();
    }

    /// The elders of the new sections are left to the next `CheckElder`.
    fn mark_elder_change(state: &mut MemberState)
        ensures
            *final(state) == *old(state),
    {
    }
}

/// Tracks members that lose their connection and come back.
pub struct CheckOnlineOffline;

impl CheckOnlineOffline {
    pub open spec fn accepts(pre: MemberState, e: WaitedEvent) -> bool {
        match e {
            WaitedEvent::ParsecConsensus(ParsecVote::Offline(node)) => has_row(
                pre.action@.nodes,
                node.0.name,
            ),
            WaitedEvent::ParsecConsensus(ParsecVote::BackOnline(node)) => has_row(
                pre.action@.nodes,
                node.0.name,
            ),
            _ => true,
        }
    }

    pub open spec fn step(pre: MemberState, e: WaitedEvent, post: MemberState, r: TryResult) -> bool {
        let a = pre.action@;
        match e {
            WaitedEvent::ParsecConsensus(ParsecVote::Offline(node)) => r == TryResult::Handled
                && pre.only_action(post, a.set_state(node.0.name, State::Offline)),
            WaitedEvent::ParsecConsensus(ParsecVote::BackOnline(node)) => r == TryResult::Handled
                && pre.only_action(post, a.set_state(node.0.name, State::RelocatingBackOnline)),
            WaitedEvent::LocalEvent(LocalEvent::NodeDetectedOffline(node)) => r == TryResult::Handled
                && pre.only_action(post, a.log(voted(ParsecVote::Offline(node)))),
            WaitedEvent::LocalEvent(LocalEvent::NodeDetectedBackOnline(node)) => r
                == TryResult::Handled && pre.only_action(post, a.log(voted(ParsecVote::BackOnline(node)))),
            _ => r == TryResult::Unhandled && post == pre,
        }
    }

    pub fn try_next(state: &mut MemberState, event: WaitedEvent) -> (r: TryResult)
        requires
            old(state).wf(),
            Self::accepts(*old(state), event),
        ensures
            final(state).wf(),
            Self::step(*old(state), event, *final(state), r),
    {
        match event {
            WaitedEvent::ParsecConsensus(vote) => Self::try_consensus(state, &vote),
            WaitedEvent::LocalEvent(local_event) => Self::try_local_event(state, local_event),
            _ => TryResult::Unhandled,
        }
    }

    fn try_consensus(state: &mut MemberState, vote: &ParsecVote) -> (r: TryResult)
        requires
            old(state).wf(),
            Self::accepts(*old(state), WaitedEvent::ParsecConsensus(*vote)),
        ensures
            final(state).wf(),
            Self::step(*old(state), WaitedEvent::ParsecConsensus(*vote), *final(state), r),
    {
        match vote {
            ParsecVote::Offline(node) => {
                Self::make_node_offline(state, *node);
                TryResult::Handled
            },
            ParsecVote::BackOnline(node) => {
                Self::make_node_back_online(state, *node);
                TryResult::Handled
            },
            _ => TryResult::Unhandled,
        }
    }

    fn try_local_event(state: &mut MemberState, local_event: LocalEvent) -> (r: TryResult)
        requires
            old(state).wf(),
        ensures
            final(state).wf(),
            Self::step(*old(state), WaitedEvent::LocalEvent(local_event), *final(state), r),
    {
        match local_event {
            LocalEvent::NodeDetectedOffline(node) => {
                Self::vote_parsec_offline(state, node);
                TryResult::Handled
            },
            LocalEvent::NodeDetectedBackOnline(node) => {
                Self::vote_parsec_back_online(state, node);
                TryResult::Handled
            },
            _ => TryResult::Unhandled,
        }
    }

    fn vote_parsec_offline(state: &mut MemberState, node: Node)
        ensures
            old(state).only_action(*final(state), old(state).action@.log(voted(ParsecVote::Offline(node)))),
    {
        state.action.vote_parsec(ParsecVote::Offline(node));
    }

    fn vote_parsec_back_online(state: &mut MemberState, node: Node)
        ensures
            old(state).only_action(
                *final(state),
                old(state).action@.log(voted(ParsecVote::BackOnline(node))),
            ),
    {
        state.action.vote_parsec(ParsecVote::BackOnline(node));
    }

    fn make_node_offline(state: &mut MemberState, node: Node)
        requires
            old(state).wf(),
            has_row(old(state).action@.nodes, node.0.name),
        ensures
            final(state).wf(),
            old(state).only_action(*final(state), old(state).action@.set_state(node.0.name, State::Offline)),
    {
        state.action.set_node_offline_state(node);
    }

    /// A member that lost its connection is back: it is relocated.
    fn make_node_back_online(state: &mut MemberState, node: Node)
        requires
            old(state).wf(),
            has_row(old(state).action@.nodes, node.0.name),
        ensures
            final(state).wf(),
            old(state).only_action(
                *final(state),
                old(state).action@.set_state(node.0.name, State::RelocatingBackOnline),
            ),
    {
        state.action.set_node_back_online_state(node);
    }
}

} // verus!
