//! A round of replication of one volume, from its snapshot to the outcome at every target.

use vstd::prelude::*;
use vstd::string::*;

use crate::exchange::gossip::{node_views, GossipService, GossipView};
use crate::exchange::replicator::{
    outcome_views, round_begun, round_ended, round_without_targets, targets_of, Replicator,
    ReplicatorView,
};
use crate::exchange::stream::parent_view;
use crate::ops::snapshot::{Snapshot, SnapshotView};
use crate::protocol::payload::{NodeInfo, NodeInfoView};
use crate::table::{has_key, map_of};

verus! {

broadcast use vstd::string::group_string_axioms;

/// A snapshot on its way to its targets.
pub struct Transfers {
    snapshot: Snapshot,
    previous: Option<Snapshot>,
    targets: Vec<NodeInfo>,
    outcomes: Vec<(String, bool)>,
}

/// What is known of a snapshot on its way to its targets.
#[verifier::ext_equal]
pub struct TransfersView {
    pub snapshot: SnapshotView,
    /// The snapshot that the new one is sent relative to, if there is one.
    pub previous: Option<SnapshotView>,
    pub targets: Seq<NodeInfoView>,
    /// For each target that has been served its identifier and whether the transfer succeeded.
    pub outcomes: Seq<(Seq<char>, bool)>,
}

impl View for Transfers {
    type V = TransfersView;

    closed spec fn view(&self) -> TransfersView {
        TransfersView {
            snapshot: self.snapshot@,
            previous: parent_view(self.previous),
            targets: node_views(self.targets@),
            outcomes: outcome_views(self.outcomes@),
        }
    }
}

/// How far a round has come.
pub enum RoundState {
    /// The snapshot is being made.
    Snapshotting,
    /// The snapshot is being sent to the first target that has not been served.
    Sending(Transfers),
    /// The round is over.
    Finished,
}

/// How far a round has come.
pub enum RoundStateView {
    Snapshotting,
    Sending(TransfersView),
    Finished,
}

impl View for RoundState {
    type V = RoundStateView;

    open spec fn view(&self) -> RoundStateView {
        match *self {
            RoundState::Snapshotting => RoundStateView::Snapshotting,
            RoundState::Sending(t) => RoundStateView::Sending(t@),
            RoundState::Finished => RoundStateView::Finished,
        }
    }
}

/// What an action has come to.
#[derive(Debug)]
pub enum RoundEvent {
    /// The snapshot is there, with the one to send it relative to.
    Taken(Snapshot, Option<Snapshot>),
    /// The snapshot could not be made.
    NotTaken,
    /// Whether the snapshot has reached the target.
    Sent(bool),
}

/// What an action has come to.
pub enum RoundEventView {
    Taken(SnapshotView, Option<SnapshotView>),
    NotTaken,
    Sent(bool),
}

impl View for RoundEvent {
    type V = RoundEventView;

    open spec fn view(&self) -> RoundEventView {
        match *self {
            RoundEvent::Taken(s, p) => RoundEventView::Taken(s@, parent_view(p)),
            RoundEvent::NotTaken => RoundEventView::NotTaken,
            RoundEvent::Sent(ok) => RoundEventView::Sent(ok),
        }
    }
}

/// What is to be done next.
#[derive(Debug)]
pub enum RoundAction {
    /// Send the snapshot to the target.
    Send {
        target: NodeInfo,
        snapshot: Snapshot,
        previous: Option<Snapshot>,
    },
    /// The round is over.
    Done,
    /// The round is over before it has come to a target, for the reason given.
    Failed(String),
}

/// What is to be done next.
pub enum RoundActionView {
    Send { target: NodeInfoView, snapshot: SnapshotView, previous: Option<SnapshotView> },
    Done,
    Failed(Seq<char>),
}

impl View for RoundAction {
    type V = RoundActionView;

    open spec fn view(&self) -> RoundActionView {
        match *self {
            RoundAction::Send { target, snapshot, previous } => RoundActionView::Send {
                target: target@,
                snapshot: snapshot@,
                previous: parent_view(previous),
            },
            RoundAction::Done => RoundActionView::Done,
            RoundAction::Failed(s) => RoundActionView::Failed(s@),
        }
    }
}

/// A round of replication of one volume.
pub struct ReplicationRound {
    volume_id: String,
    state: RoundState,
}

/// What is known of a round.
pub struct RoundView {
    pub volume_id: Seq<char>,
    pub state: RoundStateView,
}

impl View for ReplicationRound {
    type V = RoundView;

    closed spec fn view(&self) -> RoundView {
        RoundView { volume_id: self.volume_id@, state: self.state@ }
    }
}

/// Whether a state is one that rounds lead to: while the snapshot is being sent, some target has
/// not been served.
pub open spec fn round_ok(s: RoundStateView) -> bool {
    s matches RoundStateView::Sending(t) ==> t.outcomes.len() < t.targets.len()
}

/// Whether an event is one that the state waits for.
pub open spec fn round_awaits(s: RoundStateView, e: RoundEventView) -> bool {
    match s {
        RoundStateView::Snapshotting => e is Taken || e is NotTaken,
        RoundStateView::Sending(_) => e is Sent,
        RoundStateView::Finished => false,
    }
}

/// The transfers once the first target that had not been served has been served.
pub open spec fn served(t: TransfersView, ok: bool) -> TransfersView {
    TransfersView {
        outcomes: t.outcomes.push((t.targets[t.outcomes.len() as int].id, ok)),
        ..t
    }
}

/// The sending of a snapshot to the first target that has not been served.
pub open spec fn next_send(t: TransfersView) -> RoundActionView {
    RoundActionView::Send {
        target: t.targets[t.outcomes.len() as int],
        snapshot: t.snapshot,
        previous: t.previous,
    }
}

/// The state of a round after an event.
pub open spec fn round_next(
    v: RoundView,
    e: RoundEventView,
    r: ReplicatorView,
    g: GossipView,
) -> RoundStateView {
    match (v.state, e) {
        (RoundStateView::Snapshotting, RoundEventView::Taken(snapshot, previous)) => {
            let targets = targets_of(r, g, v.volume_id);
            if targets.len() == 0 {
                RoundStateView::Finished
            } else {
                RoundStateView::Sending(
                    TransfersView { snapshot, previous, targets, outcomes: Seq::empty() },
                )
            }
        },
        (RoundStateView::Sending(t), RoundEventView::Sent(ok)) => if t.outcomes.len() + 1
            < t.targets.len() {
            RoundStateView::Sending(served(t, ok))
        } else {
            RoundStateView::Finished
        },
        _ => RoundStateView::Finished,
    }
}

/// What the replicator knows after an event. A volume whose snapshot could not be made stays as
/// it was when the round began.
pub open spec fn round_effect(
    v: RoundView,
    e: RoundEventView,
    r: ReplicatorView,
    g: GossipView,
    now: i64,
) -> ReplicatorView {
    match (v.state, e) {
        (RoundStateView::Snapshotting, RoundEventView::Taken(_, _)) => if targets_of(
            r,
            g,
            v.volume_id,
        ).len() == 0 {
            round_without_targets(r, v.volume_id)
        } else {
            r
        },
        (RoundStateView::Sending(t), RoundEventView::Sent(ok)) => if t.outcomes.len() + 1
            < t.targets.len() {
            r
        } else {
            round_ended(r, v.volume_id, t.snapshot.name, served(t, ok).outcomes, now)
        },
        _ => r,
    }
}

/// What is to be done upon an event.
pub open spec fn round_action(
    v: RoundView,
    e: RoundEventView,
    r: ReplicatorView,
    g: GossipView,
) -> RoundActionView {
    match (v.state, e) {
        (RoundStateView::Snapshotting, RoundEventView::NotTaken) => RoundActionView::Failed(
            "Failed to create snapshot"@,
        ),
        _ => match round_next(v, e, r, g) {
            RoundStateView::Sending(t) => next_send(t),
            _ => RoundActionView::Done,
        },
    }
}

fn previous_clone(p: &Option<Snapshot>) -> (r: Option<Snapshot>)
    ensures
        parent_view(r) == parent_view(*p),
{
    match p {
        Some(s) => Some(s.clone()),
        None => None,
    }
}

impl Transfers {
    fn send_next(&self) -> (r: RoundAction)
        requires
            self@.outcomes.len() < self@.targets.len(),
        ensures
            r@ == next_send(self@),
    {
        let i: usize = self.outcomes.len();
        assert(node_views(self.targets@)[i as int] == self.targets@[i as int]@);
        RoundAction::Send {
            target: self.targets[i].clone(),
            snapshot: self.snapshot.clone(),
            previous: previous_clone(&self.previous),
        }
    }

    fn serve(&mut self, ok: bool)
        requires
            old(self)@.outcomes.len() < old(self)@.targets.len(),
        ensures
            final(self)@ == served(old(self)@, ok),
    {
        let i: usize = self.outcomes.len();
        let ghost before = self.outcomes@;
        assert(node_views(self.targets@)[i as int] == self.targets@[i as int]@);
        let id = self.targets[i].id.clone();
        self.outcomes.push((id, ok));
        assert(outcome_views(self.outcomes@) =~= outcome_views(before).push((id@, ok)));
    }
}

impl Replicator {
    /// Begins a round of replication of a volume. The snapshot is to be made next.
    pub fn replicate_volume(&mut self, volume_id: &str) -> (r: ReplicationRound)
        requires
            old(self).wf(),
        ensures
            final(self).wf(),
            final(self)@ == round_begun(old(self)@, volume_id@),
            r.wf(),
            r@ == (RoundView { volume_id: volume_id@, state: RoundStateView::Snapshotting }),
    {
        self.begin_round(volume_id);
        ReplicationRound { volume_id: volume_id.to_owned(), state: RoundState::Snapshotting }
    }
}

impl ReplicationRound {
    /// Whether the state is one that rounds lead to.
    pub open spec fn wf(&self) -> bool {
        round_ok(self@.state)
    }

    /// Takes in what an action has come to at the time `now`, and tells what is to be done next.
    /// The targets are chosen once the snapshot is there; they are served one after the other, a
    /// failure at one does not keep the snapshot from the others, and the replicator learns of
    /// the outcomes together.
    pub fn step(
        &mut self,
        replicator: &mut Replicator,
        gossip: &GossipService,
        event: RoundEvent,
        now: i64,
    ) -> (r: RoundAction)
        requires
            old(self).wf(),
            old(replicator).wf(),
            round_awaits(old(self)@.state, event@),
            has_key(old(replicator)@.states, old(self)@.volume_id) ==> map_of(
                old(replicator)@.states,
            )[old(self)@.volume_id].retry_count < u32::MAX,
        ensures
            final(self).wf(),
            final(replicator).wf(),
            final(self)@.volume_id == old(self)@.volume_id,
            final(self)@.state == round_next(
                old(self)@,
                event@,
                old(replicator)@,
                gossip@,
            ),
            final(replicator)@ == round_effect(
                old(self)@,
                event@,
                old(replicator)@,
                gossip@,
                now,
            ),
            r@ == round_action(old(self)@, event@, old(replicator)@, gossip@),
    {
        let mut state = RoundState::Finished;
        std::mem::swap(&mut state, &mut self.state);
        match (state, event) {
            (RoundState::Snapshotting, RoundEvent::Taken(snapshot, previous)) => {
                let targets = replicator.select_replication_targets(
                    gossip,
                    self.volume_id.as_str(),
                );
                if targets.len() == 0 {
                    replicator.end_round_without_targets(self.volume_id.as_str());
                    return RoundAction::Done;
                }
                let t = Transfers { snapshot, previous, targets, outcomes: Vec::new() };
                assert(t@.outcomes =~= Seq::<(Seq<char>, bool)>::empty());
                let action = t.send_next();
                self.state = RoundState::Sending(t);
                action
            },
            (RoundState::Sending(transfers), RoundEvent::Sent(ok)) => {
                let mut t = transfers;
                t.serve(ok);
                if t.outcomes.len() < t.targets.len() {
                    let action = t.send_next();
                    self.state = RoundState::Sending(t);
                    return action;
                }
                replicator.end_round(
                    self.volume_id.as_str(),
                    t.snapshot.name.as_str(),
                    &t.outcomes,
                    now,
                );
                RoundAction::Done
            },
            _ => RoundAction::Failed("Failed to create snapshot".to_owned()),
        }
    }
}

/// The outcomes when the targets are served in their order with the given results.
pub open spec fn paired(targets: Seq<NodeInfoView>, results: Seq<bool>) -> Seq<(Seq<char>, bool)> {
    Seq::new(results.len(), |i: int| (targets[i].id, results[i]))
}

/// What the replicator knows after a round in which the targets were served in their order with
/// the given results, the last of them at the time `now`.
pub open spec fn after_results(
    v: RoundView,
    results: Seq<bool>,
    r: ReplicatorView,
    g: GossipView,
    now: i64,
) -> ReplicatorView
    decreases results.len(),
{
    if results.len() == 0 {
        r
    } else {
        let e = RoundEventView::Sent(results[0]);
        after_results(
            RoundView { state: round_next(v, e, r, g), ..v },
            results.skip(1),
            round_effect(v, e, r, g, now),
            g,
            now,
        )
    }
}

proof fn lemma_after_results(
    v: RoundView,
    t: TransfersView,
    done: Seq<bool>,
    results: Seq<bool>,
    r: ReplicatorView,
    g: GossipView,
    now: i64,
)
    requires
        v.state == RoundStateView::Sending(t),
        t.outcomes == paired(t.targets, done),
        results.len() > 0,
        done.len() + results.len() == t.targets.len(),
    ensures
        after_results(v, results, r, g, now) == round_ended(
            r,
            v.volume_id,
            t.snapshot.name,
            paired(t.targets, done + results),
            now,
        ),
    decreases results.len(),
{
    let e = RoundEventView::Sent(results[0]);
    let next = served(t, results[0]);
    let more = done.push(results[0]);
    let rest = results.skip(1);
    assert(next.outcomes =~= paired(t.targets, more));
    assert(done + results =~= more + rest);
    if rest.len() == 0 {
        assert(more + rest =~= more);
        assert(after_results(
            RoundView { state: RoundStateView::Finished, ..v },
            rest,
            round_effect(v, e, r, g, now),
            g,
            now,
        ) == round_effect(v, e, r, g, now));
    } else {
        lemma_after_results(
            RoundView { state: RoundStateView::Sending(next), ..v },
            next,
            more,
            rest,
            r,
            g,
            now,
        );
    }
}

/// A round accounts for every target: whatever the transfers come to, each target is served once,
/// and the replicator learns the outcome at each of them.
pub proof fn round_accounts_for_every_target(
    v: RoundView,
    snapshot: SnapshotView,
    previous: Option<SnapshotView>,
    results: Seq<bool>,
    r: ReplicatorView,
    g: GossipView,
    now: i64,
)
    requires
        v.state is Snapshotting,
        results.len() > 0,
        results.len() == targets_of(r, g, v.volume_id).len(),
    ensures
        ({
            let e = RoundEventView::Taken(snapshot, previous);
            let begun = RoundView { state: round_next(v, e, r, g), ..v };
            after_results(begun, results, round_effect(v, e, r, g, now), g, now) == round_ended(
                r,
                v.volume_id,
                snapshot.name,
                paired(targets_of(r, g, v.volume_id), results),
                now,
            )
        }),
{
    let targets = targets_of(r, g, v.volume_id);
    let t = TransfersView { snapshot, previous, targets, outcomes: Seq::empty() };
    let none = Seq::<bool>::empty();
    assert(t.outcomes =~= paired(targets, none));
    assert(none + results =~= results);
    lemma_after_results(
        RoundView { state: RoundStateView::Sending(t), ..v },
        t,
        none,
        results,
        r,
        g,
        now,
    );
}

} // verus!
