//! Replication of volumes to other nodes.

use vstd::prelude::*;
use vstd::string::*;

use crate::exchange::config::ExchangeConfig;
use crate::exchange::gossip::{
    first_of, is_target, node_views, ranked_targets, targets_are_ranked, GossipService, GossipView,
};
use crate::number::{decimal, u64_text};
use crate::protocol::payload::{NodeInfo, NodeInfoView};
use crate::table::{
    distinct, entry_reads_back, has_key, map_of, position, values_of, with_entry, without_entry,
    Table,
};
use crate::text::{list_clone, list_contains, opt_clone, opt_view, same, string_views};

verus! {

broadcast use vstd::string::group_string_axioms;

/// How often a transfer is repeated, and how many rounds in a row may fail.
pub const MAX_RETRIES: u32 = 5;

/// The first delay before a repetition, in milliseconds.
pub const BASE_BACKOFF_MS: u64 = 1000;

/// The longest delay before a repetition, in milliseconds.
pub const MAX_BACKOFF_MS: u64 = 60000;

/// What a volume's replication is at.
#[derive(Debug)]
pub enum ReplicationStatus {
    Idle,
    Syncing,
    Error(String),
    Completed,
    Retrying,
}

/// What a status says.
pub enum ReplicationStatusView {
    Idle,
    Syncing,
    Error(Seq<char>),
    Completed,
    Retrying,
}

impl View for ReplicationStatus {
    type V = ReplicationStatusView;

    open spec fn view(&self) -> ReplicationStatusView {
        match *self {
            ReplicationStatus::Idle => ReplicationStatusView::Idle,
            ReplicationStatus::Syncing => ReplicationStatusView::Syncing,
            ReplicationStatus::Error(s) => ReplicationStatusView::Error(s@),
            ReplicationStatus::Completed => ReplicationStatusView::Completed,
            ReplicationStatus::Retrying => ReplicationStatusView::Retrying,
        }
    }
}

impl Clone for ReplicationStatus {
    fn clone(&self) -> (r: ReplicationStatus)
        ensures
            r@ == self@,
    {
        match self {
            ReplicationStatus::Idle => ReplicationStatus::Idle,
            ReplicationStatus::Syncing => ReplicationStatus::Syncing,
            ReplicationStatus::Error(s) => ReplicationStatus::Error(s.clone()),
            ReplicationStatus::Completed => ReplicationStatus::Completed,
            ReplicationStatus::Retrying => ReplicationStatus::Retrying,
        }
    }
}

/// Replication state of a volume.
#[derive(Debug)]
pub struct ReplicationState {
    pub volume_id: String,
    pub last_snapshot: Option<String>,
    /// Milliseconds since the Unix epoch.
    pub last_sync: Option<i64>,
    pub status: ReplicationStatus,
    pub target_nodes: Vec<String>,
    pub retry_count: u32,
    pub last_error: Option<String>,
    pub failed_nodes: Vec<String>,
}

/// What the replication state of a volume says.
#[verifier::ext_equal]
pub struct ReplicationStateView {
    pub volume_id: Seq<char>,
    pub last_snapshot: Option<Seq<char>>,
    pub last_sync: Option<i64>,
    pub status: ReplicationStatusView,
    pub target_nodes: Seq<Seq<char>>,
    pub retry_count: u32,
    pub last_error: Option<Seq<char>>,
    pub failed_nodes: Seq<Seq<char>>,
}

impl View for ReplicationState {
    type V = ReplicationStateView;

    open spec fn view(&self) -> ReplicationStateView {
        ReplicationStateView {
            volume_id: self.volume_id@,
            last_snapshot: opt_view(self.last_snapshot),
            last_sync: self.last_sync,
            status: self.status@,
            target_nodes: string_views(self.target_nodes@),
            retry_count: self.retry_count,
            last_error: opt_view(self.last_error),
            failed_nodes: string_views(self.failed_nodes@),
        }
    }
}

impl Clone for ReplicationState {
    fn clone(&self) -> (r: ReplicationState)
        ensures
            r@ == self@,
    {
        ReplicationState {
            volume_id: self.volume_id.clone(),
            last_snapshot: opt_clone(&self.last_snapshot),
            last_sync: self.last_sync,
            status: self.status.clone(),
            target_nodes: list_clone(&self.target_nodes),
            retry_count: self.retry_count,
            last_error: opt_clone(&self.last_error),
            failed_nodes: list_clone(&self.failed_nodes),
        }
    }
}

/// The state of a volume that has not been replicated yet.
pub open spec fn fresh_state(
    volume_id: Seq<char>,
    target_nodes: Seq<Seq<char>>,
) -> ReplicationStateView {
    ReplicationStateView {
        volume_id,
        last_snapshot: None,
        last_sync: None,
        status: ReplicationStatusView::Idle,
        target_nodes,
        retry_count: 0,
        last_error: None,
        failed_nodes: Seq::empty(),
    }
}

fn new_state(volume_id: &str, target_nodes: Vec<String>) -> (r: ReplicationState)
    ensures
        r@ == fresh_state(volume_id@, string_views(target_nodes@)),
{
    let r = ReplicationState {
        volume_id: volume_id.to_owned(),
        last_snapshot: None,
        last_sync: None,
        status: ReplicationStatus::Idle,
        target_nodes,
        retry_count: 0,
        last_error: None,
        failed_nodes: Vec::new(),
    };
    assert(r@.failed_nodes =~= Seq::<Seq<char>>::empty());
    r
}

/// Two to the power of `n`.
pub open spec fn doublings(n: nat) -> nat
    decreases n,
{
    if n == 0 {
        1
    } else {
        2 * doublings((n - 1) as nat)
    }
}

/// The delay before repetition number `n`, counted from zero: it doubles each time, up to the
/// longest.
pub open spec fn backoff(n: nat) -> nat {
    if BASE_BACKOFF_MS * doublings(n) < MAX_BACKOFF_MS {
        BASE_BACKOFF_MS as nat * doublings(n)
    } else {
        MAX_BACKOFF_MS as nat
    }
}

proof fn lemma_doublings(n: nat)
    ensures
        n >= 6 ==> doublings(n) >= 64,
        n == 0 ==> doublings(n) == 1,
        n == 1 ==> doublings(n) == 2,
        n == 2 ==> doublings(n) == 4,
        n == 3 ==> doublings(n) == 8,
        n == 4 ==> doublings(n) == 16,
        n == 5 ==> doublings(n) == 32,
    decreases n,
{
    if n > 0 {
        lemma_doublings((n - 1) as nat);
    }
}

/// The delay before repetition number `n`, in milliseconds.
pub fn backoff_ms(n: u32) -> (r: u64)
    ensures
        r == backoff(n as nat),
{
    proof {
        lemma_doublings(n as nat);
    }
    if n == 0 {
        1000
    } else if n == 1 {
        2000
    } else if n == 2 {
        4000
    } else if n == 3 {
        8000
    } else if n == 4 {
        16000
    } else if n == 5 {
        32000
    } else {
        60000
    }
}

/// Delays never shrink from one repetition to the next, and stay between the first and the
/// longest.
pub proof fn backoff_grows_within_bounds(n: nat)
    ensures
        BASE_BACKOFF_MS <= backoff(n) <= backoff(n + 1) <= MAX_BACKOFF_MS,
    decreases n,
{
    lemma_doublings(n);
    lemma_doublings(n + 1);
}

/// Whether a volume is due for replication at the time `now`, with an interval in seconds.
pub open spec fn is_due(s: ReplicationStateView, now: i64, interval: u64) -> bool {
    match s.status {
        ReplicationStatusView::Syncing => false,
        ReplicationStatusView::Retrying => true,
        ReplicationStatusView::Error(_) => match s.last_sync {
            Some(last) => now - last > interval * 1000 * 5,
            None => true,
        },
        _ => match s.last_sync {
            Some(last) => now - last > interval * 1000,
            None => true,
        },
    }
}

/// Whether a volume whose last round failed has waited long enough at the time `now`. Other
/// volumes need not wait.
pub open spec fn has_waited(s: ReplicationStateView, now: i64) -> bool {
    s.status is Retrying ==> {
        let last = match s.last_sync {
            Some(t) => t as int,
            None => 0,
        };
        now - last >= backoff((s.retry_count - 1) as nat)
    }
}

/// Whether a state is one that rounds of replication lead to: one that is being retried has
/// failed at least once and less often than is allowed, and no failed node stands twice.
pub open spec fn state_ok(s: ReplicationStateView) -> bool {
    &&& s.status is Retrying ==> 1 <= s.retry_count < MAX_RETRIES
    &&& s.failed_nodes.no_duplicates()
}

/// A list with those members of another that it lacks.
pub open spec fn union_of(a: Seq<Seq<char>>, b: Seq<Seq<char>>) -> Seq<Seq<char>>
    decreases b.len(),
{
    if b.len() == 0 {
        a
    } else {
        let before = union_of(a, b.drop_last());
        if before.contains(b.last()) {
            before
        } else {
            before.push(b.last())
        }
    }
}

/// The outcome of the transfers of a round: for each target its identifier and whether the
/// transfer succeeded.
pub open spec fn outcome_views(v: Seq<(String, bool)>) -> Seq<(Seq<char>, bool)> {
    v.map_values(|x: (String, bool)| (x.0@, x.1))
}

/// The number of transfers that succeeded.
pub open spec fn successes(o: Seq<(Seq<char>, bool)>) -> nat
    decreases o.len(),
{
    if o.len() == 0 {
        0
    } else {
        successes(o.drop_last()) + if o.last().1 {
            1nat
        } else {
            0nat
        }
    }
}

/// The targets to which the transfer failed.
pub open spec fn failures(o: Seq<(Seq<char>, bool)>) -> Seq<Seq<char>>
    decreases o.len(),
{
    if o.len() == 0 {
        Seq::empty()
    } else if o.last().1 {
        failures(o.drop_last())
    } else {
        failures(o.drop_last()).push(o.last().0)
    }
}

/// The state after a round of transfers that ended at the time `now`. A round in which some
/// transfer succeeded is complete; one in which none did is retried, until too many have failed.
pub open spec fn after_round(
    s: ReplicationStateView,
    snapshot: Seq<char>,
    o: Seq<(Seq<char>, bool)>,
    now: i64,
) -> ReplicationStateView {
    let n = o.len();
    let ok = successes(o);
    let base = ReplicationStateView {
        last_snapshot: Some(snapshot),
        last_sync: Some(now),
        failed_nodes: union_of(s.failed_nodes, failures(o)),
        ..s
    };
    if ok == n {
        ReplicationStateView {
            status: ReplicationStatusView::Completed,
            retry_count: 0,
            last_error: None,
            ..base
        }
    } else if ok > 0 {
        ReplicationStateView {
            status: ReplicationStatusView::Completed,
            last_error: Some(
                "Partial success: "@ + decimal(ok) + "/"@ + decimal(n) + " targets"@,
            ),
            ..base
        }
    } else {
        let count = (s.retry_count + 1) as u32;
        ReplicationStateView {
            retry_count: count,
            status: if count >= MAX_RETRIES {
                ReplicationStatusView::Error("Max retries exceeded"@)
            } else {
                ReplicationStatusView::Retrying
            },
            last_error: Some(
                "All "@ + decimal(n) + " targets failed (attempt "@ + decimal(count as nat) + "/"@
                    + decimal(MAX_RETRIES as nat) + ")"@,
            ),
            ..base
        }
    }
}

/// The state after a round that found no target.
pub open spec fn without_targets(s: ReplicationStateView) -> ReplicationStateView {
    ReplicationStateView {
        status: ReplicationStatusView::Error("No targets available"@),
        last_error: Some("No replication targets available"@),
        ..s
    }
}

/// A list without a member.
pub open spec fn list_without(s: Seq<Seq<char>>, x: Seq<char>) -> Seq<Seq<char>>
    decreases s.len(),
{
    if s.len() == 0 {
        s
    } else if s.last() == x {
        list_without(s.drop_last(), x)
    } else {
        list_without(s.drop_last(), x).push(s.last())
    }
}

/// The state after a failed node has come back.
pub open spec fn after_recovery(s: ReplicationStateView, node_id: Seq<char>) -> ReplicationStateView {
    let base = ReplicationStateView { failed_nodes: list_without(s.failed_nodes, node_id), ..s };
    if s.status == ReplicationStatusView::Error("Max retries exceeded"@) {
        ReplicationStateView { status: ReplicationStatusView::Idle, retry_count: 0, ..base }
    } else {
        base
    }
}

fn add_missing(a: Vec<String>, b: &Vec<String>) -> (r: Vec<String>)
    ensures
        string_views(r@) == union_of(string_views(a@), string_views(b@)),
{
    let mut r = a;
    let ghost all = string_views(b@);
    let mut i: usize = 0;
    assert(all.take(0) =~= Seq::<Seq<char>>::empty());
    while i < b.len()
        invariant
            i <= b@.len(),
            all == string_views(b@),
            string_views(r@) == union_of(string_views(a@), all.take(i as int)),
        decreases b@.len() - i,
    {
        proof {
            assert(all[i as int] == b@[i as int]@);
            assert(all.take(i + 1).drop_last() =~= all.take(i as int));
        }
        if !list_contains(&r, b[i].as_str()) {
            let ghost before = r@;
            r.push(b[i].clone());
            assert(string_views(r@) =~= string_views(before).push(b@[i as int]@));
        }
        i += 1;
    }
    assert(all.take(i as int) =~= all);
    r
}

/// Copies a list without a member.
pub fn remove_member(list: &Vec<String>, x: &str) -> (r: Vec<String>)
    ensures
        string_views(r@) == list_without(string_views(list@), x@),
{
    let mut r: Vec<String> = Vec::new();
    let ghost all = string_views(list@);
    let mut i: usize = 0;
    assert(string_views(r@) =~= all.take(0));
    while i < list.len()
        invariant
            i <= list@.len(),
            all == string_views(list@),
            string_views(r@) == list_without(all.take(i as int), x@),
        decreases list@.len() - i,
    {
        proof {
            assert(all[i as int] == list@[i as int]@);
            assert(all.take(i + 1).drop_last() =~= all.take(i as int));
        }
        if !same(list[i].as_str(), x) {
            let ghost before = r@;
            r.push(list[i].clone());
            assert(string_views(r@) =~= string_views(before).push(list@[i as int]@));
        }
        i += 1;
    }
    assert(all.take(i as int) =~= all);
    r
}

proof fn lemma_union_distinct(a: Seq<Seq<char>>, b: Seq<Seq<char>>)
    requires
        a.no_duplicates(),
    ensures
        union_of(a, b).no_duplicates(),
    decreases b.len(),
{
    if b.len() > 0 {
        lemma_union_distinct(a, b.drop_last());
    }
}

pub proof fn lemma_without(s: Seq<Seq<char>>, x: Seq<char>, y: Seq<char>)
    ensures
        list_without(s, x).contains(y) == (s.contains(y) && y != x),
        s.no_duplicates() ==> list_without(s, x).no_duplicates(),
    decreases s.len(),
{
    if s.len() > 0 {
        let t = s.drop_last();
        lemma_without(t, x, y);
        lemma_without(t, x, s.last());
        let f = list_without(s, x);
        let g = list_without(t, x);
        if s.contains(y) {
            let i = choose|i: int| 0 <= i < s.len() && s[i] == y;
            if i < t.len() {
                assert(t[i] == y);
            }
        }
        if t.contains(y) {
            let i = choose|i: int| 0 <= i < t.len() && t[i] == y;
            assert(s[i] == y);
        }
        if g.contains(y) {
            let i = choose|i: int| 0 <= i < g.len() && g[i] == y;
            assert(f[i] == y);
        }
        if s.last() == y && y != x {
            assert(f[f.len() - 1] == y);
            assert(s[s.len() - 1] == y);
        }
        if f.contains(y) && !g.contains(y) {
            let i = choose|i: int| 0 <= i < f.len() && f[i] == y;
            assert(i == f.len() - 1);
        }
        if s.no_duplicates() {
            assert(t.no_duplicates());
            if t.contains(s.last()) {
                let i = choose|i: int| 0 <= i < t.len() && t[i] == s.last();
                assert(s[i] == s[s.len() - 1]);
            }
            assert forall|i: int, j: int| 0 <= i < f.len() && 0 <= j < f.len() && i != j implies f[i]
                != f[j] by {
                if s.last() != x {
                    if i < g.len() && j < g.len() {
                        assert(g[i] != g[j]);
                    } else if i < g.len() {
                        assert(g[i] == f[i]);
                        assert(g.contains(f[i]));
                    } else {
                        assert(g[j] == f[j]);
                        assert(g.contains(f[j]));
                    }
                }
            }
        }
    }
}

/// Keeps what a node knows of the replication of its volumes.
pub struct Replicator {
    default_interval: u64,
    default_replica_count: u32,
    states: Table<ReplicationState>,
}

/// What a replicator knows.
#[verifier::ext_equal]
pub struct ReplicatorView {
    /// The interval between rounds in seconds.
    pub default_interval: u64,
    /// The number of replicas.
    pub default_replica_count: u32,
    /// The states of the volumes by identifier, in the order in which they became known.
    pub states: Seq<(Seq<char>, ReplicationStateView)>,
}

impl View for Replicator {
    type V = ReplicatorView;

    closed spec fn view(&self) -> ReplicatorView {
        ReplicatorView {
            default_interval: self.default_interval,
            default_replica_count: self.default_replica_count,
            states: self.states.listing(),
        }
    }
}

/// Whether every state is one that rounds of replication lead to.
pub open spec fn states_ok(e: Seq<(Seq<char>, ReplicationStateView)>) -> bool {
    forall|i: int| 0 <= i < e.len() ==> state_ok((#[trigger] e[i]).1)
}

/// The volumes that are due.
pub open spec fn due_volumes(
    e: Seq<(Seq<char>, ReplicationStateView)>,
    now: i64,
    interval: u64,
) -> Seq<Seq<char>>
    decreases e.len(),
{
    if e.len() == 0 {
        Seq::empty()
    } else if is_due(e.last().1, now, interval) {
        due_volumes(e.drop_last(), now, interval).push(e.last().0)
    } else {
        due_volumes(e.drop_last(), now, interval)
    }
}

/// The volumes that were to be replicated to a node.
pub open spec fn volumes_on(
    e: Seq<(Seq<char>, ReplicationStateView)>,
    node_id: Seq<char>,
) -> Seq<Seq<char>>
    decreases e.len(),
{
    if e.len() == 0 {
        Seq::empty()
    } else if e.last().1.target_nodes.contains(node_id) {
        volumes_on(e.drop_last(), node_id).push(e.last().0)
    } else {
        volumes_on(e.drop_last(), node_id)
    }
}

/// What a replicator knows once a round of replication of a volume has begun.
pub open spec fn round_begun(r: ReplicatorView, volume_id: Seq<char>) -> ReplicatorView {
    let s = if has_key(r.states, volume_id) {
        map_of(r.states)[volume_id]
    } else {
        fresh_state(volume_id, Seq::empty())
    };
    ReplicatorView {
        states: with_entry(
            r.states,
            volume_id,
            ReplicationStateView { status: ReplicationStatusView::Syncing, ..s },
        ),
        ..r
    }
}

/// What a replicator knows once a round that found no target has ended.
pub open spec fn round_without_targets(r: ReplicatorView, volume_id: Seq<char>) -> ReplicatorView {
    if has_key(r.states, volume_id) {
        ReplicatorView {
            states: with_entry(
                r.states,
                volume_id,
                without_targets(map_of(r.states)[volume_id]),
            ),
            ..r
        }
    } else {
        r
    }
}

/// What a replicator knows once a round of transfers has ended, at the time `now`.
pub open spec fn round_ended(
    r: ReplicatorView,
    volume_id: Seq<char>,
    snapshot: Seq<char>,
    o: Seq<(Seq<char>, bool)>,
    now: i64,
) -> ReplicatorView {
    if has_key(r.states, volume_id) {
        ReplicatorView {
            states: with_entry(
                r.states,
                volume_id,
                after_round(map_of(r.states)[volume_id], snapshot, o, now),
            ),
            ..r
        }
    } else {
        r
    }
}

/// What a replicator knows once a failed node has come back for a volume.
pub open spec fn node_recovered(
    r: ReplicatorView,
    volume_id: Seq<char>,
    node_id: Seq<char>,
) -> ReplicatorView {
    if has_key(r.states, volume_id) {
        ReplicatorView {
            states: with_entry(
                r.states,
                volume_id,
                after_recovery(map_of(r.states)[volume_id], node_id),
            ),
            ..r
        }
    } else {
        r
    }
}

/// The peers that a volume is replicated to, those with the most free space first.
pub open spec fn targets_of(
    r: ReplicatorView,
    g: GossipView,
    volume_id: Seq<char>,
) -> Seq<NodeInfoView> {
    first_of(
        ranked_targets(g.peers, g.node_id, excluded_nodes(r.states, volume_id)),
        r.default_replica_count as nat,
    )
}

/// The nodes that a volume is not replicated to: those that it was replicated to before, and
/// those to which it failed.
pub open spec fn excluded_nodes(
    e: Seq<(Seq<char>, ReplicationStateView)>,
    volume_id: Seq<char>,
) -> Seq<Seq<char>> {
    if has_key(e, volume_id) {
        let s = map_of(e)[volume_id];
        union_of(s.target_nodes, s.failed_nodes)
    } else {
        Seq::empty()
    }
}

impl Replicator {
    /// Whether no volume is remembered twice, and every state is one that rounds lead to.
    pub open spec fn wf(&self) -> bool {
        distinct(self@.states) && states_ok(self@.states)
    }

    /// A replicator that knows of no volume.
    pub fn new(config: &ExchangeConfig) -> (r: Replicator)
        ensures
            r.wf(),
            r@ == (ReplicatorView {
                default_interval: config.replication.default_interval,
                default_replica_count: config.replication.default_replica_count,
                states: Seq::empty(),
            }),
    {
        Replicator {
            default_interval: config.replication.default_interval,
            default_replica_count: config.replication.default_replica_count,
            states: Table::new(),
        }
    }

    /// The volumes that are due for replication at the time `now`.
    pub fn get_volumes_for_replication(&self, now: i64) -> (r: Vec<String>)
        ensures
            string_views(r@) == due_volumes(self@.states, now, self@.default_interval),
    {
        let ghost e = self@.states;
        let interval: i128 = self.default_interval as i128 * 1000;
        let mut r: Vec<String> = Vec::new();
        let mut i: usize = 0;
        assert(e.take(0) =~= Seq::<(Seq<char>, ReplicationStateView)>::empty());
        assert(string_views(r@) =~= Seq::<Seq<char>>::empty());
        while i < self.states.len()
            invariant
                i <= e.len(),
                e == self.states.listing(),
                interval == self@.default_interval * 1000,
                string_views(r@) == due_volumes(e.take(i as int), now, self@.default_interval),
            decreases e.len() - i,
        {
            proof {
                assert(e.take(i + 1).drop_last() =~= e.take(i as int));
                assert(e.take(i + 1).last() == e[i as int]);
            }
            let state = self.states.value_at(i);
            let limit: Option<i128> = match &state.status {
                ReplicationStatus::Syncing => None,
                ReplicationStatus::Retrying => None,
                ReplicationStatus::Error(_) => Some(interval * 5),
                _ => Some(interval),
            };
            let due = match limit {
                Some(l) => match state.last_sync {
                    Some(last) => now as i128 - last as i128 > l,
                    None => true,
                },
                None => match &state.status {
                    ReplicationStatus::Retrying => true,
                    _ => false,
                },
            };
            if due {
                let ghost before = r@;
                r.push(self.states.key_at(i).clone());
                assert(string_views(r@) =~= string_views(before).push(e[i as int].0));
            }
            i += 1;
        }
        assert(e.take(i as int) =~= e);
        r
    }

    /// Tells whether a volume that is due need not wait longer at the time `now`.
    pub fn should_retry(&self, volume_id: &str, now: i64) -> (r: bool)
        requires
            self.wf(),
        ensures
            r == (has_key(self@.states, volume_id@) ==> has_waited(
                map_of(self@.states)[volume_id@],
                now,
            )),
    {
        match self.states.find(volume_id) {
            Some(i) => {
                let state = self.states.value_at(i);
                proof {
                    assert(state_ok(self.states.listing()[i as int].1));
                }
                match &state.status {
                    ReplicationStatus::Retrying => {
                        let last: i64 = match state.last_sync {
                            Some(t) => t,
                            None => 0,
                        };
                        now as i128 - last as i128 >= backoff_ms(state.retry_count - 1) as i128
                    },
                    _ => true,
                }
            },
            None => true,
        }
    }

    fn store(&mut self, volume_id: &str, state: ReplicationState)
        requires
            old(self).wf(),
            state_ok(state@),
        ensures
            final(self).wf(),
            final(self)@.default_interval == old(self)@.default_interval,
            final(self)@.default_replica_count == old(self)@.default_replica_count,
            final(self)@.states == with_entry(
                old(self)@.states,
                volume_id@,
                state@,
            ),
    {
        let ghost before = self.states.listing();
        self.states.insert(volume_id.to_owned(), state);
        proof {
            let after = self.states.listing();
            assert forall|i: int| 0 <= i < after.len() implies state_ok((#[trigger] after[i]).1) by {
                if has_key(before, volume_id@) {
                    let p = position(before, volume_id@);
                    assert(before[p].0 == volume_id@);
                    if i != p {
                        assert(after[i] == before[i]);
                        assert(state_ok(before[i].1));
                    }
                } else if i < before.len() {
                    assert(after[i] == before[i]);
                    assert(state_ok(before[i].1));
                }
            }
        }
    }

    /// Begins a round of replication of a volume.
    pub fn begin_round(&mut self, volume_id: &str)
        requires
            old(self).wf(),
        ensures
            final(self).wf(),
            final(self)@ == round_begun(old(self)@, volume_id@),
    {
        let found: Option<ReplicationState> = match self.states.find(volume_id) {
            Some(i) => {
                assert(state_ok(self.states.listing()[i as int].1));
                Some(self.states.value_at(i).clone())
            },
            None => None,
        };
        let mut state = match found {
            Some(s) => s,
            None => {
                let none: Vec<String> = Vec::new();
                assert(string_views(none@) =~= Seq::<Seq<char>>::empty());
                new_state(volume_id, none)
            },
        };
        state.status = ReplicationStatus::Syncing;
        self.store(volume_id, state);
    }

    /// Ends a round for which no target was found.
    pub fn end_round_without_targets(&mut self, volume_id: &str)
        requires
            old(self).wf(),
        ensures
            final(self).wf(),
            final(self)@ == round_without_targets(old(self)@, volume_id@),
    {
        let found: Option<ReplicationState> = match self.states.find(volume_id) {
            Some(i) => {
                assert(state_ok(self.states.listing()[i as int].1));
                Some(self.states.value_at(i).clone())
            },
            None => None,
        };
        match found {
            Some(old_state) => {
                let mut state = old_state;
                state.status = ReplicationStatus::Error("No targets available".to_owned());
                state.last_error = Some("No replication targets available".to_owned());
                self.store(volume_id, state);
            },
            None => {},
        }
    }

    /// Ends a round of transfers, at the time `now`.
    pub fn end_round(
        &mut self,
        volume_id: &str,
        snapshot: &str,
        outcomes: &Vec<(String, bool)>,
        now: i64,
    )
        requires
            old(self).wf(),
            has_key(old(self)@.states, volume_id@) ==> map_of(
                old(self)@.states,
            )[volume_id@].retry_count < u32::MAX,
        ensures
            final(self).wf(),
            final(self)@ == round_ended(
                old(self)@,
                volume_id@,
                snapshot@,
                outcome_views(outcomes@),
                now,
            ),
    {
        let found: Option<ReplicationState> = match self.states.find(volume_id) {
            Some(i) => {
                assert(state_ok(self.states.listing()[i as int].1));
                Some(self.states.value_at(i).clone())
            },
            None => None,
        };
        match found {
            Some(state) => {
                let next = round_result(state, snapshot, outcomes, now);
                self.store(volume_id, next);
            },
            None => {},
        }
    }

    /// The nodes that a volume is not replicated to.
    pub fn replication_exclusions(&self, volume_id: &str) -> (r: Vec<String>)
        requires
            self.wf(),
        ensures
            string_views(r@) == excluded_nodes(self@.states, volume_id@),
    {
        match self.states.find(volume_id) {
            Some(i) => {
                let state = self.states.value_at(i);
                add_missing(list_clone(&state.target_nodes), &state.failed_nodes)
            },
            None => {
                let none: Vec<String> = Vec::new();
                assert(string_views(none@) =~= Seq::<Seq<char>>::empty());
                none
            },
        }
    }

    /// The peers that a volume is replicated to.
    pub fn select_replication_targets(&self, gossip: &GossipService, volume_id: &str) -> (r: Vec<
        NodeInfo,
    >)
        requires
            self.wf(),
        ensures
            node_views(r@) == targets_of(self@, gossip@, volume_id@),
    {
        let exclude = self.replication_exclusions(volume_id);
        gossip.select_replica_targets(&exclude, self.default_replica_count as usize)
    }

    /// Registers a volume for replication, in place of what was known of it.
    pub fn register_volume(&mut self, volume_id: &str, target_nodes: Vec<String>)
        requires
            old(self).wf(),
        ensures
            final(self).wf(),
            final(self)@ == (ReplicatorView {
                states: with_entry(
                    old(self)@.states,
                    volume_id@,
                    fresh_state(volume_id@, string_views(target_nodes@)),
                ),
                ..old(self)@
            }),
    {
        let state = new_state(volume_id, target_nodes);
        self.store(volume_id, state);
    }

    /// Takes a node that has come back off the failed nodes of a volume.
    pub fn clear_failed_nodes(&mut self, volume_id: &str, node_id: &str)
        requires
            old(self).wf(),
        ensures
            final(self).wf(),
            final(self)@ == node_recovered(old(self)@, volume_id@, node_id@),
    {
        let found: Option<ReplicationState> = match self.states.find(volume_id) {
            Some(i) => {
                assert(state_ok(self.states.listing()[i as int].1));
                Some(self.states.value_at(i).clone())
            },
            None => None,
        };
        match found {
            Some(old_state) => {
                let mut state = old_state;
                proof {
                    lemma_without(string_views(state.failed_nodes@), node_id@, node_id@);
                }
                state.failed_nodes = remove_member(&state.failed_nodes, node_id);
                let stuck = match &state.status {
                    ReplicationStatus::Error(e) => same(e.as_str(), "Max retries exceeded"),
                    _ => false,
                };
                if stuck {
                    state.status = ReplicationStatus::Idle;
                    state.retry_count = 0;
                }
                self.store(volume_id, state);
            },
            None => {},
        }
    }

    /// The volumes that were to be replicated to a node.
    pub fn get_volumes_for_node(&self, node_id: &str) -> (r: Vec<String>)
        ensures
            string_views(r@) == volumes_on(self@.states, node_id@),
    {
        let ghost e = self@.states;
        let mut r: Vec<String> = Vec::new();
        let mut i: usize = 0;
        assert(e.take(0) =~= Seq::<(Seq<char>, ReplicationStateView)>::empty());
        assert(string_views(r@) =~= Seq::<Seq<char>>::empty());
        while i < self.states.len()
            invariant
                i <= e.len(),
                e == self.states.listing(),
                string_views(r@) == volumes_on(e.take(i as int), node_id@),
            decreases e.len() - i,
        {
            proof {
                assert(e.take(i + 1).drop_last() =~= e.take(i as int));
                assert(e.take(i + 1).last() == e[i as int]);
            }
            if list_contains(&self.states.value_at(i).target_nodes, node_id) {
                let ghost before = r@;
                r.push(self.states.key_at(i).clone());
                assert(string_views(r@) =~= string_views(before).push(e[i as int].0));
            }
            i += 1;
        }
        assert(e.take(i as int) =~= e);
        r
    }

    /// Forgets a volume.
    pub fn unregister_volume(&mut self, volume_id: &str)
        requires
            old(self).wf(),
        ensures
            final(self).wf(),
            final(self)@ == (ReplicatorView {
                states: without_entry(old(self)@.states, volume_id@),
                ..old(self)@
            }),
    {
        let ghost before = self.states.listing();
        self.states.remove(volume_id);
        proof {
            let after = self.states.listing();
            assert forall|i: int| 0 <= i < after.len() implies state_ok((#[trigger] after[i]).1) by {
                if has_key(before, volume_id@) {
                    let p = position(before, volume_id@);
                    assert(before[p].0 == volume_id@);
                    let j = if i < p {
                        i
                    } else {
                        i + 1
                    };
                    assert(after[i] == before[j]);
                    assert(state_ok(before[j].1));
                }
            }
        }
    }

    /// The replication state of a volume.
    pub fn get_status(&self, volume_id: &str) -> (r: Option<ReplicationState>)
        requires
            self.wf(),
        ensures
            r is Some == has_key(self@.states, volume_id@),
            r matches Some(s) ==> s@ == map_of(self@.states)[volume_id@],
    {
        match self.states.get(volume_id) {
            Some(s) => Some(s.clone()),
            None => None,
        }
    }

    /// The replication states of all volumes.
    pub fn get_all_states(&self) -> (r: Vec<ReplicationState>)
        ensures
            r@.map_values(|s: ReplicationState| s@) == values_of(self@.states),
    {
        let mut r: Vec<ReplicationState> = Vec::new();
        let ghost all = values_of(self@.states);
        let ghost view = |s: ReplicationState| s@;
        let mut i: usize = 0;
        assert(r@.map_values(view) =~= all.take(0));
        while i < self.states.len()
            invariant
                i <= self@.states.len(),
                self@.states == self.states.listing(),
                all == values_of(self@.states),
                r@.map_values(view) == all.take(i as int),
                view == (|s: ReplicationState| s@),
            decreases self@.states.len() - i,
        {
            let ghost before = r@;
            let s = self.states.value_at(i).clone();
            r.push(s);
            assert(r@.map_values(view) =~= before.map_values(view).push(s@));
            assert(all.take(i + 1) =~= all.take(i as int).push(all[i as int]));
            i += 1;
        }
        assert(all.take(i as int) =~= all);
        r
    }
}

fn round_result(
    state: ReplicationState,
    snapshot: &str,
    outcomes: &Vec<(String, bool)>,
    now: i64,
) -> (r: ReplicationState)
    requires
        state_ok(state@),
        state.retry_count < u32::MAX,
    ensures
        r@ == after_round(state@, snapshot@, outcome_views(outcomes@), now),
        state_ok(r@),
{
    let ghost o = outcome_views(outcomes@);
    let mut success_count: usize = 0;
    let mut failed: Vec<String> = Vec::new();
    let mut i: usize = 0;
    assert(o.take(0) =~= Seq::<(Seq<char>, bool)>::empty());
    assert(string_views(failed@) =~= Seq::<Seq<char>>::empty());
    while i < outcomes.len()
        invariant
            i <= outcomes@.len(),
            o == outcome_views(outcomes@),
            success_count <= i,
            success_count == successes(o.take(i as int)),
            string_views(failed@) == failures(o.take(i as int)),
        decreases outcomes@.len() - i,
    {
        proof {
            assert(o[i as int] == (outcomes@[i as int].0@, outcomes@[i as int].1));
            assert(o.take(i + 1).drop_last() =~= o.take(i as int));
        }
        if outcomes[i].1 {
            success_count += 1;
        } else {
            let ghost before = failed@;
            failed.push(outcomes[i].0.clone());
            assert(string_views(failed@) =~= string_views(before).push(o[i as int].0));
        }
        i += 1;
    }
    assert(o.take(i as int) =~= o);
    proof {
        lemma_union_distinct(state@.failed_nodes, failures(o));
    }
    let n: usize = outcomes.len();
    let mut next = state;
    next.last_snapshot = Some(snapshot.to_owned());
    next.last_sync = Some(now);
    next.failed_nodes = add_missing(next.failed_nodes, &failed);
    if success_count == n {
        next.status = ReplicationStatus::Completed;
        next.retry_count = 0;
        next.last_error = None;
    } else if success_count > 0 {
        next.status = ReplicationStatus::Completed;
        let mut e = "Partial success: ".to_owned();
        e.append(u64_text(success_count as u64).as_str());
        e.append("/");
        e.append(u64_text(n as u64).as_str());
        e.append(" targets");
        next.last_error = Some(e);
    } else {
        next.retry_count = next.retry_count + 1;
        next.status =
        if next.retry_count >= MAX_RETRIES {
            ReplicationStatus::Error("Max retries exceeded".to_owned())
        } else {
            ReplicationStatus::Retrying
        };
        let mut e = "All ".to_owned();
        e.append(u64_text(n as u64).as_str());
        e.append(" targets failed (attempt ");
        e.append(u64_text(next.retry_count as u64).as_str());
        e.append("/");
        e.append(u64_text(MAX_RETRIES as u64).as_str());
        e.append(")");
        next.last_error = Some(e);
    }
    next
}

proof fn lemma_union_contains(a: Seq<Seq<char>>, b: Seq<Seq<char>>, x: Seq<char>)
    ensures
        union_of(a, b).contains(x) == (a.contains(x) || b.contains(x)),
    decreases b.len(),
{
    if b.len() > 0 {
        let t = b.drop_last();
        lemma_union_contains(a, t, x);
        let before = union_of(a, t);
        let u = union_of(a, b);
        if b.contains(x) {
            let i = choose|i: int| 0 <= i < b.len() && b[i] == x;
            if i < t.len() {
                assert(t[i] == x);
            }
        }
        if t.contains(x) {
            let i = choose|i: int| 0 <= i < t.len() && t[i] == x;
            assert(b[i] == x);
        }
        if before.contains(x) {
            let i = choose|i: int| 0 <= i < before.len() && before[i] == x;
            assert(u[i] == x);
        }
        if b.last() == x {
            assert(b[b.len() - 1] == x);
            if !before.contains(x) {
                assert(u[u.len() - 1] == x);
            }
        }
        if u.contains(x) && !before.contains(x) {
            let i = choose|i: int| 0 <= i < u.len() && u[i] == x;
            assert(i == u.len() - 1);
        }
    }
}

/// A node to which a transfer has failed is no target of the volume's next round, whatever the
/// peers are then.
pub proof fn failed_nodes_are_avoided(
    r: ReplicatorView,
    g: GossipView,
    volume_id: Seq<char>,
    snapshot: Seq<char>,
    o: Seq<(Seq<char>, bool)>,
    now: i64,
    node_id: Seq<char>,
)
    requires
        distinct(r.states),
        has_key(r.states, volume_id),
        map_of(r.states)[volume_id].failed_nodes.contains(node_id) || failures(o).contains(
            node_id,
        ),
    ensures
        ({
            let targets = targets_of(
                round_ended(r, volume_id, snapshot, o, now),
                g,
                volume_id,
            );
            forall|i: int| 0 <= i < targets.len() ==> (#[trigger] targets[i]).id != node_id
        }),
{
    let s = map_of(r.states)[volume_id];
    let n = after_round(s, snapshot, o, now);
    let after = round_ended(r, volume_id, snapshot, o, now);
    entry_reads_back(r.states, volume_id, n);
    lemma_union_contains(s.failed_nodes, failures(o), node_id);
    lemma_union_contains(n.target_nodes, n.failed_nodes, node_id);
    let exclude = excluded_nodes(after.states, volume_id);
    assert(exclude == union_of(n.target_nodes, n.failed_nodes));
    targets_are_ranked(g.peers, g.node_id, exclude);
    let targets = targets_of(after, g, volume_id);
    let ranked = ranked_targets(g.peers, g.node_id, exclude);
    assert forall|i: int| 0 <= i < targets.len() implies (#[trigger] targets[i]).id != node_id by {
        assert(targets[i] == ranked[i]);
        assert(is_target(ranked[i], g.node_id, exclude));
    }
}

/// A peer that has come back can be a target again, if the volume was not replicated to it
/// before.
pub proof fn recovered_node_can_be_target(
    r: ReplicatorView,
    g: GossipView,
    volume_id: Seq<char>,
    i: int,
)
    requires
        distinct(r.states),
        has_key(r.states, volume_id),
        0 <= i < g.peers.len(),
        g.peers[i].1.id != g.node_id,
        !map_of(r.states)[volume_id].target_nodes.contains(g.peers[i].1.id),
    ensures
        ({
            let after = node_recovered(r, volume_id, g.peers[i].1.id);
            ranked_targets(
                g.peers,
                g.node_id,
                excluded_nodes(after.states, volume_id),
            ).contains(g.peers[i].1)
        }),
{
    let s = map_of(r.states)[volume_id];
    let node = g.peers[i].1;
    let n = after_recovery(s, node.id);
    let after = node_recovered(r, volume_id, node.id);
    entry_reads_back(r.states, volume_id, n);
    lemma_without(s.failed_nodes, node.id, node.id);
    lemma_union_contains(n.target_nodes, n.failed_nodes, node.id);
    let exclude = excluded_nodes(after.states, volume_id);
    assert(exclude == union_of(n.target_nodes, n.failed_nodes));
    targets_are_ranked(g.peers, g.node_id, exclude);
    assert(is_target(g.peers[i].1, g.node_id, exclude));
}

/// A round of transfers: the snapshot's name, the outcomes, and when the round ended.
pub struct Round {
    pub snapshot: Seq<char>,
    pub outcomes: Seq<(Seq<char>, bool)>,
    pub now: i64,
}

/// The state after some rounds.
pub open spec fn after_rounds(s: ReplicationStateView, rounds: Seq<Round>) -> ReplicationStateView
    decreases rounds.len(),
{
    if rounds.len() == 0 {
        s
    } else {
        let r = rounds.last();
        after_round(after_rounds(s, rounds.drop_last()), r.snapshot, r.outcomes, r.now)
    }
}

/// A volume whose rounds all fail is retried a bounded number of times, and then given up.
pub proof fn failing_volume_is_given_up(
    volume_id: Seq<char>,
    targets: Seq<Seq<char>>,
    rounds: Seq<Round>,
)
    requires
        0 < rounds.len() <= MAX_RETRIES,
        forall|i: int|
            0 <= i < rounds.len() ==> (#[trigger] rounds[i]).outcomes.len() > 0 && successes(
                rounds[i].outcomes,
            ) == 0,
    ensures
        ({
            let s = after_rounds(fresh_state(volume_id, targets), rounds);
            &&& s.retry_count == rounds.len()
            &&& rounds.len() < MAX_RETRIES ==> s.status is Retrying
            &&& rounds.len() == MAX_RETRIES ==> s.status == ReplicationStatusView::Error(
                "Max retries exceeded"@,
            )
        }),
    decreases rounds.len(),
{
    let t = rounds.drop_last();
    assert(rounds[rounds.len() - 1].outcomes.len() > 0);
    if t.len() > 0 {
        assert forall|i: int| 0 <= i < t.len() implies (#[trigger] t[i]).outcomes.len() > 0
            && successes(t[i].outcomes) == 0 by {
            assert(t[i] == rounds[i]);
        }
        failing_volume_is_given_up(volume_id, targets, t);
    } else {
        assert(after_rounds(fresh_state(volume_id, targets), t) == fresh_state(
            volume_id,
            targets,
        ));
    }
}

} // verus!
