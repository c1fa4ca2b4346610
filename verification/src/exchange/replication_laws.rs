//! What the replication of volumes promises.

use vstd::prelude::*;
use vstd::string::*;

use crate::exchange::gossip::{
    first_of, ranked_targets, space_place, targets_are_ranked, GossipView,
};
use crate::exchange::replicator::{
    after_recovery, after_round, backoff, doublings, due_volumes, excluded_nodes, failures,
    fresh_state, has_waited, is_due, lemma_without, node_recovered, round_begun, round_ended,
    round_without_targets, successes, targets_of, union_of, volumes_on, without_targets,
    ReplicationStateView, ReplicationStatusView, ReplicatorView,
};
use crate::exchange::stream::{announcement, attempt_step, send_call, AttemptStepView};
use crate::exchange::volume_manager::{registered, unregistered};
use crate::number::decimal;
use crate::ops::commands::CommandView;
use crate::ops::snapshot::SnapshotView;
use crate::protocol::payload::{NodeInfoView, SendStartRequestView};
use crate::table::{
    distinct, entry_is_read, entry_reads_back, has_key, map_of, other_entries_remain,
    other_entries_stay, position, removed_entry_is_gone, values_of,
};

verus! {

broadcast use vstd::string::group_string_axioms;

proof fn lemma_due(
    e: Seq<(Seq<char>, ReplicationStateView)>,
    now: i64,
    interval: u64,
    id: Seq<char>,
)
    ensures
        due_volumes(e, now, interval).contains(id) == (exists|i: int|
            0 <= i < e.len() && (#[trigger] e[i]).0 == id && is_due(e[i].1, now, interval)),
    decreases e.len(),
{
    if e.len() > 0 {
        let t = e.drop_last();
        lemma_due(t, now, interval, id);
        let d = due_volumes(t, now, interval);
        let f = due_volumes(e, now, interval);
        if exists|i: int|
            0 <= i < e.len() && (#[trigger] e[i]).0 == id && is_due(e[i].1, now, interval) {
            let i = choose|i: int|
                0 <= i < e.len() && (#[trigger] e[i]).0 == id && is_due(e[i].1, now, interval);
            if i < t.len() {
                assert(t[i] == e[i]);
                let k = choose|k: int| 0 <= k < d.len() && d[k] == id;
                assert(f[k] == id);
            } else {
                assert(f[f.len() - 1] == id);
            }
        }
        if f.contains(id) {
            let k = choose|k: int| 0 <= k < f.len() && f[k] == id;
            if k < d.len() {
                assert(d[k] == id);
                let i = choose|i: int|
                    0 <= i < t.len() && (#[trigger] t[i]).0 == id && is_due(
                        t[i].1,
                        now,
                        interval,
                    );
                assert(e[i] == t[i]);
            } else {
                assert(e[e.len() - 1].0 == id);
            }
        }
    }
}

proof fn lemma_due_by_state(
    e: Seq<(Seq<char>, ReplicationStateView)>,
    now: i64,
    interval: u64,
    id: Seq<char>,
)
    requires
        distinct(e),
        has_key(e, id),
    ensures
        due_volumes(e, now, interval).contains(id) == is_due(map_of(e)[id], now, interval),
{
    lemma_due(e, now, interval, id);
    let p = position(e, id);
    assert(e[p].0 == id);
    entry_is_read(e, p);
    if exists|i: int|
        0 <= i < e.len() && (#[trigger] e[i]).0 == id && is_due(e[i].1, now, interval) {
        let i = choose|i: int|
            0 <= i < e.len() && (#[trigger] e[i]).0 == id && is_due(e[i].1, now, interval);
        entry_is_read(e, i);
    }
}

/// A volume whose last round failed is due at every time; one that is being synchronised never
/// is. One that has not been synchronised yet is due. Any other is due once the interval has
/// passed since it was synchronised, or five times the interval where it ended in an error.
pub proof fn volumes_come_due(
    e: Seq<(Seq<char>, ReplicationStateView)>,
    now: i64,
    interval: u64,
    id: Seq<char>,
)
    requires
        distinct(e),
        has_key(e, id),
    ensures
        ({
            let s = map_of(e)[id];
            let due = due_volumes(e, now, interval).contains(id);
            &&& s.status is Retrying ==> due
            &&& s.status is Syncing ==> !due
            &&& s.status is Idle || s.status is Completed ==> match s.last_sync {
                None => due,
                Some(t) => due == (now - t > interval * 1000),
            }
            &&& s.status is Error ==> match s.last_sync {
                None => due,
                Some(t) => due == (now - t > interval * 5000),
            }
        }),
{
    lemma_due_by_state(e, now, interval, id);
}

/// Only a volume that is being synchronised is never due: every other is due from some time on.
pub proof fn every_volume_comes_due_again(
    e: Seq<(Seq<char>, ReplicationStateView)>,
    interval: u64,
    id: Seq<char>,
    now: i64,
)
    requires
        distinct(e),
        has_key(e, id),
        !(map_of(e)[id].status is Syncing),
        map_of(e)[id].last_sync matches Some(t) ==> now - t > interval * 5000,
    ensures
        due_volumes(e, now, interval).contains(id),
{
    lemma_due_by_state(e, now, interval, id);
}

/// What is due is a volume that is known, and each stands once, in the order of the states.
pub proof fn only_known_volumes_are_due(
    e: Seq<(Seq<char>, ReplicationStateView)>,
    now: i64,
    interval: u64,
    id: Seq<char>,
)
    ensures
        due_volumes(e, now, interval).contains(id) ==> has_key(e, id),
        due_volumes(e, now, interval).len() <= e.len(),
        due_volumes(e, now, interval) == e.filter(
            |x: (Seq<char>, ReplicationStateView)| is_due(x.1, now, interval),
        ).map_values(|x: (Seq<char>, ReplicationStateView)| x.0),
    decreases e.len(),
{
    reveal(Seq::filter);
    lemma_due(e, now, interval, id);
    if e.len() > 0 {
        only_known_volumes_are_due(e.drop_last(), now, interval, id);
        let p = |x: (Seq<char>, ReplicationStateView)| is_due(x.1, now, interval);
        let f = |x: (Seq<char>, ReplicationStateView)| x.0;
        let t = e.drop_last().filter(p);
        assert(t.push(e.last()).map_values(f) =~= t.map_values(f).push(e.last().0));
    } else {
        assert(due_volumes(e, now, interval) =~= e.filter(
            |x: (Seq<char>, ReplicationStateView)| is_due(x.1, now, interval),
        ).map_values(|x: (Seq<char>, ReplicationStateView)| x.0));
    }
}

/// The delay before a repetition is a second at first, doubles each time, and is never more than a
/// minute.
pub proof fn delays_double_up_to_a_minute(n: nat)
    ensures
        backoff(0) == 1000,
        backoff(n + 1) == (if 2 * backoff(n) < 60000 {
            2 * backoff(n)
        } else {
            60000
        }),
        n >= 6 ==> backoff(n) == 60000,
        n < 6 ==> backoff(n) < 60000,
{
    lemma_doublings_grow(n);
    lemma_doublings_grow(n + 1);
    assert(doublings(n + 1) == 2 * doublings(n));
}

proof fn lemma_doublings_grow(n: nat)
    ensures
        doublings(n) >= 1,
        n >= 6 ==> doublings(n) >= 64,
        n < 6 ==> doublings(n) <= 32,
    decreases n,
{
    reveal_with_fuel(doublings, 7);
    if n > 0 {
        lemma_doublings_grow((n - 1) as nat);
    }
}

/// A volume that is retried has waited long enough after one second, two, four and eight, by the
/// number of rounds that have failed in a row. Volumes in any other state need not wait.
pub proof fn retries_wait_longer_each_time(s: ReplicationStateView, now: i64, t: i64)
    requires
        s.last_sync == Some(t),
    ensures
        !(s.status is Retrying) ==> has_waited(s, now),
        s.status is Retrying && s.retry_count == 1 ==> has_waited(s, now) == (now - t >= 1000),
        s.status is Retrying && s.retry_count == 2 ==> has_waited(s, now) == (now - t >= 2000),
        s.status is Retrying && s.retry_count == 3 ==> has_waited(s, now) == (now - t >= 4000),
        s.status is Retrying && s.retry_count == 4 ==> has_waited(s, now) == (now - t >= 8000),
{
    delays_double_up_to_a_minute(0);
    delays_double_up_to_a_minute(1);
    delays_double_up_to_a_minute(2);
    assert(backoff(1) == 2000 && backoff(2) == 4000 && backoff(3) == 8000);
}

proof fn lemma_successes(o: Seq<(Seq<char>, bool)>)
    ensures
        successes(o) <= o.len(),
        successes(o) == o.filter(|x: (Seq<char>, bool)| x.1).len(),
        (successes(o) == o.len()) == (forall|i: int| 0 <= i < o.len() ==> (#[trigger] o[i]).1),
        (successes(o) > 0) == (exists|i: int| 0 <= i < o.len() && (#[trigger] o[i]).1),
    decreases o.len(),
{
    reveal(Seq::filter);
    if o.len() > 0 {
        let t = o.drop_last();
        lemma_successes(t);
        assert(o[o.len() - 1] == o.last());
        if forall|i: int| 0 <= i < o.len() ==> (#[trigger] o[i]).1 {
            assert forall|i: int| 0 <= i < t.len() implies (#[trigger] t[i]).1 by {
                assert(t[i] == o[i]);
            }
        }
        if successes(o) == o.len() {
            assert forall|i: int| 0 <= i < o.len() implies (#[trigger] o[i]).1 by {
                if i < t.len() {
                    assert(t[i] == o[i]);
                }
            }
        }
        if exists|i: int| 0 <= i < t.len() && (#[trigger] t[i]).1 {
            let i = choose|i: int| 0 <= i < t.len() && (#[trigger] t[i]).1;
            assert(o[i].1);
        }
        if exists|i: int| 0 <= i < o.len() && (#[trigger] o[i]).1 {
            let i = choose|i: int| 0 <= i < o.len() && (#[trigger] o[i]).1;
            if i < t.len() {
                assert(t[i].1);
            }
        }
    }
}

proof fn lemma_failures(o: Seq<(Seq<char>, bool)>, x: Seq<char>)
    ensures
        failures(o).contains(x) == (exists|i: int|
            0 <= i < o.len() && (#[trigger] o[i]).0 == x && !o[i].1),
    decreases o.len(),
{
    if o.len() > 0 {
        let t = o.drop_last();
        lemma_failures(t, x);
        let g = failures(t);
        let f = failures(o);
        assert(o[o.len() - 1] == o.last());
        if f.contains(x) {
            let k = choose|k: int| 0 <= k < f.len() && f[k] == x;
            if k < g.len() {
                assert(g[k] == x);
                let i = choose|i: int| 0 <= i < t.len() && (#[trigger] t[i]).0 == x && !t[i].1;
                assert(o[i] == t[i]);
            }
        }
        if exists|i: int| 0 <= i < o.len() && (#[trigger] o[i]).0 == x && !o[i].1 {
            let i = choose|i: int| 0 <= i < o.len() && (#[trigger] o[i]).0 == x && !o[i].1;
            if i < t.len() {
                assert(t[i] == o[i]);
                let k = choose|k: int| 0 <= k < g.len() && g[k] == x;
                assert(f[k] == x);
            } else {
                assert(f[f.len() - 1] == x);
            }
        }
    }
}

proof fn lemma_union(a: Seq<Seq<char>>, b: Seq<Seq<char>>, x: Seq<char>)
    ensures
        union_of(a, b).contains(x) == (a.contains(x) || b.contains(x)),
    decreases b.len(),
{
    if b.len() > 0 {
        let t = b.drop_last();
        lemma_union(a, t, x);
        lemma_union(a, t, b.last());
        let before = union_of(a, t);
        let u = union_of(a, b);
        if b.contains(x) {
            let i = choose|i: int| 0 <= i < b.len() && b[i] == x;
            if i < t.len() {
                assert(t[i] == x);
            }
        }
        if t.contains(x) {
            let i = choose|i: int| 0 <= i < t.len() && t[i] == x;
            assert(b[i] == x);
        }
        if before.contains(x) {
            let i = choose|i: int| 0 <= i < before.len() && before[i] == x;
            assert(u[i] == x);
        }
        if b.last() == x {
            assert(b[b.len() - 1] == x);
            if !before.contains(x) {
                assert(u[u.len() - 1] == x);
            }
        }
        if u.contains(x) && !before.contains(x) {
            let i = choose|i: int| 0 <= i < u.len() && u[i] == x;
            assert(i == u.len() - 1);
        }
    }
}

/// A round of transfers leaves its snapshot, its time and its failures behind. Where some transfer
/// succeeded the round is complete, and nothing is left to retry where all did. Where none did it
/// counts as one more failure in a row, and the fifth gives the volume up.
pub proof fn rounds_are_recorded(
    s: ReplicationStateView,
    snapshot: Seq<char>,
    o: Seq<(Seq<char>, bool)>,
    now: i64,
    x: Seq<char>,
)
    requires
        s.retry_count < u32::MAX,
    ensures
        ({
            let n = after_round(s, snapshot, o, now);
            let all = forall|i: int| 0 <= i < o.len() ==> (#[trigger] o[i]).1;
            let some = exists|i: int| 0 <= i < o.len() && (#[trigger] o[i]).1;
            &&& n.last_snapshot == Some(snapshot)
            &&& n.last_sync == Some(now)
            &&& n.volume_id == s.volume_id
            &&& n.target_nodes == s.target_nodes
            &&& n.failed_nodes.contains(x) == (s.failed_nodes.contains(x) || exists|i: int|
                0 <= i < o.len() && (#[trigger] o[i]).0 == x && !o[i].1)
            &&& all ==> n.status is Completed && n.retry_count == 0 && n.last_error is None
            &&& some && !all ==> {
                &&& n.status is Completed
                &&& n.retry_count == s.retry_count
                &&& n.last_error == Some(
                    "Partial success: "@ + decimal(
                        o.filter(|x: (Seq<char>, bool)| x.1).len(),
                    ) + "/"@ + decimal(o.len()) + " targets"@,
                )
            }
            &&& !some && !all ==> {
                &&& n.retry_count == s.retry_count + 1
                &&& s.retry_count + 1 < 5 ==> n.status is Retrying
                &&& s.retry_count + 1 >= 5 ==> n.status == ReplicationStatusView::Error(
                    "Max retries exceeded"@,
                )
                &&& n.last_error == Some(
                    "All "@ + decimal(o.len()) + " targets failed (attempt "@ + decimal(
                        (s.retry_count + 1) as nat,
                    ) + "/"@ + decimal(5) + ")"@,
                )
            }
        }),
{
    lemma_successes(o);
    lemma_failures(o, x);
    lemma_union(s.failed_nodes, failures(o), x);
}

/// A round that failed at every target is not the end: unless it was the fifth in a row, the
/// volume is due again at once, and may be retried as soon as it has waited.
pub proof fn failed_round_is_retried(
    r: ReplicatorView,
    id: Seq<char>,
    snapshot: Seq<char>,
    o: Seq<(Seq<char>, bool)>,
    ended: i64,
    now: i64,
)
    requires
        distinct(r.states),
        has_key(r.states, id),
        map_of(r.states)[id].retry_count < 4,
        o.len() > 0,
        forall|i: int| 0 <= i < o.len() ==> !(#[trigger] o[i]).1,
    ensures
        ({
            let after = round_ended(r, id, snapshot, o, ended);
            &&& due_volumes(after.states, now, after.default_interval).contains(id)
            &&& now - ended >= 8000 ==> has_waited(map_of(after.states)[id], now)
        }),
{
    let s = map_of(r.states)[id];
    let n = after_round(s, snapshot, o, ended);
    rounds_are_recorded(s, snapshot, o, ended, id);
    assert(!o[0].1);
    assert(n.status is Retrying);
    let after = round_ended(r, id, snapshot, o, ended);
    entry_reads_back(r.states, id, n);
    volumes_come_due(after.states, now, after.default_interval, id);
    retries_wait_longer_each_time(n, now, ended);
}

/// A round concerns its volume alone: the state of another volume stays as it is, from the
/// beginning of the round to its end, and so when a node comes back.
pub proof fn rounds_leave_other_volumes_alone(
    r: ReplicatorView,
    id: Seq<char>,
    other: Seq<char>,
    snapshot: Seq<char>,
    o: Seq<(Seq<char>, bool)>,
    now: i64,
    node: Seq<char>,
)
    requires
        distinct(r.states),
        other != id,
        has_key(r.states, other),
    ensures
        map_of(round_begun(r, id).states)[other] == map_of(r.states)[other],
        map_of(round_ended(r, id, snapshot, o, now).states)[other] == map_of(r.states)[other],
        map_of(round_without_targets(r, id).states)[other] == map_of(r.states)[other],
        map_of(node_recovered(r, id, node).states)[other] == map_of(r.states)[other],
        map_of(unregistered(r, id).states)[other] == map_of(r.states)[other],
        map_of(registered(r, id, 1).states)[other] == map_of(r.states)[other],
        has_key(unregistered(r, id).states, other),
        round_begun(r, id).default_interval == r.default_interval,
        round_begun(r, id).default_replica_count == r.default_replica_count,
        round_ended(r, id, snapshot, o, now).default_interval == r.default_interval,
        round_ended(r, id, snapshot, o, now).default_replica_count == r.default_replica_count,
{
    let s = if has_key(r.states, id) {
        map_of(r.states)[id]
    } else {
        fresh_state(id, Seq::empty())
    };
    other_entries_stay(
        r.states,
        id,
        ReplicationStateView { status: ReplicationStatusView::Syncing, ..s },
        other,
    );
    other_entries_stay(r.states, id, after_round(s, snapshot, o, now), other);
    other_entries_stay(r.states, id, without_targets(s), other);
    other_entries_stay(r.states, id, after_recovery(s, node), other);
    other_entries_stay(r.states, id, fresh_state(id, Seq::empty()), other);
    other_entries_remain(r.states, id, other);
}

/// While a round runs its volume is not due, and nothing else of its state changes. A round that
/// finds no target ends in an error that says so, and the volume comes due again.
pub proof fn round_without_targets_is_an_error(
    r: ReplicatorView,
    id: Seq<char>,
    now: i64,
    interval: u64,
)
    requires
        distinct(r.states),
    ensures
        ({
            let begun = round_begun(r, id);
            let s = map_of(begun.states)[id];
            let ended = round_without_targets(begun, id);
            let n = map_of(ended.states)[id];
            &&& has_key(begun.states, id)
            &&& s.status is Syncing
            &&& !due_volumes(begun.states, now, interval).contains(id)
            &&& has_key(r.states, id) ==> s == (ReplicationStateView {
                status: ReplicationStatusView::Syncing,
                ..map_of(r.states)[id]
            })
            &&& !has_key(r.states, id) ==> s.retry_count == 0 && s.last_sync is None
                && s.volume_id == id && s.failed_nodes.len() == 0 && s.target_nodes.len() == 0
            &&& n.status == ReplicationStatusView::Error("No targets available"@)
            &&& n.last_error == Some("No replication targets available"@)
            &&& n.retry_count == s.retry_count
            &&& n.last_sync == s.last_sync
            &&& n.failed_nodes == s.failed_nodes
            &&& n.target_nodes == s.target_nodes
            &&& n.last_snapshot == s.last_snapshot
            &&& n.volume_id == s.volume_id
        }),
{
    let before = if has_key(r.states, id) {
        map_of(r.states)[id]
    } else {
        fresh_state(id, Seq::empty())
    };
    let s = ReplicationStateView { status: ReplicationStatusView::Syncing, ..before };
    entry_reads_back(r.states, id, s);
    let begun = round_begun(r, id);
    volumes_come_due(begun.states, now, interval, id);
    entry_reads_back(begun.states, id, without_targets(s));
}

/// A volume that is registered is due at once and has failed nowhere; one without replicas is not
/// registered. A volume that is taken off replication is not known any more.
pub proof fn registered_volume_is_replicated(
    r: ReplicatorView,
    id: Seq<char>,
    replica_count: u32,
    now: i64,
    interval: u64,
)
    requires
        distinct(r.states),
    ensures
        replica_count > 0 ==> {
            let s = map_of(registered(r, id, replica_count).states)[id];
            &&& has_key(registered(r, id, replica_count).states, id)
            &&& due_volumes(registered(r, id, replica_count).states, now, interval).contains(id)
            &&& s.volume_id == id
            &&& s.status is Idle
            &&& s.retry_count == 0
            &&& s.last_sync is None
            &&& s.last_snapshot is None
            &&& s.last_error is None
            &&& s.failed_nodes.len() == 0
            &&& s.target_nodes.len() == 0
        },
        replica_count == 0 ==> registered(r, id, replica_count) == r,
        !has_key(unregistered(r, id).states, id),
        unregistered(r, id).default_interval == r.default_interval,
        unregistered(r, id).default_replica_count == r.default_replica_count,
{
    if replica_count > 0 {
        entry_reads_back(r.states, id, fresh_state(id, Seq::empty()));
        volumes_come_due(registered(r, id, replica_count).states, now, interval, id);
    }
    removed_entry_is_gone(r.states, id);
}

/// A node that comes back is taken off the failed nodes of a volume, and no other is. A volume
/// that had been given up starts afresh; any other keeps its state.
pub proof fn recovered_node_is_forgiven(
    s: ReplicationStateView,
    node: Seq<char>,
    x: Seq<char>,
)
    ensures
        ({
            let n = after_recovery(s, node);
            let stuck = s.status == ReplicationStatusView::Error("Max retries exceeded"@);
            &&& n.failed_nodes.contains(x) == (s.failed_nodes.contains(x) && x != node)
            &&& stuck ==> n.status is Idle && n.retry_count == 0
            &&& !stuck ==> n.status == s.status && n.retry_count == s.retry_count
            &&& n.volume_id == s.volume_id
            &&& n.target_nodes == s.target_nodes
            &&& n.last_sync == s.last_sync
            &&& n.last_snapshot == s.last_snapshot
            &&& n.last_error == s.last_error
        }),
{
    lemma_without(s.failed_nodes, node, x);
}

proof fn lemma_volumes_on(
    e: Seq<(Seq<char>, ReplicationStateView)>,
    node: Seq<char>,
    id: Seq<char>,
)
    ensures
        volumes_on(e, node).contains(id) == (exists|i: int|
            0 <= i < e.len() && (#[trigger] e[i]).0 == id && e[i].1.target_nodes.contains(node)),
    decreases e.len(),
{
    if e.len() > 0 {
        let t = e.drop_last();
        lemma_volumes_on(t, node, id);
        let g = volumes_on(t, node);
        let f = volumes_on(e, node);
        assert(e[e.len() - 1] == e.last());
        if f.contains(id) {
            let k = choose|k: int| 0 <= k < f.len() && f[k] == id;
            if k < g.len() {
                assert(g[k] == id);
                let i = choose|i: int|
                    0 <= i < t.len() && (#[trigger] t[i]).0 == id
                        && t[i].1.target_nodes.contains(node);
                assert(e[i] == t[i]);
            }
        }
        if exists|i: int|
            0 <= i < e.len() && (#[trigger] e[i]).0 == id && e[i].1.target_nodes.contains(node) {
            let i = choose|i: int|
                0 <= i < e.len() && (#[trigger] e[i]).0 == id
                    && e[i].1.target_nodes.contains(node);
            if i < t.len() {
                assert(t[i] == e[i]);
                let k = choose|k: int| 0 <= k < g.len() && g[k] == id;
                assert(f[k] == id);
            } else {
                assert(f[f.len() - 1] == id);
            }
        }
    }
}

/// The volumes of a node are those that have it among their targets.
pub proof fn volumes_of_a_node_have_it_as_target(
    e: Seq<(Seq<char>, ReplicationStateView)>,
    node: Seq<char>,
    id: Seq<char>,
)
    ensures
        volumes_on(e, node).contains(id) == (exists|i: int|
            0 <= i < e.len() && (#[trigger] e[i]).0 == id && e[i].1.target_nodes.contains(node)),
{
    lemma_volumes_on(e, node, id);
}

/// A volume goes neither to a node that it went to before nor to one at which it failed, and to
/// every other node it may go.
pub proof fn known_targets_are_excluded(r: ReplicatorView, id: Seq<char>, x: Seq<char>)
    ensures
        has_key(r.states, id) ==> excluded_nodes(r.states, id).contains(x) == (map_of(
            r.states,
        )[id].target_nodes.contains(x) || map_of(r.states)[id].failed_nodes.contains(x)),
        !has_key(r.states, id) ==> excluded_nodes(r.states, id).len() == 0,
{
    if has_key(r.states, id) {
        lemma_union(map_of(r.states)[id].target_nodes, map_of(r.states)[id].failed_nodes, x);
    }
}

proof fn lemma_ranked_len(
    e: Seq<(Seq<char>, NodeInfoView)>,
    node_id: Seq<char>,
    exclude: Seq<Seq<char>>,
)
    ensures
        ranked_targets(e, node_id, exclude).len() == e.filter(
            |x: (Seq<char>, NodeInfoView)| x.1.id != node_id && !exclude.contains(x.1.id),
        ).len(),
    decreases e.len(),
{
    reveal(Seq::filter);
    if e.len() > 0 {
        lemma_ranked_len(e.drop_last(), node_id, exclude);
        targets_are_ranked(e.drop_last(), node_id, exclude);
        let t = ranked_targets(e.drop_last(), node_id, exclude);
        lemma_place_bounds(t, e.last().1);
    }
}

proof fn lemma_place_bounds(s: Seq<NodeInfoView>, x: NodeInfoView)
    ensures
        0 <= crate::exchange::gossip::space_place(s, x) <= s.len(),
    decreases s.len(),
{
    if s.len() > 0 {
        lemma_place_bounds(s.drop_last(), x);
    }
}

/// A volume goes to as many peers as it is to have replicas, or to all that are left where there
/// are fewer: peers that are not the node itself and at which the volume neither is nor failed.
/// No peer that is passed over has more free space than one that is chosen.
pub proof fn replicas_go_where_there_is_room(
    r: ReplicatorView,
    g: GossipView,
    id: Seq<char>,
)
    requires
        has_key(r.states, id),
    ensures
        ({
            let s = map_of(r.states)[id];
            let t = targets_of(r, g, id);
            let left = g.peers.filter(
                |x: (Seq<char>, NodeInfoView)|
                    x.1.id != g.node_id && !s.target_nodes.contains(x.1.id)
                        && !s.failed_nodes.contains(x.1.id),
            );
            &&& t.len() == (if left.len() < r.default_replica_count {
                left.len()
            } else {
                r.default_replica_count as nat
            })
            &&& forall|i: int|
                0 <= i < t.len() ==> (#[trigger] t[i]).id != g.node_id && !s.target_nodes.contains(
                    t[i].id,
                ) && !s.failed_nodes.contains(t[i].id) && values_of(g.peers).contains(t[i])
            &&& forall|i: int, j: int|
                0 <= i < t.len() && 0 <= j < g.peers.len() && g.peers[j].1.id != g.node_id
                    && !s.target_nodes.contains(g.peers[j].1.id) && !s.failed_nodes.contains(
                    g.peers[j].1.id,
                ) && !t.contains(g.peers[j].1) ==> (#[trigger] t[i]).free_space >= (
                #[trigger] g.peers[j]).1.free_space
        }),
{
    let s = map_of(r.states)[id];
    let exclude = excluded_nodes(r.states, id);
    let all = ranked_targets(g.peers, g.node_id, exclude);
    let t = targets_of(r, g, id);
    assert forall|x: Seq<char>| exclude.contains(x) == (s.target_nodes.contains(x)
        || s.failed_nodes.contains(x)) by {
        known_targets_are_excluded(r, id, x);
    }
    targets_are_ranked(g.peers, g.node_id, exclude);
    lemma_ranked_len(g.peers, g.node_id, exclude);
    let p = |x: (Seq<char>, NodeInfoView)| x.1.id != g.node_id && !exclude.contains(x.1.id);
    let q = |x: (Seq<char>, NodeInfoView)|
        x.1.id != g.node_id && !s.target_nodes.contains(x.1.id) && !s.failed_nodes.contains(
            x.1.id,
        );
    lemma_same_filter(g.peers, p, q);
    assert(t =~= first_of(all, r.default_replica_count as nat));
    assert forall|i: int| 0 <= i < t.len() implies #[trigger] t[i] == all[i] by {}
    assert forall|i: int, j: int|
        0 <= i < t.len() && 0 <= j < g.peers.len() && g.peers[j].1.id != g.node_id
            && !s.target_nodes.contains(g.peers[j].1.id) && !s.failed_nodes.contains(
            g.peers[j].1.id,
        ) && !t.contains(g.peers[j].1) implies (#[trigger] t[i]).free_space >= (
    #[trigger] g.peers[j]).1.free_space by {
        assert(all.contains(g.peers[j].1));
        let k = choose|k: int| 0 <= k < all.len() && all[k] == g.peers[j].1;
        if k < t.len() {
            assert(t[k] == g.peers[j].1);
        }
        assert(all[i].free_space >= all[k].free_space);
    }
}

proof fn lemma_same_filter<T>(s: Seq<T>, p: spec_fn(T) -> bool, q: spec_fn(T) -> bool)
    requires
        forall|x: T| #[trigger] p(x) == q(x),
    ensures
        s.filter(p) == s.filter(q),
    decreases s.len(),
{
    reveal(Seq::filter);
    if s.len() > 0 {
        lemma_same_filter(s.drop_last(), p, q);
        assert(p(s.last()) == q(s.last()));
    }
}

/// A transfer that fails is repeated five times, after one second, two, four, eight and sixteen,
/// and then given up with the last error.
pub proof fn transfers_are_repeated_five_times(attempt: nat, e: Seq<char>)
    ensures
        attempt_step(attempt, None) is Done,
        attempt_step(0, Some(e)) == AttemptStepView::RetryAfter(1000),
        attempt_step(1, Some(e)) == AttemptStepView::RetryAfter(2000),
        attempt_step(2, Some(e)) == AttemptStepView::RetryAfter(4000),
        attempt_step(3, Some(e)) == AttemptStepView::RetryAfter(8000),
        attempt_step(4, Some(e)) == AttemptStepView::RetryAfter(16000),
        attempt >= 5 ==> attempt_step(attempt, Some(e)) == AttemptStepView::GiveUp(
            "Failed after "@ + decimal(5) + " retries: "@ + e,
        ),
{
    delays_double_up_to_a_minute(0);
    delays_double_up_to_a_minute(1);
    delays_double_up_to_a_minute(2);
    delays_double_up_to_a_minute(3);
    assert(backoff(1) == 2000 && backoff(2) == 4000 && backoff(3) == 8000 && backoff(4) == 16000);
}

/// A stream is announced under the snapshot's name and path, and is sent relative to its parent
/// where it has one; the announcement and the command agree on that.
pub proof fn streams_are_relative_to_their_parents(s: SnapshotView, p: SnapshotView)
    ensures
        announcement(s, Some(p)) == (SendStartRequestView {
            volume_id: s.name,
            snapshot_name: s.path,
            is_incremental: true,
            parent_snapshot: Some(p.path),
        }),
        announcement(s, None) == (SendStartRequestView {
            volume_id: s.name,
            snapshot_name: s.path,
            is_incremental: false,
            parent_snapshot: None,
        }),
        send_call(s, Some(p)) == (CommandView {
            program: "btrfs"@,
            args: seq!["send"@, "-p"@, p.path, s.path],
        }),
        send_call(s, None) == (CommandView { program: "btrfs"@, args: seq!["send"@, s.path] }),
{
}

/// A peer is ranked behind all that have at least as much free space, and before all that have
/// less: of equally roomy ones, the one that is listed first comes first.
pub proof fn equally_roomy_peers_keep_their_order(
    e: Seq<(Seq<char>, NodeInfoView)>,
    node_id: Seq<char>,
    exclude: Seq<Seq<char>>,
    name: Seq<char>,
    x: NodeInfoView,
)
    ensures
        x.id == node_id || exclude.contains(x.id) ==> ranked_targets(
            e.push((name, x)),
            node_id,
            exclude,
        ) == ranked_targets(e, node_id, exclude),
        x.id != node_id && !exclude.contains(x.id) ==> ({
            let r = ranked_targets(e, node_id, exclude);
            exists|k: int|
                {
                    &&& 0 <= k <= r.len()
                    &&& ranked_targets(e.push((name, x)), node_id, exclude) == #[trigger] r.insert(
                        k,
                        x,
                    )
                    &&& forall|i: int| 0 <= i < k ==> (#[trigger] r[i]).free_space >= x.free_space
                    &&& forall|i: int|
                        k <= i < r.len() ==> (#[trigger] r[i]).free_space < x.free_space
                }
        }),
{
    assert(e.push((name, x)).drop_last() =~= e);
    let r = ranked_targets(e, node_id, exclude);
    targets_are_ranked(e, node_id, exclude);
    let k = space_place(r, x);
    lemma_place_parts(r, x);
    if x.id != node_id && !exclude.contains(x.id) {
        assert(ranked_targets(e.push((name, x)), node_id, exclude) == r.insert(k, x));
        assert forall|i: int| 0 <= i < k implies (#[trigger] r[i]).free_space >= x.free_space by {
            assert(r[i].free_space >= r[k - 1].free_space);
        }
    }
}

proof fn lemma_place_parts(r: Seq<NodeInfoView>, x: NodeInfoView)
    ensures
        0 <= space_place(r, x) <= r.len(),
        space_place(r, x) > 0 ==> r[space_place(r, x) - 1].free_space >= x.free_space,
        forall|i: int|
            space_place(r, x) <= i < r.len() ==> (#[trigger] r[i]).free_space < x.free_space,
    decreases r.len(),
{
    if r.len() > 0 && r.last().free_space < x.free_space {
        let t = r.drop_last();
        lemma_place_parts(t, x);
        assert forall|i: int| space_place(r, x) <= i < r.len() implies (
        #[trigger] r[i]).free_space < x.free_space by {
            if i < t.len() {
                assert(t[i] == r[i]);
            }
        }
    }
}

} // verus!
