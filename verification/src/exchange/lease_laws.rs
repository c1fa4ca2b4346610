//! What a lease on the right to write a volume promises.

use vstd::prelude::*;
use vstd::string::*;

use crate::exchange::gossip::{vote_on, GossipView};
use crate::exchange::quorum::{any_conflict, grants, lease, reported_conflict};
use crate::ops::xattr::{ahead, clock_at, conflicting};
use crate::protocol::payload::{ConflictInfoView, QuorumVoteRequestView, QuorumVoteResponseView};

verus! {

broadcast use vstd::string::group_string_axioms;

proof fn lemma_grants(votes: Seq<QuorumVoteResponseView>)
    ensures
        grants(votes) == votes.filter(
            |v: QuorumVoteResponseView| v.vote_granted && !v.conflict,
        ).len(),
    decreases votes.len(),
{
    reveal(Seq::filter);
    if votes.len() > 0 {
        lemma_grants(votes.drop_last());
    }
}

/// Every vote that is granted and reports no conflict counts for one, whatever else it says, and
/// the node counts for one itself. The lease is granted exactly where these are more than half of
/// all nodes and no vote reports a conflict.
pub proof fn granting_votes_are_counted(
    others: nat,
    q: QuorumVoteRequestView,
    votes: Seq<QuorumVoteResponseView>,
)
    requires
        others > 0,
    ensures
        lease(others, q, votes).votes_received == 1 + votes.filter(
            |v: QuorumVoteResponseView| v.vote_granted && !v.conflict,
        ).len(),
        lease(others, q, votes).total_nodes == others + 1,
        lease(others, q, votes).votes_needed == (others + 1) / 2 + 1,
        lease(others, q, votes).conflict == (exists|i: int|
            0 <= i < votes.len() && (#[trigger] votes[i]).conflict),
        lease(others, q, votes).granted == (!(exists|i: int|
            0 <= i < votes.len() && (#[trigger] votes[i]).conflict) && 2 * (1 + votes.filter(
            |v: QuorumVoteResponseView| v.vote_granted && !v.conflict,
        ).len()) > others + 1),
{
    lemma_grants(votes);
}

/// A node that is alone always has the lease.
pub proof fn solo_node_has_the_lease(
    q: QuorumVoteRequestView,
    votes: Seq<QuorumVoteResponseView>,
)
    ensures
        lease(0, q, votes).granted,
        !lease(0, q, votes).conflict,
        lease(0, q, votes).votes_received == 1,
        lease(0, q, votes).votes_needed == 1,
        lease(0, q, votes).total_nodes == 1,
{
}

/// One more vote that is granted without a conflict raises the count by one; any other vote leaves
/// it as it is.
pub proof fn one_more_vote(
    others: nat,
    q: QuorumVoteRequestView,
    votes: Seq<QuorumVoteResponseView>,
    v: QuorumVoteResponseView,
)
    requires
        others > 0,
    ensures
        lease(others, q, votes.push(v)).votes_received == lease(others, q, votes).votes_received + (
        if v.vote_granted && !v.conflict {
            1nat
        } else {
            0nat
        }),
        lease(others, q, votes.push(v)).conflict == (lease(others, q, votes).conflict
            || v.conflict),
{
    let w = votes.push(v);
    assert(w.drop_last() =~= votes);
    assert(w[votes.len() as int] == v);
    if any_conflict(votes) {
        let i = choose|i: int| 0 <= i < votes.len() && (#[trigger] votes[i]).conflict;
        assert(w[i].conflict);
    }
    if any_conflict(w) {
        let i = choose|i: int| 0 <= i < w.len() && (#[trigger] w[i]).conflict;
        if i < votes.len() {
            assert(votes[i].conflict);
        }
    }
}

proof fn lemma_all_grant(votes: Seq<QuorumVoteResponseView>)
    requires
        forall|i: int|
            0 <= i < votes.len() ==> (#[trigger] votes[i]).vote_granted && !votes[i].conflict,
    ensures
        grants(votes) == votes.len(),
    decreases votes.len(),
{
    if votes.len() > 0 {
        let t = votes.drop_last();
        assert(votes[votes.len() - 1].vote_granted);
        assert forall|i: int| 0 <= i < t.len() implies (#[trigger] t[i]).vote_granted
            && !t[i].conflict by {
            assert(t[i] == votes[i]);
        }
        lemma_all_grant(t);
    }
}

/// Where every other node grants the lease without a conflict, all nodes have voted for it, and it
/// is granted.
pub proof fn unanimous_vote_grants(
    others: nat,
    q: QuorumVoteRequestView,
    votes: Seq<QuorumVoteResponseView>,
)
    requires
        votes.len() == others,
        forall|i: int|
            0 <= i < votes.len() ==> (#[trigger] votes[i]).vote_granted && !votes[i].conflict,
    ensures
        lease(others, q, votes).granted,
        lease(others, q, votes).votes_received == lease(others, q, votes).total_nodes,
        lease(others, q, votes).total_nodes == others + 1,
{
    lemma_all_grant(votes);
}

/// Where no other node grants it, nobody but a node that is alone has the lease.
pub proof fn no_lease_by_the_own_vote(
    others: nat,
    q: QuorumVoteRequestView,
    votes: Seq<QuorumVoteResponseView>,
)
    requires
        others > 0,
        forall|i: int| 0 <= i < votes.len() ==> !(#[trigger] votes[i]).vote_granted,
    ensures
        !lease(others, q, votes).granted,
        lease(others, q, votes).votes_received == 1,
{
    lemma_none_grants(votes);
}

proof fn lemma_none_grants(votes: Seq<QuorumVoteResponseView>)
    requires
        forall|i: int| 0 <= i < votes.len() ==> !(#[trigger] votes[i]).vote_granted,
    ensures
        grants(votes) == 0,
    decreases votes.len(),
{
    if votes.len() > 0 {
        assert(!votes[votes.len() - 1].vote_granted);
        assert forall|i: int| 0 <= i < votes.len() - 1 implies !(
        #[trigger] votes.drop_last()[i]).vote_granted by {
            assert(votes.drop_last()[i] == votes[i]);
        }
        lemma_none_grants(votes.drop_last());
    }
}

/// The vote of a node that does not know the volume raises the count by one and reports no
/// conflict.
pub proof fn unknowing_node_votes_for_the_lease(
    others: nat,
    s: GossipView,
    q: QuorumVoteRequestView,
    votes: Seq<QuorumVoteResponseView>,
)
    requires
        others > 0,
        !s.epochs.dom().contains(q.volume_id),
    ensures
        lease(others, q, votes.push(vote_on(s, q))).votes_received == lease(
            others,
            q,
            votes,
        ).votes_received + 1,
        lease(others, q, votes.push(vote_on(s, q))).conflict == lease(others, q, votes).conflict,
        vote_on(s, q) == (QuorumVoteResponseView {
            volume_id: q.volume_id,
            peer_epoch: 0,
            peer_vector_clock: Seq::empty(),
            vote_granted: true,
            peer_node: s.node_id,
            conflict: false,
        }),
{
    one_more_vote(others, q, votes, vote_on(s, q));
}

/// The vote of a node that knows the volume tells what it knows, and raises the count by one
/// unless each of the two clocks counts more writes of some node than the other.
pub proof fn knowing_node_votes_by_the_clocks(
    others: nat,
    s: GossipView,
    q: QuorumVoteRequestView,
    votes: Seq<QuorumVoteResponseView>,
)
    requires
        others > 0,
        s.epochs.dom().contains(q.volume_id),
    ensures
        ({
            let known = s.epochs[q.volume_id];
            let clash = (exists|n: Seq<char>|
                #[trigger] clock_at(known.vector_clock, n) > clock_at(q.vector_clock, n)) && (
            exists|n: Seq<char>|
                #[trigger] clock_at(q.vector_clock, n) > clock_at(known.vector_clock, n));
            let v = vote_on(s, q);
            &&& v.volume_id == q.volume_id
            &&& v.peer_node == s.node_id
            &&& v.peer_epoch == known.epoch
            &&& v.peer_vector_clock == known.vector_clock
            &&& v.conflict == clash
            &&& v.vote_granted == (!clash || known.epoch == 0)
            &&& lease(others, q, votes.push(v)).votes_received == lease(
                others,
                q,
                votes,
            ).votes_received + (if clash {
                0nat
            } else {
                1nat
            })
            &&& clash ==> !lease(others, q, votes.push(v)).granted
        }),
{
    let known = s.epochs[q.volume_id];
    let v = vote_on(s, q);
    assert(ahead(known.vector_clock, q.vector_clock) == (exists|n: Seq<char>|
        #[trigger] clock_at(known.vector_clock, n) > clock_at(q.vector_clock, n)));
    assert(ahead(q.vector_clock, known.vector_clock) == (exists|n: Seq<char>|
        #[trigger] clock_at(q.vector_clock, n) > clock_at(known.vector_clock, n)));
    one_more_vote(others, q, votes, v);
}

/// The count of a node in a clock in which no node stands twice is that of its entry, and zero
/// where it has none.
pub proof fn clock_counts_its_entries(c: Seq<(Seq<char>, u64)>, n: Seq<char>)
    requires
        forall|i: int, j: int| 0 <= i < j < c.len() ==> (#[trigger] c[i]).0 != (#[trigger] c[j]).0,
    ensures
        forall|i: int| 0 <= i < c.len() && (#[trigger] c[i]).0 == n ==> clock_at(c, n) == c[i].1,
        (forall|i: int| 0 <= i < c.len() ==> (#[trigger] c[i]).0 != n) ==> clock_at(c, n) == 0,
    decreases c.len(),
{
    if c.len() > 0 {
        let t = c.drop_last();
        assert forall|i: int, j: int| 0 <= i < j < t.len() implies (#[trigger] t[i]).0 != (
        #[trigger] t[j]).0 by {
            assert(t[i] == c[i] && t[j] == c[j]);
        }
        clock_counts_its_entries(t, n);
        assert(c[c.len() - 1] == c.last());
        assert forall|i: int| 0 <= i < c.len() && (#[trigger] c[i]).0 == n implies clock_at(c, n)
            == c[i].1 by {
            if i < t.len() {
                assert(t[i].0 == n);
                assert(c[i].0 != c[c.len() - 1].0);
            }
        }
        if forall|i: int| 0 <= i < c.len() ==> (#[trigger] c[i]).0 != n {
            assert forall|i: int| 0 <= i < t.len() implies (#[trigger] t[i]).0 != n by {
                assert(t[i] == c[i]);
            }
        }
    }
}

/// Writes of two nodes that do not know of each other conflict; a clock that goes on from another
/// does not conflict with it.
pub proof fn independent_writes_conflict(a: Seq<char>, b: Seq<char>, n: u64, m: u64)
    requires
        a != b,
        n > 0,
        m > 0,
    ensures
        conflicting(seq![(a, n)], seq![(b, m)]),
        !conflicting(seq![(a, n)], seq![(a, m)]),
        !conflicting(seq![(a, n)], seq![(a, n), (b, m)]),
        !conflicting(Seq::empty(), seq![(b, m)]),
{
    reveal_with_fuel(clock_at, 3);
    let x = seq![(a, n)];
    let y = seq![(b, m)];
    let z = seq![(a, n), (b, m)];
    let w = seq![(a, m)];
    assert(x.drop_last() =~= Seq::empty());
    assert(y.drop_last() =~= Seq::empty());
    assert(w.drop_last() =~= Seq::empty());
    assert(z.drop_last() =~= x);
    assert(clock_at(x, a) > clock_at(y, a));
    assert(clock_at(y, b) > clock_at(x, b));
    assert forall|k: Seq<char>| #[trigger] clock_at(x, k) <= clock_at(z, k) by {}
    assert forall|k: Seq<char>| k != a implies #[trigger] clock_at(x, k) == 0 && clock_at(w, k)
        == 0 by {}
    assert forall|k: Seq<char>| #[trigger] clock_at(Seq::<(Seq<char>, u64)>::empty(), k) == 0 by {}
    if n <= m {
        assert forall|k: Seq<char>| #[trigger] clock_at(x, k) <= clock_at(w, k) by {}
    } else {
        assert forall|k: Seq<char>| #[trigger] clock_at(w, k) <= clock_at(x, k) by {}
    }
}

/// The conflict that is reported names the volume, the requester and the last node whose vote
/// reports a conflict, with what each of them knows.
pub proof fn conflict_names_both_nodes(
    others: nat,
    q: QuorumVoteRequestView,
    votes: Seq<QuorumVoteResponseView>,
    i: int,
)
    requires
        others > 0,
        0 <= i < votes.len(),
        votes[i].conflict,
        forall|j: int| i < j < votes.len() ==> !(#[trigger] votes[j]).conflict,
    ensures
        lease(others, q, votes).conflict_info == Some(
            ConflictInfoView {
                volume_id: q.volume_id,
                node_a: q.requester_node,
                node_b: votes[i].peer_node,
                epoch_a: q.epoch,
                epoch_b: votes[i].peer_epoch,
                vector_clock_a: q.vector_clock,
                vector_clock_b: votes[i].peer_vector_clock,
            },
        ),
    decreases votes.len(),
{
    if i < votes.len() - 1 {
        let t = votes.drop_last();
        assert(!votes[votes.len() - 1].conflict);
        assert forall|j: int| i < j < t.len() implies !(#[trigger] t[j]).conflict by {
            assert(t[j] == votes[j]);
        }
        conflict_names_both_nodes(others, q, t, i);
        assert(reported_conflict(q, votes) == reported_conflict(q, t));
    }
}

} // verus!
