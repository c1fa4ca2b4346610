//! Leases on the right to write a volume, by vote of the peers.

use vstd::prelude::*;
use vstd::string::*;

use crate::exchange::gossip::{other_peers, vote_on, GossipService, GossipView};
use crate::ops::xattr::conflicting;
use crate::protocol::payload::{
    clock_clone, clock_view, ConflictInfo, ConflictInfoView, NodeInfoView, QuorumVoteRequest,
    QuorumVoteRequestView, QuorumVoteResponse, QuorumVoteResponseView,
};
use crate::table::{has_key, position, with_entry};

verus! {

broadcast use vstd::string::group_string_axioms;

/// Result of a quorum lease request.
#[derive(Debug)]
pub struct QuorumLeaseResult {
    pub granted: bool,
    pub votes_received: u32,
    pub votes_needed: u32,
    pub total_nodes: u32,
    pub conflict: bool,
    pub conflict_info: Option<ConflictInfo>,
}

/// What the result of a quorum lease request says.
#[verifier::ext_equal]
pub struct LeaseView {
    pub granted: bool,
    pub votes_received: nat,
    pub votes_needed: nat,
    pub total_nodes: nat,
    pub conflict: bool,
    pub conflict_info: Option<ConflictInfoView>,
}

impl View for QuorumLeaseResult {
    type V = LeaseView;

    open spec fn view(&self) -> LeaseView {
        LeaseView {
            granted: self.granted,
            votes_received: self.votes_received as nat,
            votes_needed: self.votes_needed as nat,
            total_nodes: self.total_nodes as nat,
            conflict: self.conflict,
            conflict_info: match self.conflict_info {
                Some(c) => Some(c@),
                None => None,
            },
        }
    }
}

/// What a list of votes says.
pub open spec fn vote_views(v: Seq<QuorumVoteResponse>) -> Seq<QuorumVoteResponseView> {
    v.map_values(|x: QuorumVoteResponse| x@)
}

/// The number of votes that grant the lease and report no conflict.
pub open spec fn grants(votes: Seq<QuorumVoteResponseView>) -> nat
    decreases votes.len(),
{
    if votes.len() == 0 {
        0
    } else if !votes.last().conflict && votes.last().vote_granted {
        grants(votes.drop_last()) + 1
    } else {
        grants(votes.drop_last())
    }
}

/// Whether some vote reports a conflict.
pub open spec fn any_conflict(votes: Seq<QuorumVoteResponseView>) -> bool {
    exists|i: int| 0 <= i < votes.len() && (#[trigger] votes[i]).conflict
}

/// The conflict that the last conflicting vote reports.
pub open spec fn reported_conflict(
    q: QuorumVoteRequestView,
    votes: Seq<QuorumVoteResponseView>,
) -> Option<ConflictInfoView>
    decreases votes.len(),
{
    if votes.len() == 0 {
        None
    } else if votes.last().conflict {
        Some(
            ConflictInfoView {
                volume_id: q.volume_id,
                node_a: q.requester_node,
                node_b: votes.last().peer_node,
                epoch_a: q.epoch,
                epoch_b: votes.last().peer_epoch,
                vector_clock_a: q.vector_clock,
                vector_clock_b: votes.last().peer_vector_clock,
            },
        )
    } else {
        reported_conflict(q, votes.drop_last())
    }
}

/// The votes that a lease takes: more than half of all nodes, which are the other nodes and the
/// node itself.
pub open spec fn votes_needed(others: nat) -> nat {
    (others + 1) / 2 + 1
}

/// The lease that the votes of the other nodes give. The node votes for itself; a node that is
/// alone needs no one else, and a conflict overrides all votes.
pub open spec fn lease(
    others: nat,
    q: QuorumVoteRequestView,
    votes: Seq<QuorumVoteResponseView>,
) -> LeaseView {
    let received = grants(votes) + 1;
    if others == 0 {
        LeaseView {
            granted: true,
            votes_received: 1,
            votes_needed: 1,
            total_nodes: 1,
            conflict: false,
            conflict_info: None,
        }
    } else {
        LeaseView {
            granted: !any_conflict(votes) && received >= votes_needed(others),
            votes_received: received,
            votes_needed: votes_needed(others),
            total_nodes: others + 1,
            conflict: any_conflict(votes),
            conflict_info: reported_conflict(q, votes),
        }
    }
}

impl GossipService {
    /// The request for votes on the right to write a volume.
    pub fn vote_request(&self, volume_id: &str, epoch: u64, vector_clock: &Vec<(String, u64)>) -> (r:
        QuorumVoteRequest)
        ensures
            r@ == (QuorumVoteRequestView {
                volume_id: volume_id@,
                epoch,
                vector_clock: clock_view(vector_clock@),
                requester_node: self@.node_id,
            }),
    {
        QuorumVoteRequest {
            volume_id: volume_id.to_owned(),
            epoch,
            vector_clock: clock_clone(vector_clock),
            requester_node: self.own_id(),
        }
    }

    /// Counts the votes that have come in on a request. The cluster is made up of the node and
    /// its peers; where the node stands among its own peers, it counts once.
    pub fn request_quorum_lease(
        &self,
        request: &QuorumVoteRequest,
        votes: &Vec<QuorumVoteResponse>,
    ) -> (r: QuorumLeaseResult)
        requires
            other_peers(self@.peers, self@.node_id).len() < u32::MAX,
            votes@.len() < u32::MAX,
        ensures
            r@ == lease(
                other_peers(self@.peers, self@.node_id).len(),
                request@,
                vote_views(votes@),
            ),
    {
        let other_nodes: usize = self.addressees().len();
        if other_nodes == 0 {
            return QuorumLeaseResult {
                granted: true,
                votes_received: 1,
                votes_needed: 1,
                total_nodes: 1,
                conflict: false,
                conflict_info: None,
            };
        }
        let ghost all = vote_views(votes@);
        let required: u32 = ((other_nodes + 1) / 2 + 1) as u32;
        let mut votes_granted: u32 = 1;
        let mut last: Option<usize> = None;
        let mut i: usize = 0;
        assert(all.take(0) =~= Seq::<QuorumVoteResponseView>::empty());
        while i < votes.len()
            invariant
                i <= votes@.len() < u32::MAX,
                all == vote_views(votes@),
                votes_granted == grants(all.take(i as int)) + 1,
                votes_granted <= i + 1,
                match last {
                    Some(k) => k < i && all[k as int].conflict && reported_conflict(
                        request@,
                        all.take(i as int),
                    ) == Some(conflict_between(request@, all[k as int])),
                    None => reported_conflict(request@, all.take(i as int)) is None && forall|
                        k: int,
                    |
                        0 <= k < i ==> !(#[trigger] all[k]).conflict,
                },
            decreases votes@.len() - i,
        {
            proof {
                assert(all[i as int] == votes@[i as int]@);
                assert(all.take(i + 1).drop_last() =~= all.take(i as int));
            }
            if votes[i].conflict {
                last = Some(i);
            } else if votes[i].vote_granted {
                votes_granted += 1;
            }
            i += 1;
        }
        assert(all.take(i as int) =~= all);
        match last {
            Some(k) => {
                let vote = &votes[k];
                let info = ConflictInfo {
                    volume_id: request.volume_id.clone(),
                    node_a: request.requester_node.clone(),
                    node_b: vote.peer_node.clone(),
                    epoch_a: request.epoch,
                    epoch_b: vote.peer_epoch,
                    vector_clock_a: clock_clone(&request.vector_clock),
                    vector_clock_b: clock_clone(&vote.peer_vector_clock),
                };
                assert(all[k as int] == vote@);
                QuorumLeaseResult {
                    granted: false,
                    votes_received: votes_granted,
                    votes_needed: required,
                    total_nodes: (other_nodes + 1) as u32,
                    conflict: true,
                    conflict_info: Some(info),
                }
            },
            None => QuorumLeaseResult {
                granted: votes_granted >= required,
                votes_received: votes_granted,
                votes_needed: required,
                total_nodes: (other_nodes + 1) as u32,
                conflict: false,
                conflict_info: None,
            },
        }
    }
}

/// The conflict that a vote reports.
pub open spec fn conflict_between(
    q: QuorumVoteRequestView,
    vote: QuorumVoteResponseView,
) -> ConflictInfoView {
    ConflictInfoView {
        volume_id: q.volume_id,
        node_a: q.requester_node,
        node_b: vote.peer_node,
        epoch_a: q.epoch,
        epoch_b: vote.peer_epoch,
        vector_clock_a: q.vector_clock,
        vector_clock_b: vote.peer_vector_clock,
    }
}

/// No lease is granted where a peer reports a conflict.
pub proof fn no_lease_in_conflict(
    others: nat,
    q: QuorumVoteRequestView,
    votes: Seq<QuorumVoteResponseView>,
)
    requires
        others > 0,
        any_conflict(votes),
    ensures
        !lease(others, q, votes).granted,
        lease(others, q, votes).conflict,
        lease(others, q, votes).conflict_info is Some,
    decreases votes.len(),
{
    let i = choose|i: int| 0 <= i < votes.len() && (#[trigger] votes[i]).conflict;
    if !votes.last().conflict {
        assert(votes.drop_last()[i].conflict);
        no_lease_in_conflict(others, q, votes.drop_last());
    }
}

/// Where no vote reports a conflict, the lease is granted to a node that has the votes of more
/// than half of all nodes, its own included, and to no other.
pub proof fn lease_takes_a_majority(
    others: nat,
    q: QuorumVoteRequestView,
    votes: Seq<QuorumVoteResponseView>,
)
    requires
        !any_conflict(votes),
    ensures
        ({
            let l = lease(others, q, votes);
            &&& l.total_nodes == others + 1
            &&& l.granted <==> l.votes_received >= l.total_nodes / 2 + 1
            &&& !l.conflict
        }),
{
}

proof fn lemma_own_entry(
    e: Seq<(Seq<char>, NodeInfoView)>,
    node_id: Seq<char>,
    i: int,
    info: NodeInfoView,
)
    requires
        0 <= i < e.len(),
        e[i].0 == node_id,
    ensures
        other_peers(e.update(i, (node_id, info)), node_id) == other_peers(e, node_id),
    decreases e.len(),
{
    let f = e.update(i, (node_id, info));
    if i < e.len() - 1 {
        assert(f.drop_last() =~= e.drop_last().update(i, (node_id, info)));
        lemma_own_entry(e.drop_last(), node_id, i, info);
    } else {
        assert(f.drop_last() =~= e.drop_last());
    }
}

/// A node that takes its own entry in among its peers, as it does from the list of a seed that it
/// joins, asks and counts the same other nodes as without it, and gets the same lease.
pub proof fn own_entry_does_not_count(
    e: Seq<(Seq<char>, NodeInfoView)>,
    node_id: Seq<char>,
    info: NodeInfoView,
    q: QuorumVoteRequestView,
    votes: Seq<QuorumVoteResponseView>,
)
    ensures
        ({
            let joined = with_entry(e, node_id, info);
            &&& other_peers(joined, node_id) == other_peers(e, node_id)
            &&& lease(other_peers(joined, node_id).len(), q, votes) == lease(
                other_peers(e, node_id).len(),
                q,
                votes,
            )
        }),
{
    if has_key(e, node_id) {
        let i = position(e, node_id);
        assert(0 <= i < e.len() && e[i].0 == node_id);
        lemma_own_entry(e, node_id, i, info);
    } else {
        assert(e.push((node_id, info)).drop_last() =~= e);
    }
}

/// Two leases cannot both be granted by disjoint sets of nodes, in a cluster in which every node
/// knows all others: the votes of two leases exceed the nodes.
pub proof fn quorums_intersect(
    others: nat,
    q1: QuorumVoteRequestView,
    votes1: Seq<QuorumVoteResponseView>,
    q2: QuorumVoteRequestView,
    votes2: Seq<QuorumVoteResponseView>,
)
    requires
        lease(others, q1, votes1).granted,
        lease(others, q2, votes2).granted,
    ensures
        lease(others, q1, votes1).votes_received + lease(others, q2, votes2).votes_received
            > lease(others, q1, votes1).total_nodes,
{
}

/// A node that knows of writes which conflict with those of the requester says so, and does not
/// grant the lease unless it counts no epoch yet.
pub proof fn conflicting_writes_are_reported(s: GossipView, q: QuorumVoteRequestView)
    requires
        s.epochs.dom().contains(q.volume_id),
        conflicting(s.epochs[q.volume_id].vector_clock, q.vector_clock),
    ensures
        vote_on(s, q).conflict,
        s.epochs[q.volume_id].epoch > 0 ==> !vote_on(s, q).vote_granted,
{
}

} // verus!
