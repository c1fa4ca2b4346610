//! What the membership of the cluster promises.

use vstd::prelude::*;
use vstd::string::*;

use crate::exchange::gossip::{
    action_on, after_message, best_in_zone, best_in_zones, fresh_peers, other_peers, stale_ids,
    with_nodes, GossipActionView, GossipMessageView, GossipReplyView, GossipView,
};
use crate::protocol::payload::{
    ConflictInfoView, DeleteVolumeRequestView, EpochInfoView, HeartbeatPayloadView, NodeInfoView,
    QuorumVoteRequestView, VolumeUnpublishRequestView,
};
use crate::table::{
    distinct, entry_reads_back, has_key, map_of, other_entries_remain, other_entries_stay, position,
    removed_entry_is_gone, values_of, with_entry,
};

verus! {

broadcast use vstd::string::group_string_axioms;

/// A node that is heard of, by a heartbeat or because it joins, is known as it describes itself and
/// as seen at that time. Nothing else that is remembered changes, and another peer stays as it
/// was. A heartbeat is acknowledged.
pub proof fn heard_node_is_known_as_it_describes_itself(
    s: GossipView,
    h: HeartbeatPayloadView,
    now: i64,
    other: Seq<char>,
)
    requires
        distinct(s.peers),
        other != h.node_id,
    ensures
        forall|m: GossipMessageView|
            m == GossipMessageView::Heartbeat(h) || m == GossipMessageView::NodeJoin(h) ==> {
                let after = #[trigger] after_message(s, m, now);
                &&& has_key(after.peers, h.node_id)
                &&& map_of(after.peers)[h.node_id] == (NodeInfoView {
                    id: h.node_id,
                    addr: h.addr,
                    zone: h.zone,
                    role: h.role,
                    free_space: h.free_space,
                    last_seen: now,
                })
                &&& has_key(after.peers, other) == has_key(s.peers, other)
                &&& has_key(s.peers, other) ==> map_of(after.peers)[other] == map_of(
                    s.peers,
                )[other]
                &&& after == (GossipView { peers: after.peers, ..s })
            },
        action_on(s, GossipMessageView::Heartbeat(h), now) == (GossipActionView {
            reply: GossipReplyView::HeartbeatAck,
            failed_node: None,
            conflict: None,
            remove_dir: None,
            unpublish: None,
        }),
{
    let node = NodeInfoView {
        id: h.node_id,
        addr: h.addr,
        zone: h.zone,
        role: h.role,
        free_space: h.free_space,
        last_seen: now,
    };
    entry_reads_back(s.peers, h.node_id, node);
    other_entries_stay(s.peers, h.node_id, node, other);
}

/// A node that joins is answered with all nodes that are then known, itself among them.
pub proof fn joining_node_learns_of_all_peers(s: GossipView, h: HeartbeatPayloadView, now: i64)
    requires
        distinct(s.peers),
    ensures
        ({
            let a = action_on(s, GossipMessageView::NodeJoin(h), now);
            let after = after_message(s, GossipMessageView::NodeJoin(h), now);
            &&& a.reply matches GossipReplyView::NodeList(l) && l.len() == after.peers.len() && (
            forall|i: int| 0 <= i < l.len() ==> #[trigger] l[i] == after.peers[i].1) && l.contains(
                NodeInfoView {
                    id: h.node_id,
                    addr: h.addr,
                    zone: h.zone,
                    role: h.role,
                    free_space: h.free_space,
                    last_seen: now,
                },
            )
            &&& a.failed_node is None
            &&& a.conflict is None
            &&& a.remove_dir is None
            &&& a.unpublish is None
        }),
{
    let node = NodeInfoView {
        id: h.node_id,
        addr: h.addr,
        zone: h.zone,
        role: h.role,
        free_space: h.free_space,
        last_seen: now,
    };
    entry_reads_back(s.peers, h.node_id, node);
    let f = with_entry(s.peers, h.node_id, node);
    let l = values_of(f);
    let p = if has_key(s.peers, h.node_id) {
        position(s.peers, h.node_id)
    } else {
        s.peers.len() as int
    };
    if has_key(s.peers, h.node_id) {
        assert(s.peers[p].0 == h.node_id);
    }
    assert(f[p].1 == node);
    assert(l[p] == node);
}

/// A node that leaves is forgotten and its failure is reported; other peers stay, and it is not
/// answered.
pub proof fn leaving_concerns_the_node_alone(
    s: GossipView,
    h: HeartbeatPayloadView,
    now: i64,
    other: Seq<char>,
)
    requires
        distinct(s.peers),
        other != h.node_id,
    ensures
        ({
            let after = after_message(s, GossipMessageView::NodeLeave(h), now);
            &&& !has_key(after.peers, h.node_id)
            &&& has_key(after.peers, other) == has_key(s.peers, other)
            &&& has_key(s.peers, other) ==> map_of(after.peers)[other] == map_of(s.peers)[other]
            &&& after == (GossipView { peers: after.peers, ..s })
        }),
        action_on(s, GossipMessageView::NodeLeave(h), now) == (GossipActionView {
            reply: GossipReplyView::Silence,
            failed_node: Some(h.node_id),
            conflict: None,
            remove_dir: None,
            unpublish: None,
        }),
{
    removed_entry_is_gone(s.peers, h.node_id);
    other_entries_remain(s.peers, h.node_id, other);
}

/// A conflict that is told of is reported, and marks its volume where that is known. No other
/// volume is touched, and neither are the peers.
pub proof fn conflict_marks_the_volume(
    s: GossipView,
    c: ConflictInfoView,
    now: i64,
    other: Seq<char>,
)
    requires
        other != c.volume_id,
    ensures
        ({
            let after = after_message(s, GossipMessageView::ConflictDetected(c), now);
            &&& after.epochs.dom() == s.epochs.dom()
            &&& s.epochs.dom().contains(c.volume_id) ==> after.epochs[c.volume_id] == (
            EpochInfoView { status: "conflict"@, ..s.epochs[c.volume_id] })
            &&& s.epochs.dom().contains(other) ==> after.epochs[other] == s.epochs[other]
            &&& after.peers == s.peers
            &&& after.volumes == s.volumes
        }),
        action_on(s, GossipMessageView::ConflictDetected(c), now) == (GossipActionView {
            reply: GossipReplyView::Silence,
            failed_node: None,
            conflict: Some(c),
            remove_dir: None,
            unpublish: None,
        }),
{
    let after = after_message(s, GossipMessageView::ConflictDetected(c), now);
    assert(after.epochs.dom() =~= s.epochs.dom());
}

/// A volume that is deleted elsewhere is forgotten, its replica is removed from the directory of
/// the snapshots, and the deletion is acknowledged. Other volumes stay.
pub proof fn deleted_volume_loses_its_replica(
    s: GossipView,
    d: DeleteVolumeRequestView,
    now: i64,
    other: Seq<char>,
)
    requires
        other != d.volume_id,
    ensures
        ({
            let after = after_message(s, GossipMessageView::DeleteVolume(d), now);
            &&& !after.epochs.dom().contains(d.volume_id)
            &&& after.epochs.dom().contains(other) == s.epochs.dom().contains(other)
            &&& s.epochs.dom().contains(other) ==> after.epochs[other] == s.epochs[other]
            &&& after.peers == s.peers
            &&& after.volumes == s.volumes
        }),
        action_on(s, GossipMessageView::DeleteVolume(d), now) == (GossipActionView {
            reply: GossipReplyView::DeleteVolumeAck,
            failed_node: None,
            conflict: None,
            remove_dir: Some(s.snapshot_dir + "/"@ + d.volume_id),
            unpublish: None,
        }),
{
}

/// A notice that a volume is unpublished changes nothing that is remembered: the node it names is
/// to be taken off the list of that volume, and the notice is acknowledged. A request for a vote
/// changes nothing either, and every other message is passed over.
pub proof fn notices_change_no_membership(
    s: GossipView,
    u: VolumeUnpublishRequestView,
    q: QuorumVoteRequestView,
    now: i64,
)
    ensures
        after_message(s, GossipMessageView::VolumeUnpublish(u), now) == s,
        action_on(s, GossipMessageView::VolumeUnpublish(u), now) == (GossipActionView {
            reply: GossipReplyView::VolumeUnpublishAck,
            failed_node: None,
            conflict: None,
            remove_dir: None,
            unpublish: Some(u),
        }),
        after_message(s, GossipMessageView::QuorumVote(q), now) == s,
        action_on(s, GossipMessageView::QuorumVote(q), now).reply is Vote,
        action_on(s, GossipMessageView::QuorumVote(q), now).conflict is None,
        action_on(s, GossipMessageView::QuorumVote(q), now).remove_dir is None,
        after_message(s, GossipMessageView::Other, now) == s,
        action_on(s, GossipMessageView::Other, now).reply is Silence,
        action_on(s, GossipMessageView::HeartbeatAck, now).reply is Silence,
        action_on(s, GossipMessageView::QuorumVoteResponse, now).reply is Silence,
        after_message(s, GossipMessageView::HeartbeatAck, now) == s,
        after_message(s, GossipMessageView::QuorumVoteResponse, now) == s,
{
}

/// The cleanup forgets exactly the peers that were last seen longer ago than the timeout, reports
/// each of them, and keeps the others in their order.
pub proof fn silent_peers_are_forgotten(
    e: Seq<(Seq<char>, NodeInfoView)>,
    now: i64,
    node_timeout: u64,
)
    ensures
        fresh_peers(e, now, node_timeout) == e.filter(
            |x: (Seq<char>, NodeInfoView)| now - x.1.last_seen <= node_timeout * 1000,
        ),
        stale_ids(e, now, node_timeout) == e.filter(
            |x: (Seq<char>, NodeInfoView)| now - x.1.last_seen > node_timeout * 1000,
        ).map_values(|x: (Seq<char>, NodeInfoView)| x.0),
    decreases e.len(),
{
    reveal(Seq::filter);
    let p = |x: (Seq<char>, NodeInfoView)| now - x.1.last_seen > node_timeout * 1000;
    let f = |x: (Seq<char>, NodeInfoView)| x.0;
    if e.len() > 0 {
        silent_peers_are_forgotten(e.drop_last(), now, node_timeout);
        let t = e.drop_last().filter(p);
        assert(t.push(e.last()).map_values(f) =~= t.map_values(f).push(e.last().0));
    } else {
        assert(stale_ids(e, now, node_timeout) =~= e.filter(p).map_values(f));
        assert(fresh_peers(e, now, node_timeout) =~= e);
    }
}

/// Votes and notices go to every peer but the node itself, under the address that it gave.
pub proof fn notices_go_to_all_others(e: Seq<(Seq<char>, NodeInfoView)>, node_id: Seq<char>)
    ensures
        other_peers(e, node_id) == e.filter(
            |x: (Seq<char>, NodeInfoView)| x.0 != node_id,
        ).map_values(|x: (Seq<char>, NodeInfoView)| (x.0, x.1.addr)),
    decreases e.len(),
{
    reveal(Seq::filter);
    let p = |x: (Seq<char>, NodeInfoView)| x.0 != node_id;
    let f = |x: (Seq<char>, NodeInfoView)| (x.0, x.1.addr);
    if e.len() > 0 {
        notices_go_to_all_others(e.drop_last(), node_id);
        let t = e.drop_last().filter(p);
        assert(t.push(e.last()).map_values(f) =~= t.map_values(f).push(
            (e.last().0, e.last().1.addr),
        ));
    } else {
        assert(other_peers(e, node_id) =~= e.filter(p).map_values(f));
    }
}

proof fn lemma_with_nodes(
    e: Seq<(Seq<char>, NodeInfoView)>,
    nodes: Seq<NodeInfoView>,
    x: Seq<char>,
)
    requires
        distinct(e),
    ensures
        distinct(with_nodes(e, nodes)),
        (forall|i: int| 0 <= i < nodes.len() ==> (#[trigger] nodes[i]).id != x) ==> has_key(
            with_nodes(e, nodes),
            x,
        ) == has_key(e, x) && (has_key(e, x) ==> map_of(with_nodes(e, nodes))[x] == map_of(e)[x]),
    decreases nodes.len(),
{
    if nodes.len() > 0 {
        let t = nodes.drop_last();
        let n = nodes.last();
        lemma_with_nodes(e, t, x);
        entry_reads_back(with_nodes(e, t), n.id, n);
        if forall|i: int| 0 <= i < nodes.len() ==> (#[trigger] nodes[i]).id != x {
            assert(nodes[nodes.len() - 1].id != x);
            assert forall|i: int| 0 <= i < t.len() implies (#[trigger] t[i]).id != x by {
                assert(t[i] == nodes[i]);
            }
            other_entries_stay(with_nodes(e, t), n.id, n, x);
        }
    }
}

/// Every node of a list that is joined by is known as the list describes it, the later of two
/// descriptions counting; peers that the list does not name stay as they were.
pub proof fn joined_nodes_are_known(
    e: Seq<(Seq<char>, NodeInfoView)>,
    nodes: Seq<NodeInfoView>,
    i: int,
    x: Seq<char>,
)
    requires
        distinct(e),
        0 <= i < nodes.len(),
        forall|j: int| i < j < nodes.len() ==> (#[trigger] nodes[j]).id != nodes[i].id,
    ensures
        has_key(with_nodes(e, nodes), nodes[i].id),
        map_of(with_nodes(e, nodes))[nodes[i].id] == nodes[i],
        (forall|j: int| 0 <= j < nodes.len() ==> (#[trigger] nodes[j]).id != x) ==> has_key(
            with_nodes(e, nodes),
            x,
        ) == has_key(e, x) && (has_key(e, x) ==> map_of(with_nodes(e, nodes))[x] == map_of(e)[x]),
    decreases nodes.len(),
{
    let t = nodes.drop_last();
    let n = nodes.last();
    lemma_with_nodes(e, nodes, x);
    lemma_with_nodes(e, t, n.id);
    entry_reads_back(with_nodes(e, t), n.id, n);
    if i < nodes.len() - 1 {
        assert(nodes[nodes.len() - 1].id != nodes[i].id);
        assert forall|j: int| i < j < t.len() implies (#[trigger] t[j]).id != t[i].id by {
            assert(t[j] == nodes[j]);
        }
        joined_nodes_are_known(e, t, i, x);
        other_entries_stay(with_nodes(e, t), n.id, n, nodes[i].id);
    }
}

proof fn lemma_best(
    e: Seq<(Seq<char>, NodeInfoView)>,
    node_id: Seq<char>,
    exclude: Seq<Seq<char>>,
    zone: Seq<char>,
    i: int,
)
    requires
        0 <= i < e.len(),
        e[i].1.zone == zone,
        e[i].1.id != node_id,
        !exclude.contains(e[i].1.id),
    ensures
        best_in_zone(e, node_id, exclude, zone) matches Some(b) && b.free_space
            >= e[i].1.free_space,
    decreases e.len(),
{
    if i < e.len() - 1 {
        let t = e.drop_last();
        assert(t[i] == e[i]);
        lemma_best(t, node_id, exclude, zone, i);
    }
}

/// The replica of a zone goes to a peer of that zone, not the node itself and not excluded, that
/// has at least as much free space as every other such peer, and more than those that are listed
/// behind it. Where there is such a peer, one is chosen.
pub proof fn zones_get_their_roomiest_peer(
    e: Seq<(Seq<char>, NodeInfoView)>,
    node_id: Seq<char>,
    exclude: Seq<Seq<char>>,
    zone: Seq<char>,
)
    ensures
        match best_in_zone(e, node_id, exclude, zone) {
            Some(b) => {
                &&& b.zone == zone
                &&& b.id != node_id
                &&& !exclude.contains(b.id)
                &&& exists|i: int|
                    0 <= i < e.len() && (#[trigger] e[i]).1 == b && (forall|j: int|
                        i < j < e.len() && (#[trigger] e[j]).1.zone == zone && e[j].1.id != node_id
                            && !exclude.contains(e[j].1.id) ==> b.free_space > e[j].1.free_space)
                &&& forall|i: int|
                    0 <= i < e.len() && (#[trigger] e[i]).1.zone == zone && e[i].1.id != node_id
                        && !exclude.contains(e[i].1.id) ==> b.free_space >= e[i].1.free_space
            },
            None => forall|i: int|
                0 <= i < e.len() ==> !((#[trigger] e[i]).1.zone == zone && e[i].1.id != node_id
                    && !exclude.contains(e[i].1.id)),
        },
    decreases e.len(),
{
    assert forall|i: int|
        0 <= i < e.len() && (#[trigger] e[i]).1.zone == zone && e[i].1.id != node_id
            && !exclude.contains(e[i].1.id) implies (best_in_zone(
        e,
        node_id,
        exclude,
        zone,
    ) matches Some(b) && b.free_space >= e[i].1.free_space) by {
        lemma_best(e, node_id, exclude, zone, i);
    }
    if e.len() > 0 {
        let t = e.drop_last();
        zones_get_their_roomiest_peer(t, node_id, exclude, zone);
        assert(e[e.len() - 1].1 == e.last().1);
        match best_in_zone(t, node_id, exclude, zone) {
            Some(b) => {
                let i = choose|i: int|
                    0 <= i < t.len() && (#[trigger] t[i]).1 == b && (forall|j: int|
                        i < j < t.len() && (#[trigger] t[j]).1.zone == zone && t[j].1.id != node_id
                            && !exclude.contains(t[j].1.id) ==> b.free_space > t[j].1.free_space);
                assert(e[i].1 == b);
                assert forall|j: int|
                    i < j < e.len() - 1 && (#[trigger] e[j]).1.zone == zone && e[j].1.id != node_id
                        && !exclude.contains(e[j].1.id) implies b.free_space
                    > e[j].1.free_space by {
                    assert(t[j] == e[j]);
                }
            },
            None => {},
        }
    }
}

/// Zones are served one after the other: one more zone adds its peer at the end, if it has one.
pub proof fn every_zone_is_served(
    e: Seq<(Seq<char>, NodeInfoView)>,
    node_id: Seq<char>,
    exclude: Seq<Seq<char>>,
    zones: Seq<Seq<char>>,
    zone: Seq<char>,
    i: int,
)
    requires
        0 <= i < e.len(),
        e[i].1.zone == zone,
        e[i].1.id != node_id,
        !exclude.contains(e[i].1.id),
    ensures
        ({
            let before = best_in_zones(e, node_id, exclude, zones);
            let after = best_in_zones(e, node_id, exclude, zones.push(zone));
            &&& after.len() == before.len() + 1
            &&& after.drop_last() == before
            &&& after.last().zone == zone
            &&& after.last().free_space >= e[i].1.free_space
        }),
        best_in_zones(e, node_id, exclude, Seq::empty()).len() == 0,
{
    assert(zones.push(zone).drop_last() =~= zones);
    zones_get_their_roomiest_peer(e, node_id, exclude, zone);
    let before = best_in_zones(e, node_id, exclude, zones);
    let after = best_in_zones(e, node_id, exclude, zones.push(zone));
    lemma_best(e, node_id, exclude, zone, i);
    assert(after.drop_last() =~= before);
}

} // verus!
