//! Membership of the cluster, and votes on the right to write a volume.

use vstd::prelude::*;
use vstd::string::*;

use crate::number::{decimal, u64_text};
use crate::ops::commands::{below, path_below};
use crate::ops::xattr::{conflicting, has_conflict, status_active, status_conflict};
use crate::protocol::payload::{
    clock_clone, clock_view, volume_views, volumes_clone, ConflictInfo, ConflictInfoView,
    DeleteVolumeRequest, DeleteVolumeRequestView, EpochInfo, EpochInfoView, HeartbeatPayload,
    HeartbeatPayloadView, NodeInfo, NodeInfoView, QuorumVoteRequest, QuorumVoteRequestView,
    QuorumVoteResponse, QuorumVoteResponseView, VolumeInfo, VolumeInfoView,
    VolumeUnpublishRequest, VolumeUnpublishRequestView,
};
use crate::exchange::config::ExchangeConfig;
use crate::table::{
    distinct, entry_reads_back, has_key, map_of, position, removed_entry_is_gone, values_of,
    with_entry, without_entry, Table,
};
use crate::text::{list_contains, opt_view, same, string_views};

verus! {

broadcast use vstd::string::group_string_axioms;

/// A message of a peer.
#[derive(Debug)]
pub enum GossipMessage {
    Heartbeat(HeartbeatPayload),
    NodeJoin(HeartbeatPayload),
    NodeLeave(HeartbeatPayload),
    HeartbeatAck,
    QuorumVote(QuorumVoteRequest),
    QuorumVoteResponse,
    ConflictDetected(ConflictInfo),
    DeleteVolume(DeleteVolumeRequest),
    VolumeUnpublish(VolumeUnpublishRequest),
    /// A message of another kind.
    Other,
}

/// What a message of a peer says.
pub enum GossipMessageView {
    Heartbeat(HeartbeatPayloadView),
    NodeJoin(HeartbeatPayloadView),
    NodeLeave(HeartbeatPayloadView),
    HeartbeatAck,
    QuorumVote(QuorumVoteRequestView),
    QuorumVoteResponse,
    ConflictDetected(ConflictInfoView),
    DeleteVolume(DeleteVolumeRequestView),
    VolumeUnpublish(VolumeUnpublishRequestView),
    Other,
}

impl View for GossipMessage {
    type V = GossipMessageView;

    open spec fn view(&self) -> GossipMessageView {
        match *self {
            GossipMessage::Heartbeat(h) => GossipMessageView::Heartbeat(h@),
            GossipMessage::NodeJoin(h) => GossipMessageView::NodeJoin(h@),
            GossipMessage::NodeLeave(h) => GossipMessageView::NodeLeave(h@),
            GossipMessage::HeartbeatAck => GossipMessageView::HeartbeatAck,
            GossipMessage::QuorumVote(q) => GossipMessageView::QuorumVote(q@),
            GossipMessage::QuorumVoteResponse => GossipMessageView::QuorumVoteResponse,
            GossipMessage::ConflictDetected(c) => GossipMessageView::ConflictDetected(c@),
            GossipMessage::DeleteVolume(d) => GossipMessageView::DeleteVolume(d@),
            GossipMessage::VolumeUnpublish(u) => GossipMessageView::VolumeUnpublish(u@),
            GossipMessage::Other => GossipMessageView::Other,
        }
    }
}

/// The answer to a message.
#[derive(Debug)]
pub enum GossipReply {
    /// No answer.
    Silence,
    HeartbeatAck,
    NodeList(Vec<NodeInfo>),
    Vote(QuorumVoteResponse),
    DeleteVolumeAck,
    VolumeUnpublishAck,
}

/// What an answer says.
pub enum GossipReplyView {
    Silence,
    HeartbeatAck,
    NodeList(Seq<NodeInfoView>),
    Vote(QuorumVoteResponseView),
    DeleteVolumeAck,
    VolumeUnpublishAck,
}

/// What a list of nodes says.
pub open spec fn node_views(v: Seq<NodeInfo>) -> Seq<NodeInfoView> {
    v.map_values(|x: NodeInfo| x@)
}

impl View for GossipReply {
    type V = GossipReplyView;

    open spec fn view(&self) -> GossipReplyView {
        match *self {
            GossipReply::Silence => GossipReplyView::Silence,
            GossipReply::HeartbeatAck => GossipReplyView::HeartbeatAck,
            GossipReply::NodeList(n) => GossipReplyView::NodeList(node_views(n@)),
            GossipReply::Vote(v) => GossipReplyView::Vote(v@),
            GossipReply::DeleteVolumeAck => GossipReplyView::DeleteVolumeAck,
            GossipReply::VolumeUnpublishAck => GossipReplyView::VolumeUnpublishAck,
        }
    }
}

/// What a message makes the node do, apart from what it remembers.
#[derive(Debug)]
pub struct GossipAction {
    /// The answer to send.
    pub reply: GossipReply,
    /// A node whose failure is to be reported.
    pub failed_node: Option<String>,
    /// A conflict that is to be reported.
    pub conflict: Option<ConflictInfo>,
    /// A directory to remove, before the answer is sent.
    pub remove_dir: Option<String>,
    /// A node to take off the list of those on which a volume is published, before the answer is
    /// sent. The volume stays.
    pub unpublish: Option<VolumeUnpublishRequest>,
}

/// What an action says.
pub struct GossipActionView {
    pub reply: GossipReplyView,
    pub failed_node: Option<Seq<char>>,
    pub conflict: Option<ConflictInfoView>,
    pub remove_dir: Option<Seq<char>>,
    pub unpublish: Option<VolumeUnpublishRequestView>,
}

impl View for GossipAction {
    type V = GossipActionView;

    open spec fn view(&self) -> GossipActionView {
        GossipActionView {
            reply: self.reply@,
            failed_node: opt_view(self.failed_node),
            conflict: match self.conflict {
                Some(c) => Some(c@),
                None => None,
            },
            remove_dir: opt_view(self.remove_dir),
            unpublish: match self.unpublish {
                Some(u) => Some(u@),
                None => None,
            },
        }
    }
}

/// What a node remembers of its peers and volumes.
pub struct GossipService {
    node_id: String,
    addr: String,
    zone: String,
    snapshot_dir: String,
    node_timeout: u64,
    peers: Table<NodeInfo>,
    volume_epochs: Table<EpochInfo>,
    volumes: Vec<VolumeInfo>,
}

/// What a node remembers.
#[verifier::ext_equal]
pub struct GossipView {
    pub node_id: Seq<char>,
    pub addr: Seq<char>,
    pub zone: Seq<char>,
    pub snapshot_dir: Seq<char>,
    pub node_timeout: u64,
    /// The peers by identifier, in the order in which they became known.
    pub peers: Seq<(Seq<char>, NodeInfoView)>,
    /// The volumes by identifier.
    pub epochs: Map<Seq<char>, EpochInfoView>,
    /// The volumes that the node tells its peers of.
    pub volumes: Seq<VolumeInfoView>,
}

impl View for GossipService {
    type V = GossipView;

    closed spec fn view(&self) -> GossipView {
        GossipView {
            node_id: self.node_id@,
            addr: self.addr@,
            zone: self.zone@,
            snapshot_dir: self.snapshot_dir@,
            node_timeout: self.node_timeout,
            peers: self.peers.listing(),
            epochs: self.volume_epochs@,
            volumes: volume_views(self.volumes@),
        }
    }
}

/// The peer that a heartbeat describes, seen at the time `now`.
pub open spec fn peer_of(h: HeartbeatPayloadView, now: i64) -> NodeInfoView {
    NodeInfoView {
        id: h.node_id,
        addr: h.addr,
        zone: h.zone,
        role: h.role,
        free_space: h.free_space,
        last_seen: now,
    }
}

/// The vote of a node on a request. A node that does not know the volume grants it; one that
/// does grants it unless the vector clocks conflict.
pub open spec fn vote_on(s: GossipView, q: QuorumVoteRequestView) -> QuorumVoteResponseView {
    if s.epochs.dom().contains(q.volume_id) {
        let info = s.epochs[q.volume_id];
        let conflict = conflicting(info.vector_clock, q.vector_clock);
        QuorumVoteResponseView {
            volume_id: q.volume_id,
            peer_epoch: info.epoch,
            peer_vector_clock: info.vector_clock,
            vote_granted: !conflict || info.epoch == 0,
            peer_node: s.node_id,
            conflict,
        }
    } else {
        QuorumVoteResponseView {
            volume_id: q.volume_id,
            peer_epoch: 0,
            peer_vector_clock: Seq::empty(),
            vote_granted: true,
            peer_node: s.node_id,
            conflict: false,
        }
    }
}

/// What a node remembers after a message at the time `now`.
pub open spec fn after_message(s: GossipView, m: GossipMessageView, now: i64) -> GossipView {
    match m {
        GossipMessageView::Heartbeat(h) => GossipView {
            peers: with_entry(s.peers, h.node_id, peer_of(h, now)),
            ..s
        },
        GossipMessageView::NodeJoin(h) => GossipView {
            peers: with_entry(s.peers, h.node_id, peer_of(h, now)),
            ..s
        },
        GossipMessageView::NodeLeave(h) => GossipView {
            peers: without_entry(s.peers, h.node_id),
            ..s
        },
        GossipMessageView::ConflictDetected(c) => if s.epochs.dom().contains(c.volume_id) {
            GossipView {
                epochs: s.epochs.insert(
                    c.volume_id,
                    EpochInfoView { status: status_conflict(), ..s.epochs[c.volume_id] },
                ),
                ..s
            }
        } else {
            s
        },
        GossipMessageView::DeleteVolume(d) => GossipView {
            epochs: s.epochs.remove(d.volume_id),
            ..s
        },
        _ => s,
    }
}

/// What a node does upon a message at the time `now`.
pub open spec fn action_on(s: GossipView, m: GossipMessageView, now: i64) -> GossipActionView {
    let quiet = GossipActionView {
        reply: GossipReplyView::Silence,
        failed_node: None,
        conflict: None,
        remove_dir: None,
        unpublish: None,
    };
    match m {
        GossipMessageView::Heartbeat(h) => GossipActionView {
            reply: GossipReplyView::HeartbeatAck,
            ..quiet
        },
        GossipMessageView::NodeJoin(h) => GossipActionView {
            reply: GossipReplyView::NodeList(values_of(after_message(s, m, now).peers)),
            ..quiet
        },
        GossipMessageView::NodeLeave(h) => GossipActionView {
            failed_node: Some(h.node_id),
            ..quiet
        },
        GossipMessageView::QuorumVote(q) => GossipActionView {
            reply: GossipReplyView::Vote(vote_on(s, q)),
            ..quiet
        },
        GossipMessageView::ConflictDetected(c) => GossipActionView { conflict: Some(c), ..quiet },
        GossipMessageView::DeleteVolume(d) => GossipActionView {
            reply: GossipReplyView::DeleteVolumeAck,
            remove_dir: Some(below(s.snapshot_dir, d.volume_id)),
            ..quiet
        },
        GossipMessageView::VolumeUnpublish(u) => GossipActionView {
            reply: GossipReplyView::VolumeUnpublishAck,
            unpublish: Some(u),
            ..quiet
        },
        _ => quiet,
    }
}

/// Whether a peer has been silent for longer than the timeout, in seconds.
pub open spec fn is_stale(n: NodeInfoView, now: i64, node_timeout: u64) -> bool {
    now - n.last_seen > node_timeout * 1000
}

/// The peers that are not stale.
pub open spec fn fresh_peers(
    e: Seq<(Seq<char>, NodeInfoView)>,
    now: i64,
    node_timeout: u64,
) -> Seq<(Seq<char>, NodeInfoView)>
    decreases e.len(),
{
    if e.len() == 0 {
        Seq::empty()
    } else if is_stale(e.last().1, now, node_timeout) {
        fresh_peers(e.drop_last(), now, node_timeout)
    } else {
        fresh_peers(e.drop_last(), now, node_timeout).push(e.last())
    }
}

/// The identifiers of the peers that are stale.
pub open spec fn stale_ids(
    e: Seq<(Seq<char>, NodeInfoView)>,
    now: i64,
    node_timeout: u64,
) -> Seq<Seq<char>>
    decreases e.len(),
{
    if e.len() == 0 {
        Seq::empty()
    } else if is_stale(e.last().1, now, node_timeout) {
        stale_ids(e.drop_last(), now, node_timeout).push(e.last().0)
    } else {
        stale_ids(e.drop_last(), now, node_timeout)
    }
}

/// Whether a peer may hold a replica: it is another node, and not excluded.
pub open spec fn is_target(n: NodeInfoView, node_id: Seq<char>, exclude: Seq<Seq<char>>) -> bool {
    n.id != node_id && !exclude.contains(n.id)
}

/// Where a node belongs in a list by free space: behind all that have at least as much.
pub open spec fn space_place(s: Seq<NodeInfoView>, x: NodeInfoView) -> int
    decreases s.len(),
{
    if s.len() == 0 || s.last().free_space >= x.free_space {
        s.len() as int
    } else {
        space_place(s.drop_last(), x)
    }
}

/// The peers that may hold a replica, those with the most free space first, those with equal
/// space in the order in which they became known.
pub open spec fn ranked_targets(
    e: Seq<(Seq<char>, NodeInfoView)>,
    node_id: Seq<char>,
    exclude: Seq<Seq<char>>,
) -> Seq<NodeInfoView>
    decreases e.len(),
{
    if e.len() == 0 {
        Seq::empty()
    } else {
        let before = ranked_targets(e.drop_last(), node_id, exclude);
        let x = e.last().1;
        if is_target(x, node_id, exclude) {
            before.insert(space_place(before, x), x)
        } else {
            before
        }
    }
}

/// The first `count` members of a list, or all if there are fewer.
pub open spec fn first_of<T>(s: Seq<T>, count: nat) -> Seq<T> {
    if count < s.len() {
        s.take(count as int)
    } else {
        s
    }
}

/// The peer of a zone with the most free space, the last known of those with equal space.
pub open spec fn best_in_zone(
    e: Seq<(Seq<char>, NodeInfoView)>,
    node_id: Seq<char>,
    exclude: Seq<Seq<char>>,
    zone: Seq<char>,
) -> Option<NodeInfoView>
    decreases e.len(),
{
    if e.len() == 0 {
        None
    } else {
        let before = best_in_zone(e.drop_last(), node_id, exclude, zone);
        let x = e.last().1;
        if x.zone == zone && is_target(x, node_id, exclude) {
            match before {
                Some(b) => if b.free_space > x.free_space {
                    before
                } else {
                    Some(x)
                },
                None => Some(x),
            }
        } else {
            before
        }
    }
}

/// The best peers of zones, for those zones that have one.
pub open spec fn best_in_zones(
    e: Seq<(Seq<char>, NodeInfoView)>,
    node_id: Seq<char>,
    exclude: Seq<Seq<char>>,
    zones: Seq<Seq<char>>,
) -> Seq<NodeInfoView>
    decreases zones.len(),
{
    if zones.len() == 0 {
        Seq::empty()
    } else {
        let before = best_in_zones(e, node_id, exclude, zones.drop_last());
        match best_in_zone(e, node_id, exclude, zones.last()) {
            Some(b) => before.push(b),
            None => before,
        }
    }
}

/// The peers to which notices and requests for votes go: all but the node itself, with their
/// addresses.
pub open spec fn other_peers(
    e: Seq<(Seq<char>, NodeInfoView)>,
    node_id: Seq<char>,
) -> Seq<(Seq<char>, Seq<char>)>
    decreases e.len(),
{
    if e.len() == 0 {
        Seq::empty()
    } else if e.last().0 == node_id {
        other_peers(e.drop_last(), node_id)
    } else {
        other_peers(e.drop_last(), node_id).push((e.last().0, e.last().1.addr))
    }
}

/// What a list of identifiers and addresses says.
pub open spec fn pair_views(v: Seq<(String, String)>) -> Seq<(Seq<char>, Seq<char>)> {
    v.map_values(|x: (String, String)| (x.0@, x.1@))
}

impl GossipService {
    /// Whether no volume is remembered twice.
    pub closed spec fn epochs_wf(&self) -> bool {
        self.volume_epochs.wf()
    }

    /// Whether no peer and no volume is remembered twice.
    pub open spec fn wf(&self) -> bool {
        distinct(self@.peers) && self.epochs_wf()
    }

    /// A node that knows nothing of its cluster.
    pub fn new(config: &ExchangeConfig) -> (r: GossipService)
        ensures
            r.wf(),
            r@ == (GossipView {
                node_id: config.node_id@,
                addr: config.listen_addr@ + ":"@ + decimal(config.listen_port as nat),
                zone: config.zone@,
                snapshot_dir: config.replication.snapshot_dir@,
                node_timeout: config.node_timeout,
                peers: Seq::empty(),
                epochs: Map::empty(),
                volumes: Seq::empty(),
            }),
    {
        let mut addr = config.listen_addr.clone();
        addr.append(":");
        addr.append(u64_text(config.listen_port as u64).as_str());
        let r = GossipService {
            node_id: config.node_id.clone(),
            addr,
            zone: config.zone.clone(),
            snapshot_dir: config.replication.snapshot_dir.clone(),
            node_timeout: config.node_timeout,
            peers: Table::new(),
            volume_epochs: Table::new(),
            volumes: Vec::new(),
        };
        assert(r@.volumes =~= Seq::<VolumeInfoView>::empty());
        r
    }

    /// What the node tells its peers of itself.
    pub fn create_heartbeat_payload(&self, free_space: u64) -> (r: HeartbeatPayload)
        ensures
            r@ == (HeartbeatPayloadView {
                node_id: self@.node_id,
                addr: self@.addr,
                zone: self@.zone,
                role: "replica"@,
                free_space,
                volumes: self@.volumes,
            }),
    {
        HeartbeatPayload {
            node_id: self.node_id.clone(),
            addr: self.addr.clone(),
            zone: self.zone.clone(),
            role: "replica".to_owned(),
            free_space,
            volumes: volumes_clone(&self.volumes),
        }
    }

    /// Replaces the volumes that the node tells its peers of.
    pub fn update_volumes(&mut self, volumes: Vec<VolumeInfo>)
        requires
            old(self).wf(),
        ensures
            final(self).wf(),
            final(self)@ == (GossipView { volumes: volume_views(volumes@), ..old(self)@ }),
    {
        self.volumes = volumes;
    }

    fn note_peer(&mut self, h: HeartbeatPayload, now: i64)
        requires
            old(self).wf(),
        ensures
            final(self).wf(),
            final(self)@ == (GossipView {
                peers: with_entry(old(self)@.peers, h@.node_id, peer_of(h@, now)),
                ..old(self)@
            }),
    {
        let key = h.node_id.clone();
        let node = NodeInfo {
            id: h.node_id,
            addr: h.addr,
            zone: h.zone,
            role: h.role,
            free_space: h.free_space,
            last_seen: now,
        };
        self.peers.insert(key, node);
    }

    /// The peers.
    pub fn get_peers(&self) -> (r: Vec<NodeInfo>)
        ensures
            node_views(r@) == values_of(self@.peers),
    {
        let mut r: Vec<NodeInfo> = Vec::new();
        let ghost all = values_of(self@.peers);
        let mut i: usize = 0;
        assert(node_views(r@) =~= all.take(0));
        while i < self.peers.len()
            invariant
                i <= self@.peers.len(),
                self@.peers == self.peers.listing(),
                all == values_of(self@.peers),
                node_views(r@) == all.take(i as int),
            decreases self@.peers.len() - i,
        {
            let ghost before = r@;
            let node = self.peers.value_at(i).clone();
            r.push(node);
            assert(node_views(r@) =~= node_views(before).push(node@));
            assert(all.take(i + 1) =~= all.take(i as int).push(all[i as int]));
            i += 1;
        }
        assert(all.take(i as int) =~= all);
        r
    }

    /// The identifier of the node.
    pub fn own_id(&self) -> (r: String)
        ensures
            r@ == self@.node_id,
    {
        self.node_id.clone()
    }

    /// The number of peers.
    pub fn peer_count(&self) -> (r: usize)
        ensures
            r == self@.peers.len(),
    {
        self.peers.len()
    }

    fn vote(&self, q: &QuorumVoteRequest) -> (r: QuorumVoteResponse)
        requires
            self.wf(),
        ensures
            r@ == vote_on(self@, q@),
    {
        match self.volume_epochs.get(q.volume_id.as_str()) {
            Some(info) => {
                let conflict = has_conflict(&info.vector_clock, &q.vector_clock);
                QuorumVoteResponse {
                    volume_id: q.volume_id.clone(),
                    peer_epoch: info.epoch,
                    peer_vector_clock: clock_clone(&info.vector_clock),
                    vote_granted: !conflict || info.epoch == 0,
                    peer_node: self.node_id.clone(),
                    conflict,
                }
            },
            None => {
                let none: Vec<(String, u64)> = Vec::new();
                assert(clock_view(none@) =~= Seq::<(Seq<char>, u64)>::empty());
                QuorumVoteResponse {
                    volume_id: q.volume_id.clone(),
                    peer_epoch: 0,
                    peer_vector_clock: none,
                    vote_granted: true,
                    peer_node: self.node_id.clone(),
                    conflict: false,
                }
            },
        }
    }

    /// Handles a message of a peer at the time `now`: updates what is remembered, and tells what
    /// is to be done.
    pub fn handle_gossip_message(&mut self, msg: GossipMessage, now: i64) -> (r: GossipAction)
        requires
            old(self).wf(),
        ensures
            final(self).wf(),
            final(self)@ == after_message(old(self)@, msg@, now),
            r@ == action_on(old(self)@, msg@, now),
    {
        let mut reply = GossipReply::Silence;
        let mut failed_node: Option<String> = None;
        let mut conflict: Option<ConflictInfo> = None;
        let mut remove_dir: Option<String> = None;
        let mut unpublish: Option<VolumeUnpublishRequest> = None;
        match msg {
            GossipMessage::Heartbeat(h) => {
                self.note_peer(h, now);
                reply = GossipReply::HeartbeatAck;
            },
            GossipMessage::NodeJoin(h) => {
                self.note_peer(h, now);
                reply = GossipReply::NodeList(self.get_peers());
            },
            GossipMessage::NodeLeave(h) => {
                self.peers.remove(h.node_id.as_str());
                failed_node = Some(h.node_id);
            },
            GossipMessage::HeartbeatAck => {},
            GossipMessage::QuorumVote(q) => {
                reply = GossipReply::Vote(self.vote(&q));
            },
            GossipMessage::QuorumVoteResponse => {},
            GossipMessage::ConflictDetected(c) => {
                self.set_status(c.volume_id.as_str(), "conflict");
                conflict = Some(c);
            },
            GossipMessage::DeleteVolume(d) => {
                self.volume_epochs.remove(d.volume_id.as_str());
                remove_dir = Some(
                    path_below(self.snapshot_dir.as_str(), d.volume_id.as_str()),
                );
                reply = GossipReply::DeleteVolumeAck;
            },
            GossipMessage::VolumeUnpublish(u) => {
                unpublish = Some(u);
                reply = GossipReply::VolumeUnpublishAck;
            },
            GossipMessage::Other => {},
        }
        GossipAction { reply, failed_node, conflict, remove_dir, unpublish }
    }

    fn set_status(&mut self, volume_id: &str, status: &str)
        requires
            old(self).wf(),
        ensures
            final(self).wf(),
            final(self)@ == (if old(self)@.epochs.dom().contains(volume_id@) {
                GossipView {
                    epochs: old(self)@.epochs.insert(
                        volume_id@,
                        EpochInfoView { status: status@, ..old(self)@.epochs[volume_id@] },
                    ),
                    ..old(self)@
                }
            } else {
                old(self)@
            }),
    {
        let found: Option<EpochInfo> = match self.volume_epochs.get(volume_id) {
            Some(info) => Some(info.clone()),
            None => None,
        };
        match found {
            Some(old_info) => {
                let mut info = old_info;
                info.status = status.to_owned();
                self.volume_epochs.insert(volume_id.to_owned(), info);
            },
            None => {},
        }
    }

    /// Takes in the nodes that a seed node knows.
    pub fn join_cluster(&mut self, nodes: Vec<NodeInfo>)
        requires
            old(self).wf(),
        ensures
            final(self).wf(),
            final(self)@ == (GossipView {
                peers: with_nodes(old(self)@.peers, node_views(nodes@)),
                ..old(self)@
            }),
    {
        let ghost start = self@;
        let ghost all = node_views(nodes@);
        let mut i: usize = 0;
        assert(all.take(0) =~= Seq::<NodeInfoView>::empty());
        while i < nodes.len()
            invariant
                i <= nodes@.len(),
                all == node_views(nodes@),
                self.wf(),
                self@ == (GossipView {
                    peers: with_nodes(start.peers, all.take(i as int)),
                    ..start
                }),
            decreases nodes@.len() - i,
        {
            let node = nodes[i].clone();
            proof {
                assert(all[i as int] == node@);
                assert(all.take(i + 1).drop_last() =~= all.take(i as int));
            }
            self.peers.insert(node.id.clone(), node);
            i += 1;
        }
        assert(all.take(i as int) =~= all);
    }

    /// Forgets the peers that have been silent for too long, and tells which these are.
    pub fn remove_stale_peers(&mut self, now: i64) -> (r: Vec<String>)
        requires
            old(self).wf(),
        ensures
            final(self).wf(),
            final(self)@ == (GossipView {
                peers: fresh_peers(old(self)@.peers, now, old(self)@.node_timeout),
                ..old(self)@
            }),
            string_views(r@) == stale_ids(old(self)@.peers, now, old(self)@.node_timeout),
    {
        let ghost start = self@;
        let ghost e = self.peers.listing();
        let limit: i128 = self.node_timeout as i128 * 1000;
        let mut fresh: Table<NodeInfo> = Table::new();
        let mut r: Vec<String> = Vec::new();
        let mut i: usize = 0;
        assert(e.take(0) =~= Seq::<(Seq<char>, NodeInfoView)>::empty());
        assert(string_views(r@) =~= Seq::<Seq<char>>::empty());
        while i < self.peers.len()
            invariant
                i <= e.len(),
                e == self.peers.listing(),
                self@ == start,
                distinct(e),
                limit == start.node_timeout * 1000,
                fresh.wf(),
                fresh.listing() == fresh_peers(e.take(i as int), now, start.node_timeout),
                string_views(r@) == stale_ids(e.take(i as int), now, start.node_timeout),
            decreases e.len() - i,
        {
            proof {
                assert(e.take(i + 1).drop_last() =~= e.take(i as int));
                assert(e.take(i + 1).last() == e[i as int]);
            }
            let node = self.peers.value_at(i);
            if now as i128 - node.last_seen as i128 > limit {
                let ghost before = r@;
                r.push(self.peers.key_at(i).clone());
                assert(string_views(r@) =~= string_views(before).push(e[i as int].0));
            } else {
                let key = self.peers.key_at(i).clone();
                proof {
                    lemma_fresh_keys(e.take(i as int), now, start.node_timeout, key@);
                    if has_key(fresh.listing(), key@) {
                        assert(has_key(e.take(i as int), key@));
                        let j = position(e.take(i as int), key@);
                        assert(e.take(i as int)[j].0 == key@);
                        assert(e[j].0 != e[i as int].0);
                    }
                }
                fresh.insert(key, node.clone());
            }
            i += 1;
        }
        assert(e.take(i as int) =~= e);
        self.peers = fresh;
        r
    }

    /// The peers that are to hold replicas: up to `count` of those with the most free space.
    pub fn select_replica_targets(&self, exclude_nodes: &Vec<String>, count: usize) -> (r: Vec<
        NodeInfo,
    >)
        ensures
            node_views(r@) == first_of(
                ranked_targets(self@.peers, self@.node_id, string_views(exclude_nodes@)),
                count as nat,
            ),
    {
        let ghost e = self@.peers;
        let ghost exclude = string_views(exclude_nodes@);
        let mut r: Vec<NodeInfo> = Vec::new();
        let mut i: usize = 0;
        assert(e.take(0) =~= Seq::<(Seq<char>, NodeInfoView)>::empty());
        assert(node_views(r@) =~= Seq::<NodeInfoView>::empty());
        while i < self.peers.len()
            invariant
                i <= e.len(),
                e == self.peers.listing(),
                exclude == string_views(exclude_nodes@),
                node_views(r@) == ranked_targets(e.take(i as int), self@.node_id, exclude),
            decreases e.len() - i,
        {
            proof {
                assert(e.take(i + 1).drop_last() =~= e.take(i as int));
                assert(e.take(i + 1).last() == e[i as int]);
            }
            let node = self.peers.value_at(i);
            if !same(node.id.as_str(), self.node_id.as_str()) && !list_contains(
                exclude_nodes,
                node.id.as_str(),
            ) {
                let k = space_place_of(&r, node);
                let copy = node.clone();
                let ghost before = r@;
                r.insert(k, copy);
                assert(node_views(r@) =~= node_views(before).insert(k as int, copy@));
            }
            i += 1;
        }
        assert(e.take(i as int) =~= e);
        if count < r.len() {
            let ghost before = r@;
            r.truncate(count);
            assert(node_views(r@) =~= node_views(before).take(count as int));
        }
        r
    }

    /// The best peer of each zone.
    pub fn select_targets_by_zone(&self, zones: &Vec<String>, exclude_nodes: &Vec<String>) -> (r:
        Vec<NodeInfo>)
        ensures
            node_views(r@) == best_in_zones(
                self@.peers,
                self@.node_id,
                string_views(exclude_nodes@),
                string_views(zones@),
            ),
    {
        let ghost z = string_views(zones@);
        let ghost exclude = string_views(exclude_nodes@);
        let mut r: Vec<NodeInfo> = Vec::new();
        let mut i: usize = 0;
        assert(z.take(0) =~= Seq::<Seq<char>>::empty());
        assert(node_views(r@) =~= Seq::<NodeInfoView>::empty());
        while i < zones.len()
            invariant
                i <= zones@.len(),
                z == string_views(zones@),
                exclude == string_views(exclude_nodes@),
                node_views(r@) == best_in_zones(
                    self@.peers,
                    self@.node_id,
                    exclude,
                    z.take(i as int),
                ),
            decreases zones@.len() - i,
        {
            proof {
                assert(z[i as int] == zones@[i as int]@);
                assert(z.take(i + 1).drop_last() =~= z.take(i as int));
            }
            match self.best_of_zone(zones[i].as_str(), exclude_nodes) {
                Some(best) => {
                    let ghost before = r@;
                    r.push(best);
                    assert(node_views(r@) =~= node_views(before).push(best@));
                },
                None => {},
            }
            i += 1;
        }
        assert(z.take(i as int) =~= z);
        r
    }

    fn best_of_zone(&self, zone: &str, exclude_nodes: &Vec<String>) -> (r: Option<NodeInfo>)
        ensures
            match r {
                Some(n) => best_in_zone(
                    self@.peers,
                    self@.node_id,
                    string_views(exclude_nodes@),
                    zone@,
                ) == Some(n@),
                None => best_in_zone(
                    self@.peers,
                    self@.node_id,
                    string_views(exclude_nodes@),
                    zone@,
                ) is None,
            },
    {
        let ghost e = self@.peers;
        let ghost exclude = string_views(exclude_nodes@);
        let mut best: Option<usize> = None;
        let mut i: usize = 0;
        assert(e.take(0) =~= Seq::<(Seq<char>, NodeInfoView)>::empty());
        while i < self.peers.len()
            invariant
                i <= e.len(),
                e == self.peers.listing(),
                exclude == string_views(exclude_nodes@),
                match best {
                    Some(b) => b < i && best_in_zone(
                        e.take(i as int),
                        self@.node_id,
                        exclude,
                        zone@,
                    ) == Some(e[b as int].1),
                    None => best_in_zone(e.take(i as int), self@.node_id, exclude, zone@) is None,
                },
            decreases e.len() - i,
        {
            proof {
                assert(e.take(i + 1).drop_last() =~= e.take(i as int));
                assert(e.take(i + 1).last() == e[i as int]);
            }
            let node = self.peers.value_at(i);
            if same(node.zone.as_str(), zone) && !same(node.id.as_str(), self.node_id.as_str())
                && !list_contains(exclude_nodes, node.id.as_str()) {
                let better = match best {
                    Some(b) => !(self.peers.value_at(b).free_space > node.free_space),
                    None => true,
                };
                if better {
                    best = Some(i);
                }
            }
            i += 1;
        }
        assert(e.take(i as int) =~= e);
        match best {
            Some(b) => Some(self.peers.value_at(b).clone()),
            None => None,
        }
    }

    /// The peers to which notices and requests for votes go, with their addresses.
    pub fn addressees(&self) -> (r: Vec<(String, String)>)
        ensures
            pair_views(r@) == other_peers(self@.peers, self@.node_id),
    {
        let ghost e = self@.peers;
        let mut r: Vec<(String, String)> = Vec::new();
        let mut i: usize = 0;
        assert(e.take(0) =~= Seq::<(Seq<char>, NodeInfoView)>::empty());
        assert(pair_views(r@) =~= Seq::<(Seq<char>, Seq<char>)>::empty());
        while i < self.peers.len()
            invariant
                i <= e.len(),
                e == self.peers.listing(),
                pair_views(r@) == other_peers(e.take(i as int), self@.node_id),
            decreases e.len() - i,
        {
            proof {
                assert(e.take(i + 1).drop_last() =~= e.take(i as int));
                assert(e.take(i + 1).last() == e[i as int]);
            }
            if !same(self.peers.key_at(i).as_str(), self.node_id.as_str()) {
                let ghost before = r@;
                let x = (self.peers.key_at(i).clone(), self.peers.value_at(i).addr.clone());
                r.push(x);
                assert(pair_views(r@) =~= pair_views(before).push((x.0@, x.1@)));
            }
            i += 1;
        }
        assert(e.take(i as int) =~= e);
        r
    }

    /// Remembers what is known of the writes to a volume.
    pub fn register_volume_epoch(
        &mut self,
        volume_id: &str,
        epoch: u64,
        vector_clock: Vec<(String, u64)>,
        status: &str,
    )
        requires
            old(self).wf(),
        ensures
            final(self).wf(),
            final(self)@ == (GossipView {
                epochs: old(self)@.epochs.insert(
                    volume_id@,
                    EpochInfoView {
                        volume_id: volume_id@,
                        epoch,
                        vector_clock: clock_view(vector_clock@),
                        status: status@,
                        last_synced_from: None,
                    },
                ),
                ..old(self)@
            }),
            final(self)@ == epoch_known(
                old(self)@,
                volume_id@,
                epoch,
                clock_view(vector_clock@),
                status@,
            ),
    {
        let info = EpochInfo {
            volume_id: volume_id.to_owned(),
            epoch,
            vector_clock,
            status: status.to_owned(),
            last_synced_from: None,
        };
        self.volume_epochs.insert(volume_id.to_owned(), info);
    }

    /// Remembers that a volume was synchronised from a node, if the volume is known.
    pub fn update_volume_epoch(&mut self, volume_id: &str, epoch: u64, last_synced_from: &str)
        requires
            old(self).wf(),
        ensures
            final(self).wf(),
            final(self)@ == (if old(self)@.epochs.dom().contains(volume_id@) {
                GossipView {
                    epochs: old(self)@.epochs.insert(
                        volume_id@,
                        EpochInfoView {
                            epoch,
                            last_synced_from: Some(last_synced_from@),
                            status: status_active(),
                            ..old(self)@.epochs[volume_id@]
                        },
                    ),
                    ..old(self)@
                }
            } else {
                old(self)@
            }),
            final(self)@ == epoch_synced(old(self)@, volume_id@, epoch, last_synced_from@),
    {
        let found: Option<EpochInfo> = match self.volume_epochs.get(volume_id) {
            Some(info) => Some(info.clone()),
            None => None,
        };
        match found {
            Some(old_info) => {
                let mut info = old_info;
                info.epoch = epoch;
                info.last_synced_from = Some(last_synced_from.to_owned());
                info.status = "active".to_owned();
                self.volume_epochs.insert(volume_id.to_owned(), info);
            },
            None => {},
        }
    }

    /// What is known of the writes to a volume.
    pub fn get_volume_epoch_info(&self, volume_id: &str) -> (r: Option<EpochInfo>)
        requires
            self.wf(),
        ensures
            r is Some == self@.epochs.dom().contains(volume_id@),
            r matches Some(info) ==> info@ == self@.epochs[volume_id@],
    {
        match self.volume_epochs.get(volume_id) {
            Some(info) => Some(info.clone()),
            None => None,
        }
    }
}

/// What is remembered once the writes to a volume are known.
pub open spec fn epoch_known(
    s: GossipView,
    volume_id: Seq<char>,
    epoch: u64,
    vector_clock: Seq<(Seq<char>, u64)>,
    status: Seq<char>,
) -> GossipView {
    GossipView {
        epochs: s.epochs.insert(
            volume_id,
            EpochInfoView { volume_id, epoch, vector_clock, status, last_synced_from: None },
        ),
        ..s
    }
}

/// What is remembered once a volume was synchronised from a node.
pub open spec fn epoch_synced(
    s: GossipView,
    volume_id: Seq<char>,
    epoch: u64,
    from: Seq<char>,
) -> GossipView {
    if s.epochs.dom().contains(volume_id) {
        GossipView {
            epochs: s.epochs.insert(
                volume_id,
                EpochInfoView {
                    epoch,
                    last_synced_from: Some(from),
                    status: status_active(),
                    ..s.epochs[volume_id]
                },
            ),
            ..s
        }
    } else {
        s
    }
}

/// The peers after nodes were taken in, each in place of what was known of it before.
pub open spec fn with_nodes(
    e: Seq<(Seq<char>, NodeInfoView)>,
    nodes: Seq<NodeInfoView>,
) -> Seq<(Seq<char>, NodeInfoView)>
    decreases nodes.len(),
{
    if nodes.len() == 0 {
        e
    } else {
        with_entry(with_nodes(e, nodes.drop_last()), nodes.last().id, nodes.last())
    }
}

fn space_place_of(s: &Vec<NodeInfo>, x: &NodeInfo) -> (r: usize)
    ensures
        r <= s@.len(),
        r == space_place(node_views(s@), x@),
{
    let ghost all = node_views(s@);
    let mut i: usize = s.len();
    assert(all.take(i as int) =~= all);
    while i > 0
        invariant
            i <= s@.len(),
            all == node_views(s@),
            space_place(all.take(i as int), x@) == space_place(all, x@),
        decreases i,
    {
        assert(all[i - 1] == s@[i - 1]@);
        assert(all.take(i as int).drop_last() =~= all.take(i - 1));
        if s[i - 1].free_space >= x.free_space {
            return i;
        }
        i -= 1;
    }
    0
}

proof fn lemma_fresh_keys(
    e: Seq<(Seq<char>, NodeInfoView)>,
    now: i64,
    node_timeout: u64,
    k: Seq<char>,
)
    ensures
        has_key(fresh_peers(e, now, node_timeout), k) ==> has_key(e, k),
    decreases e.len(),
{
    if e.len() > 0 {
        lemma_fresh_keys(e.drop_last(), now, node_timeout, k);
        let f = fresh_peers(e, now, node_timeout);
        if has_key(f, k) {
            let j = position(f, k);
            assert(f[j].0 == k);
            let g = fresh_peers(e.drop_last(), now, node_timeout);
            if j < g.len() {
                assert(g[j].0 == k);
                let i = position(e.drop_last(), k);
                assert(e.drop_last()[i].0 == k);
                assert(e[i].0 == k);
            } else {
                assert(e[e.len() - 1].0 == k);
            }
        }
    }
}

/// A node that has been heard of is known from then on, as it described itself, whether it sends
/// a heartbeat or joins.
pub proof fn heartbeat_makes_known(s: GossipView, h: HeartbeatPayloadView, now: i64)
    requires
        distinct(s.peers),
    ensures
        map_of(after_message(s, GossipMessageView::Heartbeat(h), now).peers).dom().contains(
            h.node_id,
        ),
        map_of(after_message(s, GossipMessageView::Heartbeat(h), now).peers)[h.node_id] == peer_of(
            h,
            now,
        ),
        after_message(s, GossipMessageView::NodeJoin(h), now) == after_message(
            s,
            GossipMessageView::Heartbeat(h),
            now,
        ),
{
    entry_reads_back(s.peers, h.node_id, peer_of(h, now));
}

/// A node that leaves is not known any more, and its failure is reported.
pub proof fn leaving_node_is_forgotten(s: GossipView, h: HeartbeatPayloadView, now: i64)
    requires
        distinct(s.peers),
    ensures
        !has_key(after_message(s, GossipMessageView::NodeLeave(h), now).peers, h.node_id),
        action_on(s, GossipMessageView::NodeLeave(h), now).failed_node == Some(h.node_id),
{
    removed_entry_is_gone(s.peers, h.node_id);
}

/// After the cleanup no peer is stale, and every peer is known as before.
pub proof fn cleanup_leaves_fresh_peers(
    e: Seq<(Seq<char>, NodeInfoView)>,
    now: i64,
    node_timeout: u64,
)
    ensures
        forall|i: int|
            0 <= i < fresh_peers(e, now, node_timeout).len() ==> !is_stale(
                (#[trigger] fresh_peers(e, now, node_timeout)[i]).1,
                now,
                node_timeout,
            ) && e.contains(fresh_peers(e, now, node_timeout)[i]),
        fresh_peers(e, now, node_timeout).len() + stale_ids(e, now, node_timeout).len() == e.len(),
    decreases e.len(),
{
    if e.len() > 0 {
        let t = e.drop_last();
        cleanup_leaves_fresh_peers(t, now, node_timeout);
        let f = fresh_peers(e, now, node_timeout);
        let g = fresh_peers(t, now, node_timeout);
        assert forall|i: int| 0 <= i < f.len() implies !is_stale(
            (#[trigger] f[i]).1,
            now,
            node_timeout,
        ) && e.contains(f[i]) by {
            if i < g.len() {
                assert(f[i] == g[i]);
                let j = choose|j: int| 0 <= j < t.len() && t[j] == g[i];
                assert(e[j] == f[i]);
            } else {
                assert(e[e.len() - 1] == f[i]);
            }
        }
    }
}

proof fn lemma_space_place(s: Seq<NodeInfoView>, x: NodeInfoView)
    ensures
        0 <= space_place(s, x) <= s.len(),
        space_place(s, x) > 0 ==> s[space_place(s, x) - 1].free_space >= x.free_space,
        forall|i: int|
            space_place(s, x) <= i < s.len() ==> (#[trigger] s[i]).free_space < x.free_space,
    decreases s.len(),
{
    if s.len() > 0 && s.last().free_space < x.free_space {
        lemma_space_place(s.drop_last(), x);
        assert forall|i: int| space_place(s, x) <= i < s.len() implies (
        #[trigger] s[i]).free_space < x.free_space by {
            if i < s.len() - 1 {
                assert(s.drop_last()[i] == s[i]);
            }
        }
    }
}

/// Replicas go to other nodes that are not excluded, and to those with the most free space: the
/// candidates stand in descending order of free space, each is a peer, and no peer that may hold a
/// replica is left out.
pub proof fn targets_are_ranked(
    e: Seq<(Seq<char>, NodeInfoView)>,
    node_id: Seq<char>,
    exclude: Seq<Seq<char>>,
)
    ensures
        forall|i: int|
            0 <= i < ranked_targets(e, node_id, exclude).len() ==> is_target(
                #[trigger] ranked_targets(e, node_id, exclude)[i],
                node_id,
                exclude,
            ) && values_of(e).contains(ranked_targets(e, node_id, exclude)[i]),
        forall|i: int, j: int|
            0 <= i < j < ranked_targets(e, node_id, exclude).len() ==> (#[trigger] ranked_targets(
                e,
                node_id,
                exclude,
            )[i]).free_space >= (#[trigger] ranked_targets(e, node_id, exclude)[j]).free_space,
        forall|i: int|
            0 <= i < e.len() && is_target((#[trigger] e[i]).1, node_id, exclude)
                ==> ranked_targets(e, node_id, exclude).contains(e[i].1),
    decreases e.len(),
{
    if e.len() > 0 {
        let d = e.drop_last();
        let x = e.last().1;
        targets_are_ranked(d, node_id, exclude);
        let t = ranked_targets(d, node_id, exclude);
        let f = ranked_targets(e, node_id, exclude);
        let k = space_place(t, x);
        lemma_space_place(t, x);
        assert(values_of(e) =~= values_of(d).push(x));
        let added = is_target(x, node_id, exclude);
        assert forall|i: int| 0 <= i < f.len() implies is_target(
            #[trigger] f[i],
            node_id,
            exclude,
        ) && values_of(e).contains(f[i]) by {
            if added && i == k {
                assert(values_of(e)[e.len() - 1] == f[i]);
            } else {
                let j = if !added || i < k {
                    i
                } else {
                    i - 1
                };
                assert(f[i] == t[j]);
                let m = choose|m: int|
                    0 <= m < values_of(d).len() && values_of(d)[m] == t[j];
                assert(values_of(e)[m] == f[i]);
            }
        }
        assert forall|i: int, j: int| 0 <= i < j < f.len() implies (
        #[trigger] f[i]).free_space >= (#[trigger] f[j]).free_space by {
            if added {
                if i < k {
                    assert(f[i] == t[i]);
                } else if i > k {
                    assert(f[i] == t[i - 1]);
                }
                if j < k {
                    assert(f[j] == t[j]);
                } else if j > k {
                    assert(f[j] == t[j - 1]);
                }
                if j == k && i < k - 1 {
                    assert(t[i].free_space >= t[k - 1].free_space);
                }
            }
        }
        assert forall|i: int|
            0 <= i < e.len() && is_target((#[trigger] e[i]).1, node_id, exclude) implies f.contains(
            e[i].1,
        ) by {
            if i < d.len() {
                assert(d[i] == e[i]);
                let m = choose|m: int| 0 <= m < t.len() && t[m] == e[i].1;
                if !added || m < k {
                    assert(f[m] == e[i].1);
                } else {
                    assert(f[m + 1] == e[i].1);
                }
            } else {
                assert(f[k] == x);
            }
        }
    }
}

} // verus!
