//! The contents of the messages between nodes.

use vstd::prelude::*;

use crate::text::{list_clone, opt_clone, opt_view, string_views};

verus! {

/// A request to create a volume.
#[derive(Debug)]
pub struct CreateVolumeRequest {
    pub name: String,
    pub size: u64,
    pub replica_count: u32,
    pub replica_zones: Vec<String>,
    /// In seconds.
    pub replication_interval: u64,
    /// "general" or "database".
    pub volume_type: String,
    /// "sqlite", "postgresql" and the like.
    pub database_type: Option<String>,
}

/// What `CreateVolumeRequest` says.
#[verifier::ext_equal]
pub struct CreateVolumeRequestView {
    pub name: Seq<char>,
    pub size: u64,
    pub replica_count: u32,
    pub replica_zones: Seq<Seq<char>>,
    pub replication_interval: u64,
    pub volume_type: Seq<char>,
    pub database_type: Option<Seq<char>>,
}

impl View for CreateVolumeRequest {
    type V = CreateVolumeRequestView;

    open spec fn view(&self) -> CreateVolumeRequestView {
        CreateVolumeRequestView {
            name: self.name@,
            size: self.size,
            replica_count: self.replica_count,
            replica_zones: string_views(self.replica_zones@),
            replication_interval: self.replication_interval,
            volume_type: self.volume_type@,
            database_type: opt_view(self.database_type),
        }
    }
}

impl Clone for CreateVolumeRequest {
    fn clone(&self) -> (r: CreateVolumeRequest)
        ensures
            r@ == self@,
    {
        CreateVolumeRequest {
            name: self.name.clone(),
            size: self.size,
            replica_count: self.replica_count,
            replica_zones: list_clone(&self.replica_zones),
            replication_interval: self.replication_interval,
            volume_type: self.volume_type.clone(),
            database_type: opt_clone(&self.database_type),
        }
    }
}

/// The answer to a request to create a volume.
#[derive(Debug)]
pub struct CreateVolumeResponse {
    pub volume_id: String,
    pub node_id: String,
    pub path: String,
}

/// What `CreateVolumeResponse` says.
#[verifier::ext_equal]
pub struct CreateVolumeResponseView {
    pub volume_id: Seq<char>,
    pub node_id: Seq<char>,
    pub path: Seq<char>,
}

impl View for CreateVolumeResponse {
    type V = CreateVolumeResponseView;

    open spec fn view(&self) -> CreateVolumeResponseView {
        CreateVolumeResponseView {
            volume_id: self.volume_id@,
            node_id: self.node_id@,
            path: self.path@,
        }
    }
}

impl Clone for CreateVolumeResponse {
    fn clone(&self) -> (r: CreateVolumeResponse)
        ensures
            r@ == self@,
    {
        CreateVolumeResponse {
            volume_id: self.volume_id.clone(),
            node_id: self.node_id.clone(),
            path: self.path.clone(),
        }
    }
}

/// A request to delete a volume.
#[derive(Debug)]
pub struct DeleteVolumeRequest {
    pub volume_id: String,
}

/// What `DeleteVolumeRequest` says.
#[verifier::ext_equal]
pub struct DeleteVolumeRequestView {
    pub volume_id: Seq<char>,
}

impl View for DeleteVolumeRequest {
    type V = DeleteVolumeRequestView;

    open spec fn view(&self) -> DeleteVolumeRequestView {
        DeleteVolumeRequestView {
            volume_id: self.volume_id@,
        }
    }
}

impl Clone for DeleteVolumeRequest {
    fn clone(&self) -> (r: DeleteVolumeRequest)
        ensures
            r@ == self@,
    {
        DeleteVolumeRequest {
            volume_id: self.volume_id.clone(),
        }
    }
}

/// A volume as its node describes it.
#[derive(Debug)]
pub struct VolumeInfo {
    pub id: String,
    pub name: String,
    pub size: u64,
    pub node_id: String,
    pub zone: String,
    pub status: String,
    pub created_at: i64,
}

/// What `VolumeInfo` says.
#[verifier::ext_equal]
pub struct VolumeInfoView {
    pub id: Seq<char>,
    pub name: Seq<char>,
    pub size: u64,
    pub node_id: Seq<char>,
    pub zone: Seq<char>,
    pub status: Seq<char>,
    pub created_at: i64,
}

impl View for VolumeInfo {
    type V = VolumeInfoView;

    open spec fn view(&self) -> VolumeInfoView {
        VolumeInfoView {
            id: self.id@,
            name: self.name@,
            size: self.size,
            node_id: self.node_id@,
            zone: self.zone@,
            status: self.status@,
            created_at: self.created_at,
        }
    }
}

impl Clone for VolumeInfo {
    fn clone(&self) -> (r: VolumeInfo)
        ensures
            r@ == self@,
    {
        VolumeInfo {
            id: self.id.clone(),
            name: self.name.clone(),
            size: self.size,
            node_id: self.node_id.clone(),
            zone: self.zone.clone(),
            status: self.status.clone(),
            created_at: self.created_at,
        }
    }
}

/// What a list of volumes says.
pub open spec fn volume_views(v: Seq<VolumeInfo>) -> Seq<VolumeInfoView> {
    v.map_values(|x: VolumeInfo| x@)
}

/// Copies a list of volumes.
pub fn volumes_clone(v: &Vec<VolumeInfo>) -> (r: Vec<VolumeInfo>)
    ensures
        volume_views(r@) == volume_views(v@),
{
    let mut r: Vec<VolumeInfo> = Vec::new();
    let mut i: usize = 0;
    while i < v.len()
        invariant
            i <= v.len(),
            volume_views(r@) == volume_views(v@).take(i as int),
        decreases v.len() - i,
    {
        let ghost before = r@;
        r.push(v[i].clone());
        proof {
            assert(volume_views(r@) =~= volume_views(before).push(v@[i as int]@));
            assert(volume_views(v@).take(i + 1) =~= volume_views(v@).take(i as int).push(
                v@[i as int]@,
            ));
        }
        i += 1;
    }
    assert(volume_views(v@).take(i as int) =~= volume_views(v@));
    r
}

/// A node of the cluster.
#[derive(Debug)]
pub struct NodeInfo {
    pub id: String,
    pub addr: String,
    pub zone: String,
    /// "primary" or "replica".
    pub role: String,
    pub free_space: u64,
    pub last_seen: i64,
}

/// What `NodeInfo` says.
#[verifier::ext_equal]
pub struct NodeInfoView {
    pub id: Seq<char>,
    pub addr: Seq<char>,
    pub zone: Seq<char>,
    pub role: Seq<char>,
    pub free_space: u64,
    pub last_seen: i64,
}

impl View for NodeInfo {
    type V = NodeInfoView;

    open spec fn view(&self) -> NodeInfoView {
        NodeInfoView {
            id: self.id@,
            addr: self.addr@,
            zone: self.zone@,
            role: self.role@,
            free_space: self.free_space,
            last_seen: self.last_seen,
        }
    }
}

impl Clone for NodeInfo {
    fn clone(&self) -> (r: NodeInfo)
        ensures
            r@ == self@,
    {
        NodeInfo {
            id: self.id.clone(),
            addr: self.addr.clone(),
            zone: self.zone.clone(),
            role: self.role.clone(),
            free_space: self.free_space,
            last_seen: self.last_seen,
        }
    }
}

/// What a node tells its peers of itself from time to time.
#[derive(Debug)]
pub struct HeartbeatPayload {
    pub node_id: String,
    pub addr: String,
    pub zone: String,
    pub role: String,
    pub free_space: u64,
    pub volumes: Vec<VolumeInfo>,
}

/// What `HeartbeatPayload` says.
#[verifier::ext_equal]
pub struct HeartbeatPayloadView {
    pub node_id: Seq<char>,
    pub addr: Seq<char>,
    pub zone: Seq<char>,
    pub role: Seq<char>,
    pub free_space: u64,
    pub volumes: Seq<VolumeInfoView>,
}

impl View for HeartbeatPayload {
    type V = HeartbeatPayloadView;

    open spec fn view(&self) -> HeartbeatPayloadView {
        HeartbeatPayloadView {
            node_id: self.node_id@,
            addr: self.addr@,
            zone: self.zone@,
            role: self.role@,
            free_space: self.free_space,
            volumes: volume_views(self.volumes@),
        }
    }
}

impl Clone for HeartbeatPayload {
    fn clone(&self) -> (r: HeartbeatPayload)
        ensures
            r@ == self@,
    {
        HeartbeatPayload {
            node_id: self.node_id.clone(),
            addr: self.addr.clone(),
            zone: self.zone.clone(),
            role: self.role.clone(),
            free_space: self.free_space,
            volumes: volumes_clone(&self.volumes),
        }
    }
}

/// The announcement of a stream of a snapshot.
#[derive(Debug)]
pub struct SendStartRequest {
    pub volume_id: String,
    pub snapshot_name: String,
    pub is_incremental: bool,
    pub parent_snapshot: Option<String>,
}

/// What `SendStartRequest` says.
#[verifier::ext_equal]
pub struct SendStartRequestView {
    pub volume_id: Seq<char>,
    pub snapshot_name: Seq<char>,
    pub is_incremental: bool,
    pub parent_snapshot: Option<Seq<char>>,
}

impl View for SendStartRequest {
    type V = SendStartRequestView;

    open spec fn view(&self) -> SendStartRequestView {
        SendStartRequestView {
            volume_id: self.volume_id@,
            snapshot_name: self.snapshot_name@,
            is_incremental: self.is_incremental,
            parent_snapshot: opt_view(self.parent_snapshot),
        }
    }
}

impl Clone for SendStartRequest {
    fn clone(&self) -> (r: SendStartRequest)
        ensures
            r@ == self@,
    {
        SendStartRequest {
            volume_id: self.volume_id.clone(),
            snapshot_name: self.snapshot_name.clone(),
            is_incremental: self.is_incremental,
            parent_snapshot: opt_clone(&self.parent_snapshot),
        }
    }
}

/// The end of a stream of a snapshot.
#[derive(Debug)]
pub struct SendCompleteResponse {
    pub volume_id: String,
    pub success: bool,
    pub error: Option<String>,
    pub checksum: Option<String>,
}

/// What `SendCompleteResponse` says.
#[verifier::ext_equal]
pub struct SendCompleteResponseView {
    pub volume_id: Seq<char>,
    pub success: bool,
    pub error: Option<Seq<char>>,
    pub checksum: Option<Seq<char>>,
}

impl View for SendCompleteResponse {
    type V = SendCompleteResponseView;

    open spec fn view(&self) -> SendCompleteResponseView {
        SendCompleteResponseView {
            volume_id: self.volume_id@,
            success: self.success,
            error: opt_view(self.error),
            checksum: opt_view(self.checksum),
        }
    }
}

impl Clone for SendCompleteResponse {
    fn clone(&self) -> (r: SendCompleteResponse)
        ensures
            r@ == self@,
    {
        SendCompleteResponse {
            volume_id: self.volume_id.clone(),
            success: self.success,
            error: opt_clone(&self.error),
            checksum: opt_clone(&self.checksum),
        }
    }
}

/// What a vector clock says: how often each node has written.
pub open spec fn clock_view(c: Seq<(String, u64)>) -> Seq<(Seq<char>, u64)> {
    c.map_values(|x: (String, u64)| (x.0@, x.1))
}

/// Copies a vector clock.
pub fn clock_clone(c: &Vec<(String, u64)>) -> (r: Vec<(String, u64)>)
    ensures
        r@ == c@,
{
    let mut r: Vec<(String, u64)> = Vec::new();
    let mut i: usize = 0;
    while i < c.len()
        invariant
            i <= c.len(),
            r@ == c@.take(i as int),
        decreases c.len() - i,
    {
        r.push((c[i].0.clone(), c[i].1));
        i += 1;
    }
    r
}

/// What a node knows of the writes to a volume.
#[derive(Debug)]
pub struct EpochInfo {
    pub volume_id: String,
    pub epoch: u64,
    pub vector_clock: Vec<(String, u64)>,
    pub status: String,
    pub last_synced_from: Option<String>,
}

/// What `EpochInfo` says.
#[verifier::ext_equal]
pub struct EpochInfoView {
    pub volume_id: Seq<char>,
    pub epoch: u64,
    pub vector_clock: Seq<(Seq<char>, u64)>,
    pub status: Seq<char>,
    pub last_synced_from: Option<Seq<char>>,
}

impl View for EpochInfo {
    type V = EpochInfoView;

    open spec fn view(&self) -> EpochInfoView {
        EpochInfoView {
            volume_id: self.volume_id@,
            epoch: self.epoch,
            vector_clock: clock_view(self.vector_clock@),
            status: self.status@,
            last_synced_from: opt_view(self.last_synced_from),
        }
    }
}

impl Clone for EpochInfo {
    fn clone(&self) -> (r: EpochInfo)
        ensures
            r@ == self@,
    {
        EpochInfo {
            volume_id: self.volume_id.clone(),
            epoch: self.epoch,
            vector_clock: clock_clone(&self.vector_clock),
            status: self.status.clone(),
            last_synced_from: opt_clone(&self.last_synced_from),
        }
    }
}

/// A request for a vote on the right to write a volume.
#[derive(Debug)]
pub struct QuorumVoteRequest {
    pub volume_id: String,
    pub epoch: u64,
    pub vector_clock: Vec<(String, u64)>,
    pub requester_node: String,
}

/// What `QuorumVoteRequest` says.
#[verifier::ext_equal]
pub struct QuorumVoteRequestView {
    pub volume_id: Seq<char>,
    pub epoch: u64,
    pub vector_clock: Seq<(Seq<char>, u64)>,
    pub requester_node: Seq<char>,
}

impl View for QuorumVoteRequest {
    type V = QuorumVoteRequestView;

    open spec fn view(&self) -> QuorumVoteRequestView {
        QuorumVoteRequestView {
            volume_id: self.volume_id@,
            epoch: self.epoch,
            vector_clock: clock_view(self.vector_clock@),
            requester_node: self.requester_node@,
        }
    }
}

impl Clone for QuorumVoteRequest {
    fn clone(&self) -> (r: QuorumVoteRequest)
        ensures
            r@ == self@,
    {
        QuorumVoteRequest {
            volume_id: self.volume_id.clone(),
            epoch: self.epoch,
            vector_clock: clock_clone(&self.vector_clock),
            requester_node: self.requester_node.clone(),
        }
    }
}

/// A vote on the right to write a volume.
#[derive(Debug)]
pub struct QuorumVoteResponse {
    pub volume_id: String,
    pub peer_epoch: u64,
    pub peer_vector_clock: Vec<(String, u64)>,
    pub vote_granted: bool,
    pub peer_node: String,
    pub conflict: bool,
}

/// What `QuorumVoteResponse` says.
#[verifier::ext_equal]
pub struct QuorumVoteResponseView {
    pub volume_id: Seq<char>,
    pub peer_epoch: u64,
    pub peer_vector_clock: Seq<(Seq<char>, u64)>,
    pub vote_granted: bool,
    pub peer_node: Seq<char>,
    pub conflict: bool,
}

impl View for QuorumVoteResponse {
    type V = QuorumVoteResponseView;

    open spec fn view(&self) -> QuorumVoteResponseView {
        QuorumVoteResponseView {
            volume_id: self.volume_id@,
            peer_epoch: self.peer_epoch,
            peer_vector_clock: clock_view(self.peer_vector_clock@),
            vote_granted: self.vote_granted,
            peer_node: self.peer_node@,
            conflict: self.conflict,
        }
    }
}

impl Clone for QuorumVoteResponse {
    fn clone(&self) -> (r: QuorumVoteResponse)
        ensures
            r@ == self@,
    {
        QuorumVoteResponse {
            volume_id: self.volume_id.clone(),
            peer_epoch: self.peer_epoch,
            peer_vector_clock: clock_clone(&self.peer_vector_clock),
            vote_granted: self.vote_granted,
            peer_node: self.peer_node.clone(),
            conflict: self.conflict,
        }
    }
}

/// Two nodes that have written a volume independently of each other.
#[derive(Debug)]
pub struct ConflictInfo {
    pub volume_id: String,
    pub node_a: String,
    pub node_b: String,
    pub epoch_a: u64,
    pub epoch_b: u64,
    pub vector_clock_a: Vec<(String, u64)>,
    pub vector_clock_b: Vec<(String, u64)>,
}

/// What `ConflictInfo` says.
#[verifier::ext_equal]
pub struct ConflictInfoView {
    pub volume_id: Seq<char>,
    pub node_a: Seq<char>,
    pub node_b: Seq<char>,
    pub epoch_a: u64,
    pub epoch_b: u64,
    pub vector_clock_a: Seq<(Seq<char>, u64)>,
    pub vector_clock_b: Seq<(Seq<char>, u64)>,
}

impl View for ConflictInfo {
    type V = ConflictInfoView;

    open spec fn view(&self) -> ConflictInfoView {
        ConflictInfoView {
            volume_id: self.volume_id@,
            node_a: self.node_a@,
            node_b: self.node_b@,
            epoch_a: self.epoch_a,
            epoch_b: self.epoch_b,
            vector_clock_a: clock_view(self.vector_clock_a@),
            vector_clock_b: clock_view(self.vector_clock_b@),
        }
    }
}

impl Clone for ConflictInfo {
    fn clone(&self) -> (r: ConflictInfo)
        ensures
            r@ == self@,
    {
        ConflictInfo {
            volume_id: self.volume_id.clone(),
            node_a: self.node_a.clone(),
            node_b: self.node_b.clone(),
            epoch_a: self.epoch_a,
            epoch_b: self.epoch_b,
            vector_clock_a: clock_clone(&self.vector_clock_a),
            vector_clock_b: clock_clone(&self.vector_clock_b),
        }
    }
}

/// The notice that a volume is no longer published on a node.
#[derive(Debug)]
pub struct VolumeUnpublishRequest {
    pub volume_id: String,
    pub node_id: String,
}

/// What `VolumeUnpublishRequest` says.
#[verifier::ext_equal]
pub struct VolumeUnpublishRequestView {
    pub volume_id: Seq<char>,
    pub node_id: Seq<char>,
}

impl View for VolumeUnpublishRequest {
    type V = VolumeUnpublishRequestView;

    open spec fn view(&self) -> VolumeUnpublishRequestView {
        VolumeUnpublishRequestView {
            volume_id: self.volume_id@,
            node_id: self.node_id@,
        }
    }
}

impl Clone for VolumeUnpublishRequest {
    fn clone(&self) -> (r: VolumeUnpublishRequest)
        ensures
            r@ == self@,
    {
        VolumeUnpublishRequest {
            volume_id: self.volume_id.clone(),
            node_id: self.node_id.clone(),
        }
    }
}

} // verus!
