//! The server that answers requests over the cluster's own transport.

use vstd::prelude::*;
use vstd::string::*;

use crate::exchange::replicator::{Replicator, ReplicatorView};
use crate::exchange::volume_manager::{
    created_volume_is_found, deleted_volume_is_gone, new_volume, registered, unregistered,
    with_new_volume, without_volume, VolumeManager, VolumeManagerView,
};
use crate::ops::commands::{below, btrfs_call, CommandLine, CommandView};
use crate::ops::io_priority::{strip_prefixes, without_prefix};
use crate::protocol::message::MessageType;
use crate::protocol::payload::{
    volume_views, CreateVolumeResponse, CreateVolumeResponseView, VolumeInfo, VolumeInfoView,
};
use crate::table::{distinct, has_key, map_of, values_of};
use crate::text::{contains, has, stands_at, starts_with};

verus! {

broadcast use vstd::string::group_string_axioms;

/// The address that an endpoint stands for. A Unix socket stands for the default port, and an
/// endpoint without a colon is a port.
pub open spec fn endpoint_address(endpoint: Seq<char>) -> Seq<char> {
    if stands_at(endpoint, "unix://"@, 0) {
        "0.0.0.0:9201"@
    } else if has(endpoint, ":"@) {
        endpoint
    } else {
        "0.0.0.0:"@ + endpoint
    }
}

/// The server of an endpoint.
#[derive(Debug)]
pub struct CsiServer {
    endpoint: String,
}

impl View for CsiServer {
    type V = Seq<char>;

    /// The endpoint.
    closed spec fn view(&self) -> Seq<char> {
        self.endpoint@
    }
}

impl CsiServer {
    /// The server of an endpoint.
    pub fn new(endpoint: String) -> (r: CsiServer)
        ensures
            r@ == endpoint@,
    {
        CsiServer { endpoint }
    }

    /// The address to listen on.
    pub fn listen_address(&self) -> (r: String)
        ensures
            r@ == endpoint_address(self@),
    {
        let endpoint = self.endpoint.as_str();
        if starts_with(endpoint, "unix://") {
            "0.0.0.0:9201".to_owned()
        } else if contains(endpoint, ":") {
            endpoint.to_owned()
        } else {
            let mut r = "0.0.0.0:".to_owned();
            r.append(endpoint);
            r
        }
    }
}

/// The path of the socket that an endpoint stands for, if it stands for a Unix socket.
pub fn socket_path(endpoint: &str) -> (r: Option<String>)
    ensures
        r is Some == stands_at(endpoint@, "unix://"@, 0),
        r matches Some(p) ==> p@ == without_prefix(endpoint@, "unix://"@),
{
    if starts_with(endpoint, "unix://") {
        Some(strip_prefixes(endpoint, "unix://").to_owned())
    } else {
        None
    }
}

/// A request over the cluster's own transport.
#[derive(Debug)]
pub enum CsiRequest {
    CreateVolume { name: String, size: u64, replica_count: u32 },
    DeleteVolume { volume_id: String },
    GetVolumeInfo { volume_id: String },
    VolumeList,
    /// A message of any other kind.
    Other,
}

/// What a request says.
pub enum CsiRequestView {
    CreateVolume { name: Seq<char>, size: u64, replica_count: u32 },
    DeleteVolume { volume_id: Seq<char> },
    GetVolumeInfo { volume_id: Seq<char> },
    VolumeList,
    Other,
}

impl View for CsiRequest {
    type V = CsiRequestView;

    open spec fn view(&self) -> CsiRequestView {
        match *self {
            CsiRequest::CreateVolume { name, size, replica_count } => {
                CsiRequestView::CreateVolume { name: name@, size, replica_count }
            },
            CsiRequest::DeleteVolume { volume_id } => CsiRequestView::DeleteVolume {
                volume_id: volume_id@,
            },
            CsiRequest::GetVolumeInfo { volume_id } => CsiRequestView::GetVolumeInfo {
                volume_id: volume_id@,
            },
            CsiRequest::VolumeList => CsiRequestView::VolumeList,
            CsiRequest::Other => CsiRequestView::Other,
        }
    }
}

/// An answer to a request.
#[derive(Debug)]
pub enum CsiResponse {
    /// The volume has been created.
    Created(CreateVolumeResponse),
    /// The volume has been deleted.
    Deleted,
    /// The volume that was asked for.
    Info(VolumeInfo),
    /// Why there is nothing to tell of a volume.
    NoInfo(String),
    /// All volumes.
    Volumes(Vec<VolumeInfo>),
}

/// What an answer says.
pub enum CsiResponseView {
    Created(CreateVolumeResponseView),
    Deleted,
    Info(VolumeInfoView),
    NoInfo(Seq<char>),
    Volumes(Seq<VolumeInfoView>),
}

impl View for CsiResponse {
    type V = CsiResponseView;

    open spec fn view(&self) -> CsiResponseView {
        match *self {
            CsiResponse::Created(c) => CsiResponseView::Created(c@),
            CsiResponse::Deleted => CsiResponseView::Deleted,
            CsiResponse::Info(v) => CsiResponseView::Info(v@),
            CsiResponse::NoInfo(e) => CsiResponseView::NoInfo(e@),
            CsiResponse::Volumes(v) => CsiResponseView::Volumes(volume_views(v@)),
        }
    }
}

/// The kind of message that carries an answer.
pub open spec fn response_kind(r: CsiResponseView) -> MessageType {
    match r {
        CsiResponseView::Created(_) => MessageType::CreateVolumeAck,
        CsiResponseView::Deleted => MessageType::DeleteVolumeAck,
        CsiResponseView::Info(_) => MessageType::GetVolumeInfoAck,
        CsiResponseView::NoInfo(_) => MessageType::GetVolumeInfoAck,
        CsiResponseView::Volumes(_) => MessageType::VolumeListAck,
    }
}

impl CsiResponse {
    /// The kind of message that carries the answer.
    pub fn kind(&self) -> (r: MessageType)
        ensures
            r == response_kind(self@),
    {
        match self {
            CsiResponse::Created(_) => MessageType::CreateVolumeAck,
            CsiResponse::Deleted => MessageType::DeleteVolumeAck,
            CsiResponse::Info(_) => MessageType::GetVolumeInfoAck,
            CsiResponse::NoInfo(_) => MessageType::GetVolumeInfoAck,
            CsiResponse::Volumes(_) => MessageType::VolumeListAck,
        }
    }
}

/// What follows a request.
#[derive(Debug)]
pub enum ServerStep {
    /// Run the command, then complete the request.
    Run(CommandLine),
    /// Answer the request.
    Answer(CsiResponse),
    /// The request is not answered.
    Ignore,
}

/// What follows a request.
pub enum ServerStepView {
    Run(CommandView),
    Answer(CsiResponseView),
    Ignore,
}

impl View for ServerStep {
    type V = ServerStepView;

    open spec fn view(&self) -> ServerStepView {
        match *self {
            ServerStep::Run(c) => ServerStepView::Run(c@),
            ServerStep::Answer(a) => ServerStepView::Answer(a@),
            ServerStep::Ignore => ServerStepView::Ignore,
        }
    }
}

/// What follows a request, with the volumes of the node. A volume is created and deleted by a
/// command; what is asked of volumes is answered from what is known of them.
pub open spec fn server_step(q: CsiRequestView, m: VolumeManagerView) -> ServerStepView {
    match q {
        CsiRequestView::CreateVolume { name, .. } => ServerStepView::Run(
            btrfs_call("subvolume"@, seq!["create"@, below(m.data_dir, name)]),
        ),
        CsiRequestView::DeleteVolume { volume_id } => ServerStepView::Run(
            btrfs_call("subvolume"@, seq!["delete"@, below(m.data_dir, volume_id)]),
        ),
        CsiRequestView::GetVolumeInfo { volume_id } => ServerStepView::Answer(
            if has_key(m.volumes, volume_id) {
                CsiResponseView::Info(map_of(m.volumes)[volume_id])
            } else {
                CsiResponseView::NoInfo("Volume not found"@)
            },
        ),
        CsiRequestView::VolumeList => ServerStepView::Answer(
            CsiResponseView::Volumes(values_of(m.volumes)),
        ),
        CsiRequestView::Other => ServerStepView::Ignore,
    }
}

/// Acts on a request. A volume that is to be deleted is taken off replication at once.
pub fn handle_message(
    request: &CsiRequest,
    volumes: &VolumeManager,
    replicator: &mut Replicator,
) -> (r: ServerStep)
    requires
        volumes.wf(),
        old(replicator).wf(),
    ensures
        final(replicator).wf(),
        r@ == server_step(request@, volumes@),
        final(replicator)@ == (match request@ {
            CsiRequestView::DeleteVolume { volume_id } => unregistered(
                old(replicator)@,
                volume_id,
            ),
            _ => old(replicator)@,
        }),
{
    match request {
        CsiRequest::CreateVolume { name, .. } => ServerStep::Run(
            volumes.create_command(name.as_str()),
        ),
        CsiRequest::DeleteVolume { volume_id } => ServerStep::Run(
            volumes.begin_delete(replicator, volume_id.as_str()),
        ),
        CsiRequest::GetVolumeInfo { volume_id } => match volumes.get_volume(volume_id.as_str()) {
            Some(v) => ServerStep::Answer(CsiResponse::Info(v)),
            None => ServerStep::Answer(CsiResponse::NoInfo("Volume not found".to_owned())),
        },
        CsiRequest::VolumeList => ServerStep::Answer(CsiResponse::Volumes(volumes.list_volumes())),
        CsiRequest::Other => ServerStep::Ignore,
    }
}

/// Whether a request is one that a command serves.
pub open spec fn needs_command(q: CsiRequestView) -> bool {
    q is CreateVolume || q is DeleteVolume
}

/// What a request whose command has been run is answered, or why it fails.
pub open spec fn completed_answer(
    q: CsiRequestView,
    done: bool,
    m: VolumeManagerView,
) -> Result<CsiResponseView, Seq<char>> {
    match q {
        CsiRequestView::CreateVolume { name, .. } => if done {
            Ok(
                CsiResponseView::Created(
                    CreateVolumeResponseView {
                        volume_id: name,
                        node_id: m.node_id,
                        path: below(m.data_dir, name),
                    },
                ),
            )
        } else {
            Err("Failed to create subvolume"@)
        },
        _ => if done {
            Ok(CsiResponseView::Deleted)
        } else {
            Err("Failed to delete subvolume"@)
        },
    }
}

/// The volumes once the command of a request has been run.
pub open spec fn completed_volumes(
    q: CsiRequestView,
    done: bool,
    m: VolumeManagerView,
    now: i64,
) -> VolumeManagerView {
    match q {
        CsiRequestView::CreateVolume { name, size, .. } if done => with_new_volume(
            m,
            name,
            size,
            now,
        ),
        CsiRequestView::DeleteVolume { volume_id } if done => without_volume(m, volume_id),
        _ => m,
    }
}

/// What the replicator knows once the command of a request has been run.
pub open spec fn completed_replicator(
    q: CsiRequestView,
    done: bool,
    r: ReplicatorView,
) -> ReplicatorView {
    match q {
        CsiRequestView::CreateVolume { name, replica_count, .. } if done => registered(
            r,
            name,
            replica_count,
        ),
        _ => r,
    }
}

/// Completes a request whose command has been run at the time `now`: takes in the volume that was
/// created, or forgets the one that was deleted.
pub fn complete_message(
    request: &CsiRequest,
    done: bool,
    volumes: &mut VolumeManager,
    replicator: &mut Replicator,
    now: i64,
) -> (r: Result<CsiResponse, String>)
    requires
        old(volumes).wf(),
        old(replicator).wf(),
        needs_command(request@),
    ensures
        final(volumes).wf(),
        final(replicator).wf(),
        final(volumes)@ == completed_volumes(request@, done, old(volumes)@, now),
        final(replicator)@ == completed_replicator(request@, done, old(replicator)@),
        match r {
            Ok(a) => completed_answer(request@, done, old(volumes)@) == Ok::<_, Seq<char>>(a@),
            Err(e) => completed_answer(request@, done, old(volumes)@) == Err::<
                CsiResponseView,
                _,
            >(e@),
        },
{
    match request {
        CsiRequest::CreateVolume { name, size, replica_count } => if done {
            let vol = volumes.create_volume(
                replicator,
                name.as_str(),
                *size,
                *replica_count,
                now,
            );
            let path = volumes.path(vol.name.as_str());
            Ok(
                CsiResponse::Created(
                    CreateVolumeResponse { volume_id: vol.id, node_id: vol.node_id, path },
                ),
            )
        } else {
            Err("Failed to create subvolume".to_owned())
        },
        CsiRequest::DeleteVolume { volume_id } => if done {
            volumes.delete_volume(volume_id.as_str());
            Ok(CsiResponse::Deleted)
        } else {
            Err("Failed to delete subvolume".to_owned())
        },
        _ => Err("Failed to delete subvolume".to_owned()),
    }
}

/// The kind of the answer to requests of a kind; nothing where they are not answered.
pub open spec fn answer_kind(q: CsiRequestView) -> Option<MessageType> {
    match q {
        CsiRequestView::CreateVolume { .. } => Some(MessageType::CreateVolumeAck),
        CsiRequestView::DeleteVolume { .. } => Some(MessageType::DeleteVolumeAck),
        CsiRequestView::GetVolumeInfo { .. } => Some(MessageType::GetVolumeInfoAck),
        CsiRequestView::VolumeList => Some(MessageType::VolumeListAck),
        CsiRequestView::Other => None,
    }
}

/// A request is answered by a message of the kind that belongs to it, whether it is answered at
/// once or after its command.
pub proof fn answers_belong_to_requests(q: CsiRequestView, done: bool, m: VolumeManagerView)
    ensures
        server_step(q, m) matches ServerStepView::Answer(a) ==> answer_kind(q) == Some(
            response_kind(a),
        ),
        needs_command(q) ==> (completed_answer(q, done, m) matches Ok(a) ==> answer_kind(q)
            == Some(response_kind(a))),
        server_step(q, m) is Run == needs_command(q),
        server_step(q, m) is Ignore == (answer_kind(q) is None),
{
}

/// A volume that was created over the transport can be asked for, and one that was deleted can
/// not.
pub proof fn created_volume_can_be_asked_for(
    m: VolumeManagerView,
    name: Seq<char>,
    size: u64,
    replica_count: u32,
    now: i64,
)
    requires
        distinct(m.volumes),
    ensures
        ({
            let q = CsiRequestView::CreateVolume { name, size, replica_count };
            let after = completed_volumes(q, true, m, now);
            server_step(CsiRequestView::GetVolumeInfo { volume_id: name }, after)
                == ServerStepView::Answer(CsiResponseView::Info(new_volume(m, name, size, now)))
        }),
        ({
            let q = CsiRequestView::DeleteVolume { volume_id: name };
            let after = completed_volumes(q, true, m, now);
            server_step(CsiRequestView::GetVolumeInfo { volume_id: name }, after)
                == ServerStepView::Answer(CsiResponseView::NoInfo("Volume not found"@))
        }),
{
    created_volume_is_found(m, name, size, now);
    deleted_volume_is_gone(m, name);
}

} // verus!
