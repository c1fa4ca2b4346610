//! Creation and deletion of volumes.

use vstd::prelude::*;
use vstd::string::*;

use crate::csi::controller::{
    no_profile, profile_for, ControllerView, CsiController, Volume, VolumeView,
};
use crate::csi::error::{text3, CsiError, CsiErrorView};
use crate::csi::names::{name_objection, validate_volume_name};
use crate::csi::published::{get_published_nodes, listed_nodes};
use crate::exchange::config::VolumeProfileView;
use crate::exchange::gossip::{GossipService, GossipView};
use crate::identifier::is_uuid_v4;
use crate::number::{decimal, i64_text, signed_decimal, u64_text};
use crate::ops::commands::{below, btrfs_call, CommandLine, CommandView};
use crate::ops::xattr::status_active;
use crate::protocol::big_endian::{as_signed, as_unsigned, from_twos, twos};
use crate::protocol::payload::{clock_clone, clock_view, EpochInfoView};
use crate::table::Table;
use crate::text::{join_strings, joined, opt_view, same, string_views};

verus! {

broadcast use vstd::string::group_string_axioms;

/// The capacity of a volume for which none is asked: one gibibyte.
pub const DEFAULT_CAPACITY: u64 = 1_073_741_824;

/// A request to create a volume.
#[derive(Debug)]
pub struct CreateVolumeParams {
    pub name: String,
    /// The bytes that are asked for.
    pub required_bytes: Option<i64>,
    /// The profile that is asked for, by the parameter `profile`.
    pub profile: Option<String>,
}

/// What a request to create a volume says.
pub struct CreateVolumeParamsView {
    pub name: Seq<char>,
    pub required_bytes: Option<i64>,
    pub profile: Option<Seq<char>>,
}

impl View for CreateVolumeParams {
    type V = CreateVolumeParamsView;

    open spec fn view(&self) -> CreateVolumeParamsView {
        CreateVolumeParamsView {
            name: self.name@,
            required_bytes: self.required_bytes,
            profile: opt_view(self.profile),
        }
    }
}

/// The profile that the parameters of a request ask for.
pub open spec fn profile_parameter(parameters: Map<Seq<char>, Seq<char>>) -> Option<Seq<char>> {
    if parameters.dom().contains("profile"@) {
        Some(parameters["profile"@])
    } else {
        None
    }
}

impl CreateVolumeParams {
    /// A request to create a volume, with the parameters that come with it.
    pub fn new(name: &str, required_bytes: Option<i64>, parameters: &Table<String>) -> (r:
        CreateVolumeParams)
        requires
            parameters.wf(),
        ensures
            r@ == (CreateVolumeParamsView {
                name: name@,
                required_bytes,
                profile: profile_parameter(parameters@),
            }),
    {
        let profile: Option<String> = match parameters.get("profile") {
            Some(p) => Some(p.clone()),
            None => None,
        };
        CreateVolumeParams { name: name.to_owned(), required_bytes, profile }
    }
}

/// The capacity of the volume that a request asks for.
pub open spec fn requested_capacity(required_bytes: Option<i64>) -> nat {
    match required_bytes {
        Some(b) => twos(b as int),
        None => DEFAULT_CAPACITY as nat,
    }
}

/// The profile that a request asks for.
pub open spec fn requested_profile(profile: Option<Seq<char>>) -> Seq<char> {
    match profile {
        Some(p) => p,
        None => "default"@,
    }
}

/// How far the creation of a volume has come.
#[derive(Debug)]
pub enum CreateState {
    /// It is being asked whether the subvolume exists.
    Probing,
    /// The subvolume exists, and its identifier is being read.
    Existing,
    /// The subvolume is being created.
    Creating,
    /// The subvolume could not be created, for the reason given; perhaps because another
    /// controller has just created it.
    Raced(String),
    /// The subvolume is there and needs to be configured.
    Configuring,
    /// The request has been answered.
    Finished,
}

/// How far the creation of a volume has come.
pub enum CreateStateView {
    Probing,
    Existing,
    Creating,
    Raced(Seq<char>),
    Configuring,
    Finished,
}

impl View for CreateState {
    type V = CreateStateView;

    open spec fn view(&self) -> CreateStateView {
        match *self {
            CreateState::Probing => CreateStateView::Probing,
            CreateState::Existing => CreateStateView::Existing,
            CreateState::Creating => CreateStateView::Creating,
            CreateState::Raced(e) => CreateStateView::Raced(e@),
            CreateState::Configuring => CreateStateView::Configuring,
            CreateState::Finished => CreateStateView::Finished,
        }
    }
}

/// What an action has come to.
#[derive(Debug)]
pub enum CreateEvent {
    /// Whether the subvolume exists.
    Shown(bool),
    /// The identifier that the subvolume has, if it has one.
    VolumeId(Option<String>),
    /// Whether the command that creates the subvolume succeeded, and what it complained of.
    Created(bool, String),
    /// The command that creates the subvolume could not be run, for the reason given.
    NotRun(String),
}

/// What an action has come to.
pub enum CreateEventView {
    Shown(bool),
    VolumeId(Option<Seq<char>>),
    Created(bool, Seq<char>),
    NotRun(Seq<char>),
}

impl View for CreateEvent {
    type V = CreateEventView;

    open spec fn view(&self) -> CreateEventView {
        match *self {
            CreateEvent::Shown(b) => CreateEventView::Shown(b),
            CreateEvent::VolumeId(v) => CreateEventView::VolumeId(opt_view(v)),
            CreateEvent::Created(b, e) => CreateEventView::Created(b, e@),
            CreateEvent::NotRun(e) => CreateEventView::NotRun(e@),
        }
    }
}

/// What is to be done next.
#[derive(Debug)]
pub enum CreateAction {
    /// Run the command that creates the subvolume.
    Run(CommandLine),
    /// Read the identifier of the subvolume.
    ReadVolumeId,
    /// Configure the subvolume.
    Configure,
    /// Answer with the volume.
    Reply(Volume),
    /// Refuse the request.
    Refuse(CsiError),
}

/// What is to be done next.
pub enum CreateActionView {
    Run(CommandView),
    ReadVolumeId,
    Configure,
    Reply(VolumeView),
    Refuse(CsiErrorView),
}

impl View for CreateAction {
    type V = CreateActionView;

    open spec fn view(&self) -> CreateActionView {
        match *self {
            CreateAction::Run(c) => CreateActionView::Run(c@),
            CreateAction::ReadVolumeId => CreateActionView::ReadVolumeId,
            CreateAction::Configure => CreateActionView::Configure,
            CreateAction::Reply(v) => CreateActionView::Reply(v@),
            CreateAction::Refuse(e) => CreateActionView::Refuse(e@),
        }
    }
}

/// The creation of a volume.
#[derive(Debug)]
pub struct CreateVolume {
    name: String,
    path: String,
    capacity: u64,
    profile: String,
    state: CreateState,
}

/// What is known of the creation of a volume.
pub struct CreateVolumeView {
    pub name: Seq<char>,
    pub path: Seq<char>,
    pub capacity: nat,
    pub profile: Seq<char>,
    pub state: CreateStateView,
}

impl View for CreateVolume {
    type V = CreateVolumeView;

    closed spec fn view(&self) -> CreateVolumeView {
        CreateVolumeView {
            name: self.name@,
            path: self.path@,
            capacity: self.capacity as nat,
            profile: self.profile@,
            state: self.state@,
        }
    }
}

/// Whether an event is one that the state waits for.
pub open spec fn is_awaited(s: CreateStateView, e: CreateEventView) -> bool {
    match s {
        CreateStateView::Probing => e is Shown,
        CreateStateView::Existing => e is VolumeId,
        CreateStateView::Creating => e is Created || e is NotRun,
        CreateStateView::Raced(_) => e is VolumeId,
        CreateStateView::Configuring => false,
        CreateStateView::Finished => false,
    }
}

/// The state after an event. A subvolume that exists with an identifier is the volume that was
/// asked for; one without is configured like a new one. Where the subvolume cannot be created,
/// another controller may have created it.
pub open spec fn create_next(s: CreateStateView, e: CreateEventView) -> CreateStateView {
    match (s, e) {
        (CreateStateView::Probing, CreateEventView::Shown(exists)) => if exists {
            CreateStateView::Existing
        } else {
            CreateStateView::Creating
        },
        (CreateStateView::Existing, CreateEventView::VolumeId(None)) => CreateStateView::Configuring,
        (CreateStateView::Creating, CreateEventView::Created(true, _)) => CreateStateView::Configuring,
        (CreateStateView::Creating, CreateEventView::Created(false, why)) => CreateStateView::Raced(
            why,
        ),
        _ => CreateStateView::Finished,
    }
}

/// What is to be done upon an event.
pub open spec fn create_action(v: CreateVolumeView, e: CreateEventView) -> CreateActionView {
    match (v.state, e) {
        (CreateStateView::Probing, CreateEventView::Shown(exists)) => if exists {
            CreateActionView::ReadVolumeId
        } else {
            CreateActionView::Run(btrfs_call("subvolume"@, seq!["create"@, v.path]))
        },
        (CreateStateView::Existing, CreateEventView::VolumeId(Some(id))) => CreateActionView::Reply(
            VolumeView { volume_id: id, capacity_bytes: from_twos(v.capacity) },
        ),
        (CreateStateView::Existing, CreateEventView::VolumeId(None)) => CreateActionView::Configure,
        (CreateStateView::Creating, CreateEventView::Created(true, _)) => CreateActionView::Configure,
        (CreateStateView::Creating, CreateEventView::Created(false, _)) => CreateActionView::ReadVolumeId,
        (CreateStateView::Creating, CreateEventView::NotRun(why)) => CreateActionView::Refuse(
            CsiErrorView::Internal("Failed to execute btrfs: "@ + why),
        ),
        (CreateStateView::Raced(_), CreateEventView::VolumeId(Some(id))) => CreateActionView::Reply(
            VolumeView { volume_id: id, capacity_bytes: from_twos(v.capacity) },
        ),
        (CreateStateView::Raced(why), CreateEventView::VolumeId(None)) => CreateActionView::Refuse(
            CsiErrorView::Internal("Failed to create subvolume: "@ + why),
        ),
        _ => CreateActionView::ReadVolumeId,
    }
}

impl CreateVolume {
    /// The name of the volume.
    pub fn name(&self) -> (r: &str)
        ensures
            r@ == self@.name,
    {
        self.name.as_str()
    }

    /// The path of the subvolume.
    pub fn path(&self) -> (r: &str)
        ensures
            r@ == self@.path,
    {
        self.path.as_str()
    }

    fn existing(&self, id: String) -> (r: CreateAction)
        ensures
            r@ == CreateActionView::Reply(
                VolumeView { volume_id: id@, capacity_bytes: from_twos(self@.capacity) },
            ),
    {
        CreateAction::Reply(Volume { volume_id: id, capacity_bytes: as_signed(self.capacity) })
    }

    /// Takes in what an action has come to, and tells what is to be done next.
    pub fn step(&mut self, event: CreateEvent) -> (r: CreateAction)
        requires
            is_awaited(old(self)@.state, event@),
        ensures
            final(self)@ == (CreateVolumeView {
                state: create_next(old(self)@.state, event@),
                ..old(self)@
            }),
            r@ == create_action(old(self)@, event@),
    {
        let (state, action) = match (&self.state, event) {
            (CreateState::Probing, CreateEvent::Shown(exists)) => if exists {
                (CreateState::Existing, CreateAction::ReadVolumeId)
            } else {
                let c = CommandLine::new("btrfs").arg("subvolume").arg("create").arg(
                    self.path.as_str(),
                );
                assert(c@ =~= btrfs_call("subvolume"@, seq!["create"@, self@.path]));
                (CreateState::Creating, CreateAction::Run(c))
            },
            (CreateState::Existing, CreateEvent::VolumeId(Some(id))) => {
                (CreateState::Finished, self.existing(id))
            },
            (CreateState::Existing, CreateEvent::VolumeId(None)) => {
                (CreateState::Configuring, CreateAction::Configure)
            },
            (CreateState::Creating, CreateEvent::Created(success, why)) => if success {
                (CreateState::Configuring, CreateAction::Configure)
            } else {
                (CreateState::Raced(why), CreateAction::ReadVolumeId)
            },
            (CreateState::Creating, CreateEvent::NotRun(why)) => {
                let e = text3("Failed to execute btrfs: ", why.as_str(), "");
                proof {
                    reveal_strlit("");
                    assert(e@ =~= "Failed to execute btrfs: "@ + why@);
                }
                (CreateState::Finished, CreateAction::Refuse(CsiError::Internal(e)))
            },
            (CreateState::Raced(_), CreateEvent::VolumeId(Some(id))) => {
                (CreateState::Finished, self.existing(id))
            },
            (CreateState::Raced(why), CreateEvent::VolumeId(None)) => {
                let e = text3("Failed to create subvolume: ", why.as_str(), "");
                proof {
                    reveal_strlit("");
                    assert(e@ =~= "Failed to create subvolume: "@ + why@);
                }
                (CreateState::Finished, CreateAction::Refuse(CsiError::Internal(e)))
            },
            _ => (CreateState::Finished, CreateAction::ReadVolumeId),
        };
        self.state = state;
        action
    }
}

/// The commands that configure a subvolume, in their order: no copy-on-write and compression as
/// the profile says, and quotas for the filesystem.
pub open spec fn setup_commands(
    p: VolumeProfileView,
    path: Seq<char>,
    data_dir: Seq<char>,
) -> Seq<CommandView> {
    let nocow = if p.nocow {
        seq![CommandView { program: "chattr"@, args: seq!["+C"@, path] }]
    } else {
        Seq::empty()
    };
    let compression = if p.compression != "none"@ {
        seq![
            btrfs_call("property"@, seq!["set"@, "-ts"@, path, "compression="@ + p.compression]),
        ]
    } else {
        Seq::empty()
    };
    nocow + compression + seq![btrfs_call("quota"@, seq!["enable"@, "--simple"@, data_dir])]
}

/// What commands say.
pub open spec fn command_views(v: Seq<CommandLine>) -> Seq<CommandView> {
    v.map_values(|c: CommandLine| c@)
}

/// What a new volume is given.
#[derive(Debug)]
pub struct NewVolume {
    /// The volume, to answer with.
    pub volume: Volume,
    /// The attributes to set, in their order.
    pub attributes: Vec<(String, String)>,
    /// The vector clock to store.
    pub vector_clock: Vec<(String, u64)>,
}

/// The attributes of a new volume.
pub open spec fn new_attributes(
    c: ControllerView,
    v: CreateVolumeView,
    volume_id: Seq<char>,
    now: i64,
) -> Seq<(Seq<char>, Seq<char>)> {
    seq![
        ("volume_id"@, volume_id),
        ("size"@, decimal(v.capacity)),
        ("zone"@, c.zone),
        ("profile"@, v.profile),
        ("created_at"@, signed_decimal(now as int)),
        ("epoch"@, decimal(1)),
        ("status"@, status_active()),
    ]
}

/// What attributes say.
pub open spec fn attribute_views(v: Seq<(String, String)>) -> Seq<(Seq<char>, Seq<char>)> {
    v.map_values(|x: (String, String)| (x.0@, x.1@))
}

/// What is remembered of the writes to a new volume: one, by the node itself.
pub open spec fn first_epoch(c: ControllerView, volume_id: Seq<char>) -> EpochInfoView {
    EpochInfoView {
        volume_id,
        epoch: 1,
        vector_clock: seq![(c.node_id, 1u64)],
        status: status_active(),
        last_synced_from: None,
    }
}

/// What is decided on the deletion of a volume whose subvolume has the given name, by the stored
/// list of the nodes on which it is published: the command that deletes it, or why it stays.
pub open spec fn deletion(
    c: ControllerView,
    volume_id: Seq<char>,
    name: Option<Seq<char>>,
    published: Option<Seq<char>>,
) -> Result<Option<CommandView>, CsiErrorView> {
    let nodes = listed_nodes(published);
    match name {
        None => Ok(None),
        Some(n) => if nodes.len() == 0 {
            Ok(Some(btrfs_call("subvolume"@, seq!["delete"@, below(c.data_dir, n)])))
        } else {
            Err(
                CsiErrorView::FailedPrecondition(
                    "Volume "@ + volume_id + " is still published on nodes: "@ + joined(
                        nodes,
                        ", "@,
                    ),
                ),
            )
        },
    }
}

/// What a decision on a deletion says.
pub open spec fn deletion_view(r: Result<Option<CommandLine>, CsiError>) -> Result<
    Option<CommandView>,
    CsiErrorView,
> {
    match r {
        Ok(Some(c)) => Ok(Some(c@)),
        Ok(None) => Ok(None),
        Err(e) => Err(e@),
    }
}

impl CsiController {
    /// Begins to create a volume: gives the command that tells whether its subvolume exists.
    pub fn create_volume(&self, request: &CreateVolumeParams) -> (r: Result<
        (CreateVolume, CommandLine),
        CsiError,
    >)
        ensures
            match r {
                Ok((v, c)) => {
                    &&& name_objection(request@.name) is None
                    &&& v@ == (CreateVolumeView {
                        name: request@.name,
                        path: below(self@.data_dir, request@.name),
                        capacity: requested_capacity(request@.required_bytes),
                        profile: requested_profile(request@.profile),
                        state: CreateStateView::Probing,
                    })
                    &&& c@ == btrfs_call("subvolume"@, seq!["show"@, v@.path])
                },
                Err(e) => name_objection(request@.name) == Some(e@),
            },
    {
        match validate_volume_name(request.name.as_str()) {
            Err(e) => Err(e),
            Ok(()) => {
                let capacity: u64 = match request.required_bytes {
                    Some(b) => as_unsigned(b),
                    None => DEFAULT_CAPACITY,
                };
                let profile = match &request.profile {
                    Some(p) => p.clone(),
                    None => "default".to_owned(),
                };
                let v = CreateVolume {
                    name: request.name.clone(),
                    path: self.subvol_path(request.name.as_str()),
                    capacity,
                    profile,
                    state: CreateState::Probing,
                };
                Ok((v, self.show_command(request.name.as_str())))
            },
        }
    }

    /// The commands that configure the subvolume of a volume. Also tells whether the profile
    /// falls short of what a database needs.
    pub fn configure_volume(&self, v: &CreateVolume) -> (r: Result<
        (Vec<CommandLine>, bool),
        CsiError,
    >)
        requires
            self.wf(),
        ensures
            match r {
                Ok((commands, warn)) => {
                    &&& profile_for(self@, v@.profile) matches Some(p)
                    &&& command_views(commands@) == setup_commands(p, v@.path, self@.data_dir)
                    &&& warn == (v@.profile == "database"@ && !p.sync_writes)
                },
                Err(e) => profile_for(self@, v@.profile) is None && e@ == no_profile(v@.profile),
            },
    {
        match self.get_profile(v.profile.as_str()) {
            Err(e) => Err(e),
            Ok(p) => {
                let mut commands: Vec<CommandLine> = Vec::new();
                if p.nocow {
                    let c = CommandLine::new("chattr").arg("+C").arg(v.path.as_str());
                    assert(c@ =~= (CommandView {
                        program: "chattr"@,
                        args: seq!["+C"@, v@.path],
                    }));
                    commands.push(c);
                }
                if !same(p.compression.as_str(), "none") {
                    let mut option = "compression=".to_owned();
                    option.append(p.compression.as_str());
                    let c = CommandLine::new("btrfs").arg("property").arg("set").arg("-ts").arg(
                        v.path.as_str(),
                    ).arg(option.as_str());
                    assert(c@ =~= btrfs_call(
                        "property"@,
                        seq!["set"@, "-ts"@, v@.path, "compression="@ + p@.compression],
                    ));
                    commands.push(c);
                }
                let c = CommandLine::new("btrfs").arg("quota").arg("enable").arg("--simple").arg(
                    self.data_dir(),
                );
                assert(c@ =~= btrfs_call("quota"@, seq!["enable"@, "--simple"@, self@.data_dir]));
                commands.push(c);
                assert(command_views(commands@) =~= setup_commands(p@, v@.path, self@.data_dir));
                let warn = same(v.profile.as_str(), "database") && !p.sync_writes;
                Ok((commands, warn))
            },
        }
    }

    /// The command that limits the space of a volume.
    pub fn quota_command(&self, v: &CreateVolume) -> (r: CommandLine)
        ensures
            r@ == btrfs_call("qgroup"@, seq!["limit"@, decimal(v@.capacity), v@.path]),
    {
        let limit = u64_text(v.capacity);
        let r = CommandLine::new("btrfs").arg("qgroup").arg("limit").arg(limit.as_str()).arg(
            v.path.as_str(),
        );
        assert(r@ =~= btrfs_call("qgroup"@, seq!["limit"@, decimal(v@.capacity), v@.path]));
        r
    }

    /// Completes the creation of a volume under a fresh identifier, at the time `now`.
    pub fn finish_create(&self, v: &CreateVolume, gossip: &mut GossipService, now: i64) -> (r:
        NewVolume)
        requires
            old(gossip).wf(),
        ensures
            final(gossip).wf(),
            ({
                let id = r.volume@.volume_id;
                &&& id.take("vol-"@.len() as int) == "vol-"@
                &&& is_uuid_v4(id.skip("vol-"@.len() as int))
                &&& r.volume@.capacity_bytes == from_twos(v@.capacity)
                &&& attribute_views(r.attributes@) == new_attributes(self@, v@, id, now)
                &&& clock_view(r.vector_clock@) == seq![(self@.node_id, 1u64)]
                &&& final(gossip)@ == (GossipView {
                    epochs: old(gossip)@.epochs.insert(id, first_epoch(self@, id)),
                    ..old(gossip)@
                })
            }),
    {
        let id = self.volume_id();
        self.finish_create_as(v, gossip, id, now)
    }

    /// Completes the creation of a volume under the given identifier, at the time `now`: the
    /// attributes to set, and the volume to answer with. The node counts as its only writer.
    pub fn finish_create_as(
        &self,
        v: &CreateVolume,
        gossip: &mut GossipService,
        volume_id: String,
        now: i64,
    ) -> (r: NewVolume)
        requires
            old(gossip).wf(),
        ensures
            final(gossip).wf(),
            r.volume@ == (VolumeView {
                volume_id: volume_id@,
                capacity_bytes: from_twos(v@.capacity),
            }),
            attribute_views(r.attributes@) == new_attributes(self@, v@, volume_id@, now),
            clock_view(r.vector_clock@) == seq![(self@.node_id, 1u64)],
            final(gossip)@ == (GossipView {
                epochs: old(gossip)@.epochs.insert(
                    volume_id@,
                    first_epoch(self@, volume_id@),
                ),
                ..old(gossip)@
            }),
    {
        let mut clock: Vec<(String, u64)> = Vec::new();
        clock.push((self.node_id().to_owned(), 1));
        assert(clock_view(clock@) =~= seq![(self@.node_id, 1u64)]);
        gossip.register_volume_epoch(volume_id.as_str(), 1, clock_clone(&clock), "active");
        let mut attributes: Vec<(String, String)> = Vec::new();
        attributes.push(("volume_id".to_owned(), volume_id.clone()));
        attributes.push(("size".to_owned(), u64_text(v.capacity)));
        attributes.push(("zone".to_owned(), self.zone().to_owned()));
        attributes.push(("profile".to_owned(), v.profile.clone()));
        attributes.push(("created_at".to_owned(), i64_text(now)));
        attributes.push(("epoch".to_owned(), u64_text(1)));
        attributes.push(("status".to_owned(), "active".to_owned()));
        assert(attribute_views(attributes@) =~= new_attributes(self@, v@, volume_id@, now));
        NewVolume {
            volume: Volume { volume_id, capacity_bytes: as_signed(v.capacity) },
            attributes,
            vector_clock: clock,
        }
    }

    /// Decides on the deletion of a volume whose subvolume has the given name, by the nodes on
    /// which it is published: gives the command that deletes it, unless it is in use. A volume
    /// that was not found counts as deleted.
    pub fn delete_volume(&self, volume_id: &str, name: &Option<String>, published: &Option<String>) -> (r:
        Result<Option<CommandLine>, CsiError>)
        ensures
            ({
                let nodes = listed_nodes(opt_view(*published));
                match *name {
                    None => r == Ok::<Option<CommandLine>, CsiError>(None),
                    Some(n) => if nodes.len() == 0 {
                        r matches Ok(Some(c)) && c@ == btrfs_call(
                            "subvolume"@,
                            seq!["delete"@, below(self@.data_dir, n@)],
                        )
                    } else {
                        r matches Err(e) && e@ == CsiErrorView::FailedPrecondition(
                            "Volume "@ + volume_id@ + " is still published on nodes: "@ + joined(
                                nodes,
                                ", "@,
                            ),
                        )
                    },
                }
            }),
            deletion_view(r) == deletion(self@, volume_id@, opt_view(*name), opt_view(*published)),
    {
        match name {
            None => Ok(None),
            Some(n) => {
                let nodes = get_published_nodes(published);
                assert(string_views(nodes@).len() == nodes@.len());
                if nodes.len() > 0 {
                    let mut e = text3("Volume ", volume_id, " is still published on nodes: ");
                    e.append(join_strings(&nodes, ", ").as_str());
                    return Err(CsiError::FailedPrecondition(e));
                }
                Ok(Some(self.delete_command(n.as_str())))
            },
        }
    }
}

/// Creating a volume twice gives the same volume: a subvolume that exists with an identifier is
/// answered with, and nothing is created or configured.
pub proof fn creation_is_idempotent(v: CreateVolumeView, id: Seq<char>)
    requires
        v.state is Probing,
    ensures
        create_action(v, CreateEventView::Shown(true)) is ReadVolumeId,
        ({
            let w = CreateVolumeView {
                state: create_next(v.state, CreateEventView::Shown(true)),
                ..v
            };
            &&& create_action(w, CreateEventView::VolumeId(Some(id))) == CreateActionView::Reply(
                VolumeView { volume_id: id, capacity_bytes: from_twos(v.capacity) },
            )
            &&& create_next(w.state, CreateEventView::VolumeId(Some(id))) is Finished
        }),
{
}

} // verus!
