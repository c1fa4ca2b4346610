//! Publication of volumes on nodes.

use vstd::prelude::*;
use vstd::string::*;

use crate::csi::controller::{
    entry_views, find_volume, first_with, volume_ids, ControllerView, CsiController, DirEntry,
    DirEntryView,
};
use crate::csi::error::{text3, CsiError, CsiErrorView};
use crate::csi::published::{add_published_node, listed_nodes, with_node};
use crate::exchange::quorum::{LeaseView, QuorumLeaseResult};
use crate::number::{decimal, u64_text};
use crate::ops::commands::below;
use crate::ops::xattr::{status_active, status_conflict, status_readonly};
use crate::text::{joined, opt_view, same};

verus! {

broadcast use vstd::string::group_string_axioms;

/// The JSON text of an object with two texts and a truth value.
pub uninterp spec fn json_text(
    k1: Seq<char>,
    v1: Seq<char>,
    k2: Seq<char>,
    v2: Seq<char>,
    k3: Seq<char>,
    v3: bool,
) -> Seq<char>;

/// `serde_json::to_string` of a `serde_json::Value` that is an object with three entries. The
/// text depends on the entries alone.
#[verifier::external_body]
fn json_object(k1: &str, v1: &str, k2: &str, v2: &str, k3: &str, v3: bool) -> (r: String)
    ensures
        r@ == json_text(k1@, v1@, k2@, v2@, k3@, v3),
{
    let mut m = serde_json::Map::new();
    m.insert(k1.to_string(), serde_json::Value::String(v1.to_string()));
    m.insert(k2.to_string(), serde_json::Value::String(v2.to_string()));
    m.insert(k3.to_string(), serde_json::Value::Bool(v3));
    serde_json::to_string(&serde_json::Value::Object(m)).unwrap_or_default()
}

/// The status that a lease gives a volume.
pub open spec fn status_after(q: LeaseView) -> Seq<char> {
    if q.conflict {
        status_conflict()
    } else if !q.granted {
        status_readonly()
    } else {
        status_active()
    }
}

/// The refusal of a volume that the vote has found in conflict.
pub open spec fn conflict_after_vote(volume_id: Seq<char>, q: LeaseView) -> CsiErrorView {
    CsiErrorView::FailedPrecondition(
        "Volume "@ + volume_id + " is in CONFLICT state after quorum check ("@ + decimal(
            q.votes_received,
        ) + " "@ + decimal(q.votes_needed) + ")"@,
    )
}

/// How far the publication of a volume has come.
#[derive(Debug)]
pub enum PublishState {
    /// The volume is being looked for.
    Finding,
    /// The status of the volume with this name and path is being read.
    Checking { name: String, path: String },
    /// The peers are being asked for a lease.
    Voting { name: String, path: String },
    /// The list of the nodes on which the volume is published is being read.
    Listing { name: String, readonly: bool },
    /// The request has been answered.
    Finished,
}

/// How far the publication of a volume has come.
pub enum PublishStateView {
    Finding,
    Checking { name: Seq<char>, path: Seq<char> },
    Voting { name: Seq<char>, path: Seq<char> },
    Listing { name: Seq<char>, readonly: bool },
    Finished,
}

impl View for PublishState {
    type V = PublishStateView;

    open spec fn view(&self) -> PublishStateView {
        match *self {
            PublishState::Finding => PublishStateView::Finding,
            PublishState::Checking { name, path } => PublishStateView::Checking {
                name: name@,
                path: path@,
            },
            PublishState::Voting { name, path } => PublishStateView::Voting {
                name: name@,
                path: path@,
            },
            PublishState::Listing { name, readonly } => PublishStateView::Listing {
                name: name@,
                readonly,
            },
            PublishState::Finished => PublishStateView::Finished,
        }
    }
}

/// What an action has come to.
#[derive(Debug)]
pub enum PublishEvent {
    /// The entries of the directory of the volumes.
    Entries(Vec<DirEntry>),
    /// The status of the volume.
    Status(String),
    /// What the request for a lease has come to.
    Lease(QuorumLeaseResult),
    /// The request for a lease could not be made, for the reason given.
    NoVote(String),
    /// The stored list of the nodes on which the volume is published.
    Published(Option<String>),
}

/// What an action has come to.
pub enum PublishEventView {
    Entries(Seq<DirEntryView>),
    Status(Seq<char>),
    Lease(LeaseView),
    NoVote(Seq<char>),
    Published(Option<Seq<char>>),
}

impl View for PublishEvent {
    type V = PublishEventView;

    open spec fn view(&self) -> PublishEventView {
        match *self {
            PublishEvent::Entries(e) => PublishEventView::Entries(entry_views(e@)),
            PublishEvent::Status(s) => PublishEventView::Status(s@),
            PublishEvent::Lease(q) => PublishEventView::Lease(q@),
            PublishEvent::NoVote(e) => PublishEventView::NoVote(e@),
            PublishEvent::Published(p) => PublishEventView::Published(opt_view(p)),
        }
    }
}

/// What is to be done next.
#[derive(Debug)]
pub enum PublishAction {
    /// Read the status of the volume with this path.
    ReadStatus(String),
    /// Ask the peers for a lease on the volume with this path.
    RequestLease(String),
    /// Store the status of the volume, and read the list of the nodes on which it is published.
    Mark { path: String, status: String },
    /// Store the list of nodes if it has changed, and answer with what the node is told.
    Reply { published: Option<String>, publish_context: String },
    /// Store the status of the volume, if there is one to store, and refuse the request.
    Refuse { mark: Option<(String, String)>, error: CsiError },
}

/// What is to be done next.
pub enum PublishActionView {
    ReadStatus(Seq<char>),
    RequestLease(Seq<char>),
    Mark { path: Seq<char>, status: Seq<char> },
    Reply { published: Option<Seq<char>>, publish_context: Seq<char> },
    Refuse { mark: Option<(Seq<char>, Seq<char>)>, error: CsiErrorView },
}

/// The status that is to be stored, and the path of the volume.
pub open spec fn mark_view(m: Option<(String, String)>) -> Option<(Seq<char>, Seq<char>)> {
    match m {
        Some(x) => Some((x.0@, x.1@)),
        None => None,
    }
}

impl View for PublishAction {
    type V = PublishActionView;

    open spec fn view(&self) -> PublishActionView {
        match *self {
            PublishAction::ReadStatus(p) => PublishActionView::ReadStatus(p@),
            PublishAction::RequestLease(p) => PublishActionView::RequestLease(p@),
            PublishAction::Mark { path, status } => PublishActionView::Mark {
                path: path@,
                status: status@,
            },
            PublishAction::Reply { published, publish_context } => PublishActionView::Reply {
                published: opt_view(published),
                publish_context: publish_context@,
            },
            PublishAction::Refuse { mark, error } => PublishActionView::Refuse {
                mark: mark_view(mark),
                error: error@,
            },
        }
    }
}

/// The publication of a volume on a node.
#[derive(Debug)]
pub struct PublishVolume {
    volume_id: String,
    node_id: String,
    state: PublishState,
}

/// What is known of the publication of a volume.
pub struct PublishView {
    pub volume_id: Seq<char>,
    pub node_id: Seq<char>,
    pub state: PublishStateView,
}

impl View for PublishVolume {
    type V = PublishView;

    closed spec fn view(&self) -> PublishView {
        PublishView {
            volume_id: self.volume_id@,
            node_id: self.node_id@,
            state: self.state@,
        }
    }
}

/// Whether an event is one that the state waits for.
pub open spec fn publish_awaits(s: PublishStateView, e: PublishEventView) -> bool {
    match s {
        PublishStateView::Finding => e is Entries,
        PublishStateView::Checking { .. } => e is Status,
        PublishStateView::Voting { .. } => e is Lease || e is NoVote,
        PublishStateView::Listing { .. } => e is Published,
        PublishStateView::Finished => false,
    }
}

/// The state after an event. A volume in conflict gets no further; one for which no lease was
/// granted can only be read.
pub open spec fn publish_next(v: PublishView, e: PublishEventView) -> PublishStateView {
    match (v.state, e) {
        (PublishStateView::Finding, PublishEventView::Entries(all)) => match first_with(
            volume_ids(all),
            v.volume_id,
        ) {
            Some(i) => PublishStateView::Checking { name: all[i].name, path: all[i].path },
            None => PublishStateView::Finished,
        },
        (PublishStateView::Checking { name, path }, PublishEventView::Status(s)) => if s
            == status_conflict() {
            PublishStateView::Finished
        } else {
            PublishStateView::Voting { name, path }
        },
        (PublishStateView::Voting { name, path }, PublishEventView::Lease(q)) => if q.conflict {
            PublishStateView::Finished
        } else {
            PublishStateView::Listing { name, readonly: !q.granted }
        },
        _ => PublishStateView::Finished,
    }
}

/// What the controller publishes for a node: the list of nodes to store, if it changes, and what
/// the node is told.
pub open spec fn published_reply(
    c: ControllerView,
    name: Seq<char>,
    readonly: bool,
    node_id: Seq<char>,
    published: Option<Seq<char>>,
) -> PublishActionView {
    let nodes = listed_nodes(published);
    PublishActionView::Reply {
        published: if nodes.contains(node_id) {
            None
        } else {
            Some(joined(with_node(nodes, node_id), ","@))
        },
        publish_context: json_text(
            "path"@,
            below(c.data_dir, name),
            "node_id"@,
            c.node_id,
            "readonly"@,
            readonly,
        ),
    }
}

/// What is to be done upon an event.
pub open spec fn publish_action(
    v: PublishView,
    e: PublishEventView,
    c: ControllerView,
) -> PublishActionView {
    match (v.state, e) {
        (PublishStateView::Finding, PublishEventView::Entries(all)) => match first_with(
            volume_ids(all),
            v.volume_id,
        ) {
            Some(i) => PublishActionView::ReadStatus(all[i].path),
            None => PublishActionView::Refuse {
                mark: None,
                error: CsiErrorView::NotFound("Volume "@ + v.volume_id + " not found"@),
            },
        },
        (PublishStateView::Checking { name, path }, PublishEventView::Status(s)) => if s
            == status_conflict() {
            PublishActionView::Refuse {
                mark: None,
                error: CsiErrorView::FailedPrecondition(
                    "Volume "@ + v.volume_id
                        + " is in CONFLICT state. Manual resolution required via btrfs send/receive."@,
                ),
            }
        } else {
            PublishActionView::RequestLease(path)
        },
        (PublishStateView::Voting { name, path }, PublishEventView::Lease(q)) => if q.conflict {
            PublishActionView::Refuse {
                mark: Some((path, status_after(q))),
                error: conflict_after_vote(v.volume_id, q),
            }
        } else {
            PublishActionView::Mark { path, status: status_after(q) }
        },
        (PublishStateView::Voting { name, path }, PublishEventView::NoVote(why)) => {
            PublishActionView::Refuse {
                mark: None,
                error: CsiErrorView::Internal("Quorum check failed: "@ + why),
            }
        },
        (
            PublishStateView::Listing { name, readonly },
            PublishEventView::Published(published),
        ) => published_reply(c, name, readonly, v.node_id, published),
        _ => PublishActionView::Refuse {
            mark: None,
            error: CsiErrorView::Internal(Seq::empty()),
        },
    }
}

fn conflict_refusal(volume_id: &str, quorum: &QuorumLeaseResult) -> (r: CsiError)
    ensures
        r@ == conflict_after_vote(volume_id@, quorum@),
{
    let mut e = text3("Volume ", volume_id, " is in CONFLICT state after quorum check (");
    e.append(u64_text(quorum.votes_received as u64).as_str());
    e.append(" ");
    e.append(u64_text(quorum.votes_needed as u64).as_str());
    e.append(")");
    CsiError::FailedPrecondition(e)
}

impl PublishVolume {
    /// Takes in what an action has come to, and tells what is to be done next.
    pub fn step(&mut self, controller: &CsiController, event: PublishEvent) -> (r: PublishAction)
        requires
            publish_awaits(old(self)@.state, event@),
        ensures
            final(self)@ == (PublishView {
                state: publish_next(old(self)@, event@),
                ..old(self)@
            }),
            r@ == publish_action(old(self)@, event@, controller@),
    {
        let mut state = PublishState::Finished;
        std::mem::swap(&mut state, &mut self.state);
        match (state, event) {
            (PublishState::Finding, PublishEvent::Entries(entries)) => match find_volume(
                &entries,
                self.volume_id.as_str(),
            ) {
                Some(i) => {
                    assert(entry_views(entries@)[i as int] == entries@[i as int]@);
                    let name = entries[i].name.clone();
                    let path = entries[i].path.clone();
                    self.state = PublishState::Checking { name, path: path.clone() };
                    PublishAction::ReadStatus(path)
                },
                None => PublishAction::Refuse {
                    mark: None,
                    error: CsiError::NotFound(
                        text3("Volume ", self.volume_id.as_str(), " not found"),
                    ),
                },
            },
            (PublishState::Checking { name, path }, PublishEvent::Status(status)) => if same(
                status.as_str(),
                "conflict",
            ) {
                PublishAction::Refuse {
                    mark: None,
                    error: CsiError::FailedPrecondition(
                        text3(
                            "Volume ",
                            self.volume_id.as_str(),
                            " is in CONFLICT state. Manual resolution required via btrfs send/receive.",
                        ),
                    ),
                }
            } else {
                self.state = PublishState::Voting { name, path: path.clone() };
                PublishAction::RequestLease(path)
            },
            (PublishState::Voting { name, path }, PublishEvent::Lease(q)) => if q.conflict {
                PublishAction::Refuse {
                    mark: Some((path, "conflict".to_owned())),
                    error: conflict_refusal(self.volume_id.as_str(), &q),
                }
            } else {
                let readonly = !q.granted;
                self.state = PublishState::Listing { name, readonly };
                let status = if readonly {
                    "readonly".to_owned()
                } else {
                    "active".to_owned()
                };
                PublishAction::Mark { path, status }
            },
            (PublishState::Voting { .. }, PublishEvent::NoVote(why)) => {
                let mut e = "Quorum check failed: ".to_owned();
                e.append(why.as_str());
                PublishAction::Refuse { mark: None, error: CsiError::Internal(e) }
            },
            (PublishState::Listing { name, readonly }, PublishEvent::Published(published)) => {
                let path = controller.subvol_path(name.as_str());
                PublishAction::Reply {
                    published: add_published_node(&published, self.node_id.as_str()),
                    publish_context: json_object(
                        "path",
                        path.as_str(),
                        "node_id",
                        controller.node_id(),
                        "readonly",
                        readonly,
                    ),
                }
            },
            _ => PublishAction::Refuse { mark: None, error: CsiError::Internal(String::new()) },
        }
    }
}

/// Why the capabilities of a volume cannot be confirmed, if they cannot.
pub open spec fn capability_objection(e: Seq<DirEntryView>, volume_id: Seq<char>) -> Option<
    CsiErrorView,
> {
    if volume_id.len() == 0 {
        Some(CsiErrorView::InvalidArgument("volume_id is required"@))
    } else if first_with(volume_ids(e), volume_id) is None {
        Some(CsiErrorView::NotFound("Volume "@ + volume_id + " not found"@))
    } else {
        None
    }
}

impl CsiController {
    /// Begins to publish a volume on a node. The entries of the directory of the volumes are to
    /// be read next.
    pub fn controller_publish_volume(&self, volume_id: &str, node_id: &str) -> (r: PublishVolume)
        ensures
            r@ == (PublishView {
                volume_id: volume_id@,
                node_id: node_id@,
                state: PublishStateView::Finding,
            }),
    {
        PublishVolume {
            volume_id: volume_id.to_owned(),
            node_id: node_id.to_owned(),
            state: PublishState::Finding,
        }
    }

    /// Confirms the capabilities of a volume that exists.
    pub fn validate_volume_capabilities(&self, entries: &Vec<DirEntry>, volume_id: &str) -> (r:
        Result<(), CsiError>)
        ensures
            ({
                let found = first_with(volume_ids(entry_views(entries@)), volume_id@);
                match r {
                    Ok(()) => volume_id@.len() > 0 && found is Some,
                    Err(e) => if volume_id@.len() == 0 {
                        e@ == CsiErrorView::InvalidArgument("volume_id is required"@)
                    } else {
                        found is None && e@ == CsiErrorView::NotFound(
                            "Volume "@ + volume_id@ + " not found"@,
                        )
                    },
                }
            }),
            match r {
                Ok(()) => capability_objection(entry_views(entries@), volume_id@) is None,
                Err(e) => capability_objection(entry_views(entries@), volume_id@) == Some(e@),
            },
    {
        if volume_id.unicode_len() == 0 {
            return Err(CsiError::InvalidArgument("volume_id is required".to_owned()));
        }
        match find_volume(entries, volume_id) {
            Some(_) => Ok(()),
            None => Err(CsiError::NotFound(text3("Volume ", volume_id, " not found"))),
        }
    }
}

/// A volume is published only once a lease has been asked for, and never in conflict: neither one
/// whose status is a conflict nor one that the vote finds in conflict. It is writable only with a
/// lease; without one it is published to be read only.
pub proof fn writable_only_with_lease(v: PublishView, e: PublishEventView, c: ControllerView)
    requires
        publish_awaits(v.state, e),
    ensures
        publish_next(v, e) is Voting ==> v.state is Checking && e != PublishEventView::Status(
            status_conflict(),
        ),
        publish_next(v, e) matches PublishStateView::Listing { readonly, .. } ==> {
            &&& v.state is Voting
            &&& e matches PublishEventView::Lease(q) && !q.conflict && readonly == !q.granted
        },
        publish_action(v, e, c) is Reply ==> v.state is Listing,
        publish_action(v, e, c) matches PublishActionView::Mark { status, .. } ==> {
            status == status_active() <==> (e matches PublishEventView::Lease(q) && q.granted)
        },
{
    reveal_strlit("active");
    reveal_strlit("readonly");
    assert("active"@[0] != "readonly"@[0]);
}

} // verus!
