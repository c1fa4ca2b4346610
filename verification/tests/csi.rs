use btrfs_csi::csi::controller::{
    controller_get_capabilities, find_snapshot, find_volume, get_subvolume_id,
    parse_btrfs_free_space, ControllerCapability, CsiController, DirEntry,
};
use btrfs_csi::csi::create_volume::{CreateAction, CreateEvent, CreateVolume, CreateVolumeParams};
use btrfs_csi::csi::error::CsiError;
use btrfs_csi::csi::identity::{CsiIdentity, PluginCapability};
use btrfs_csi::csi::names::validate_volume_name;
use btrfs_csi::csi::node::{
    check_idmapped_support, extract_volume_path, node_get_capabilities, parse_btrfs_usage,
    parse_inode_usage, set_io_priority_idle, CsiNode, NodeCapability,
};
use btrfs_csi::csi::paging::page;
use btrfs_csi::csi::published::{add_published_node, get_published_nodes, remove_published_node};
use btrfs_csi::csi::publish::{PublishAction, PublishEvent, PublishVolume};
use btrfs_csi::csi::server::{
    complete_message, handle_message, socket_path, CsiRequest, CsiResponse, CsiServer, ServerStep,
};
use btrfs_csi::csi::snapshots::{SnapshotAction, SnapshotEvent};
use btrfs_csi::exchange::config::{builtin_profile_table, ExchangeConfig};
use btrfs_csi::exchange::gossip::GossipService;
use btrfs_csi::exchange::quorum::QuorumLeaseResult;
use btrfs_csi::exchange::replicator::Replicator;
use btrfs_csi::exchange::volume_manager::VolumeManager;
use btrfs_csi::ops::commands::CommandLine;
use btrfs_csi::protocol::message::MessageType;
use btrfs_csi::table::Table;

fn text(c: &CommandLine) -> String {
    format!("{} {}", c.program, c.args.join(" "))
}

fn controller() -> CsiController {
    CsiController::new("n1".to_string(), "dc1".to_string(), "/data".to_string(), builtin_profile_table())
}

fn entry(name: &str, volume_id: Option<&str>, snapshot_id: Option<&str>, source: Option<&str>) -> DirEntry {
    DirEntry {
        name: name.to_string(),
        path: format!("/data/{}", name),
        volume_id: volume_id.map(|s| s.to_string()),
        snapshot_id: snapshot_id.map(|s| s.to_string()),
        source_volume_id: source.map(|s| s.to_string()),
        size: Some("77".to_string()),
        creation_time: Some("-5".to_string()),
    }
}

fn entries() -> Vec<DirEntry> {
    vec![
        entry("plain", None, None, None),
        entry("a", Some("vol-1"), None, None),
        entry("s1", None, Some("snap-1"), Some("vol-1")),
        entry("b", Some("vol-2"), None, None),
        entry("s2", None, Some("snap-2"), Some("vol-2")),
        entry("c", Some("vol-3"), None, None),
    ]
}

fn message(e: CsiError) -> String {
    match e {
        CsiError::InvalidArgument(s) => format!("invalid: {}", s),
        CsiError::NotFound(s) => format!("not found: {}", s),
        CsiError::FailedPrecondition(s) => format!("precondition: {}", s),
        CsiError::Internal(s) => format!("internal: {}", s),
    }
}

#[test]
fn names_of_volumes() {
    assert!(validate_volume_name("csi-test-1_a.b").is_ok());
    assert!(validate_volume_name(&"a".repeat(255)).is_ok());
    let objection = |n: &str| message(validate_volume_name(n).unwrap_err());
    assert_eq!(objection(""), "invalid: volume name must not be empty");
    assert_eq!(objection("a\0b"), "invalid: volume name must not contain null bytes");
    let parts = "invalid: volume name must not contain path separators or '..': ";
    assert_eq!(objection("../a"), format!("{}../a", parts));
    assert_eq!(objection("a/b"), format!("{}a/b", parts));
    assert_eq!(objection("a\\b"), format!("{}a\\b", parts));
    assert_eq!(objection("a..b"), format!("{}a..b", parts));
    assert_eq!(objection(&"a".repeat(256)), "invalid: volume name too long (max 255 chars)");
    assert_eq!(objection(&"\u{e9}".repeat(128)), "invalid: volume name too long (max 255 chars)");
    assert_eq!(objection("a b"), "invalid: volume name must only contain [a-zA-Z0-9._-]");
    assert_eq!(objection("\u{e9}"), "invalid: volume name must only contain [a-zA-Z0-9._-]");
}

fn create(c: &CsiController, name: &str) -> (CreateVolume, CommandLine) {
    c.create_volume(&CreateVolumeParams {
        name: name.to_string(),
        required_bytes: Some(4096),
        profile: Some("log".to_string()),
    })
    .unwrap()
}

#[test]
fn creating_a_new_volume() {
    let c = controller();
    let (mut v, show) = create(&c, "new");
    assert_eq!(text(&show), "btrfs subvolume show /data/new");
    match v.step(CreateEvent::Shown(false)) {
        CreateAction::Run(cmd) => assert_eq!(text(&cmd), "btrfs subvolume create /data/new"),
        _ => panic!("expected to create"),
    }
    assert!(matches!(v.step(CreateEvent::Created(true, String::new())), CreateAction::Configure));
    let (commands, warn) = c.configure_volume(&v).unwrap();
    assert_eq!(
        commands.iter().map(text).collect::<Vec<_>>(),
        vec!["chattr +C /data/new", "btrfs quota enable --simple /data"]
    );
    assert!(!warn);
    assert_eq!(text(&c.quota_command(&v)), "btrfs qgroup limit 4096 /data/new");
    let mut g = GossipService::new(&ExchangeConfig::default());
    let n = c.finish_create_as(&v, &mut g, "vol-x".to_string(), 1234);
    assert_eq!((n.volume.volume_id.as_str(), n.volume.capacity_bytes), ("vol-x", 4096));
    let pairs: Vec<(&str, &str)> =
        n.attributes.iter().map(|(k, v)| (k.as_str(), v.as_str())).collect();
    assert_eq!(
        pairs,
        vec![
            ("volume_id", "vol-x"),
            ("size", "4096"),
            ("zone", "dc1"),
            ("profile", "log"),
            ("created_at", "1234"),
            ("epoch", "1"),
            ("status", "active"),
        ]
    );
    assert_eq!(n.vector_clock, vec![("n1".to_string(), 1)]);
    let e = g.get_volume_epoch_info("vol-x").unwrap();
    assert_eq!((e.epoch, e.status.as_str()), (1, "active"));
    let fresh = c.finish_create(&v, &mut g, 0);
    assert!(fresh.volume.volume_id.starts_with("vol-"));
    assert_eq!(fresh.volume.volume_id.len(), 40);
    assert_ne!(c.finish_create(&v, &mut g, 0).volume.volume_id, fresh.volume.volume_id);
}

#[test]
fn creating_an_existing_volume() {
    let c = controller();
    let (mut v, _) = create(&c, "old");
    assert!(matches!(v.step(CreateEvent::Shown(true)), CreateAction::ReadVolumeId));
    match v.step(CreateEvent::VolumeId(Some("vol-9".to_string()))) {
        CreateAction::Reply(vol) => {
            assert_eq!((vol.volume_id.as_str(), vol.capacity_bytes), ("vol-9", 4096))
        }
        _ => panic!("expected the volume"),
    }
    let (mut v, _) = create(&c, "half");
    v.step(CreateEvent::Shown(true));
    assert!(matches!(v.step(CreateEvent::VolumeId(None)), CreateAction::Configure));
    let (mut v, _) = create(&c, "raced");
    v.step(CreateEvent::Shown(false));
    let a = v.step(CreateEvent::Created(false, "exists".to_string()));
    assert!(matches!(a, CreateAction::ReadVolumeId));
    assert!(matches!(
        v.step(CreateEvent::VolumeId(Some("vol-8".to_string()))),
        CreateAction::Reply(_)
    ));
    let (mut v, _) = create(&c, "failed");
    v.step(CreateEvent::Shown(false));
    v.step(CreateEvent::Created(false, "no space".to_string()));
    match v.step(CreateEvent::VolumeId(None)) {
        CreateAction::Refuse(e) => {
            assert_eq!(message(e), "internal: Failed to create subvolume: no space")
        }
        _ => panic!("expected a refusal"),
    }
    let (mut v, _) = create(&c, "unrun");
    v.step(CreateEvent::Shown(false));
    match v.step(CreateEvent::NotRun("no btrfs".to_string())) {
        CreateAction::Refuse(e) => {
            assert_eq!(message(e), "internal: Failed to execute btrfs: no btrfs")
        }
        _ => panic!("expected a refusal"),
    }
    assert!(c
        .create_volume(&CreateVolumeParams {
            name: "a/b".to_string(),
            required_bytes: None,
            profile: None
        })
        .is_err());
}

#[test]
fn profiles_of_volumes() {
    let c = controller();
    let params = |profile: Option<&str>| CreateVolumeParams {
        name: "v".to_string(),
        required_bytes: None,
        profile: profile.map(|s| s.to_string()),
    };
    let (v, _) = c.create_volume(&params(None)).unwrap();
    let (commands, _) = c.configure_volume(&v).unwrap();
    assert_eq!(
        commands.iter().map(text).collect::<Vec<_>>(),
        vec!["btrfs property set -ts /data/v compression=zstd", "btrfs quota enable --simple /data"]
    );
    assert_eq!(text(&c.quota_command(&v)), "btrfs qgroup limit 1073741824 /data/v");
    assert_eq!(c.get_profile("unknown").unwrap().name, "default");
    let (v, _) = c.create_volume(&params(Some("database"))).unwrap();
    assert!(!c.configure_volume(&v).unwrap().1);
    let bare = CsiController::new("n".to_string(), "z".to_string(), "/d".to_string(), Table::new());
    assert_eq!(
        message(bare.get_profile("x").unwrap_err()),
        "internal: No volume profile found for 'x' and no default profile configured"
    );
    let mut t = Table::new();
    let mut p = btrfs_csi::exchange::config::VolumeProfile::default();
    p.compression = "none".to_string();
    t.insert("database".to_string(), p);
    let c = CsiController::new("n".to_string(), "z".to_string(), "/d".to_string(), t);
    let (v, _) = c.create_volume(&params(Some("database"))).unwrap();
    let (commands, warn) = c.configure_volume(&v).unwrap();
    assert_eq!(commands.len(), 1);
    assert!(warn);
}

#[test]
fn profile_among_the_parameters() {
    let mut parameters = Table::new();
    parameters.insert("replicas".to_string(), "3".to_string());
    let p = CreateVolumeParams::new("v", Some(5), &parameters);
    assert_eq!((p.name.as_str(), p.required_bytes, p.profile), ("v", Some(5), None));
    parameters.insert("profile".to_string(), "database".to_string());
    let p = CreateVolumeParams::new("v", None, &parameters);
    assert_eq!((p.required_bytes, p.profile.as_deref()), (None, Some("database")));
}

#[test]
fn published_nodes() {
    assert_eq!(get_published_nodes(&None), Vec::<String>::new());
    assert_eq!(get_published_nodes(&Some(String::new())), Vec::<String>::new());
    assert_eq!(get_published_nodes(&Some("a, b ,c".to_string())), vec!["a", "b", "c"]);
    let one = add_published_node(&None, "a");
    assert_eq!(one.as_deref(), Some("a"));
    let two = add_published_node(&one, "b");
    assert_eq!(two.as_deref(), Some("a,b"));
    assert_eq!(add_published_node(&two, "a"), None);
    assert_eq!(remove_published_node(&two, "a").as_deref(), Some("b"));
    assert_eq!(remove_published_node(&one, "a"), None);
    assert_eq!(remove_published_node(&two, "x").as_deref(), Some("a,b"));
}

#[test]
fn deleting_a_volume() {
    let c = controller();
    assert!(c.delete_volume("vol-1", &None, &None).unwrap().is_none());
    let name = Some("a".to_string());
    assert_eq!(
        text(&c.delete_volume("vol-1", &name, &None).unwrap().unwrap()),
        "btrfs subvolume delete /data/a"
    );
    assert_eq!(
        message(c.delete_volume("vol-1", &name, &Some("n1,n2".to_string())).unwrap_err()),
        "precondition: Volume vol-1 is still published on nodes: n1, n2"
    );
}

fn lease(granted: bool, conflict: bool) -> QuorumLeaseResult {
    QuorumLeaseResult {
        granted,
        votes_received: 1,
        votes_needed: 2,
        total_nodes: 3,
        conflict,
        conflict_info: None,
    }
}

fn publishing(c: &CsiController, id: &str, status: &str) -> (PublishVolume, PublishAction) {
    let mut p = c.controller_publish_volume(id, "n2");
    match p.step(c, PublishEvent::Entries(entries())) {
        PublishAction::ReadStatus(path) => assert_eq!(path, "/data/b"),
        _ => panic!("expected to read the status"),
    }
    let next = p.step(c, PublishEvent::Status(status.to_string()));
    (p, next)
}

#[test]
fn publishing_a_volume() {
    let c = controller();
    for (granted, status) in [(true, "active"), (false, "readonly")] {
        let (mut p, next) = publishing(&c, "vol-2", "active");
        assert!(matches!(next, PublishAction::RequestLease(path) if path == "/data/b"));
        match p.step(&c, PublishEvent::Lease(lease(granted, false))) {
            PublishAction::Mark { path, status: s } => {
                assert_eq!((path.as_str(), s.as_str()), ("/data/b", status))
            }
            _ => panic!("expected to store the status"),
        }
        match p.step(&c, PublishEvent::Published(Some("n1".to_string()))) {
            PublishAction::Reply { published, publish_context } => {
                assert_eq!(published.as_deref(), Some("n1,n2"));
                let v: serde_json::Value = serde_json::from_str(&publish_context).unwrap();
                assert_eq!(v["path"], "/data/b");
                assert_eq!(v["node_id"], "n1");
                assert_eq!(v["readonly"], !granted);
            }
            _ => panic!("expected an answer"),
        }
    }
    let (mut p, _) = publishing(&c, "vol-2", "readonly");
    p.step(&c, PublishEvent::Lease(lease(true, false)));
    let again = p.step(&c, PublishEvent::Published(Some("n2".to_string())));
    assert!(matches!(again, PublishAction::Reply { published: None, .. }));
}

#[test]
fn refusals_to_publish() {
    let c = controller();
    let refused = |a| match a {
        PublishAction::Refuse { mark, error } => (mark, message(error)),
        _ => panic!("expected a refusal"),
    };
    let mut p = c.controller_publish_volume("vol-9", "n2");
    assert_eq!(
        refused(p.step(&c, PublishEvent::Entries(entries()))),
        (None, "not found: Volume vol-9 not found".to_string())
    );
    let (_, next) = publishing(&c, "vol-2", "conflict");
    assert_eq!(
        refused(next),
        (
            None,
            "precondition: Volume vol-2 is in CONFLICT state. Manual resolution required via btrfs send/receive."
                .to_string()
        )
    );
    let (mut p, _) = publishing(&c, "vol-2", "active");
    assert_eq!(
        refused(p.step(&c, PublishEvent::NoVote("down".to_string()))),
        (None, "internal: Quorum check failed: down".to_string())
    );
    let (mut p, _) = publishing(&c, "vol-2", "active");
    assert_eq!(
        refused(p.step(&c, PublishEvent::Lease(lease(true, true)))),
        (
            Some(("/data/b".to_string(), "conflict".to_string())),
            "precondition: Volume vol-2 is in CONFLICT state after quorum check (1 2)".to_string()
        )
    );
    assert!(c.validate_volume_capabilities(&entries(), "vol-1").is_ok());
    assert_eq!(
        message(c.validate_volume_capabilities(&entries(), "").unwrap_err()),
        "invalid: volume_id is required"
    );
    assert_eq!(
        message(c.validate_volume_capabilities(&entries(), "x").unwrap_err()),
        "not found: Volume x not found"
    );
}

#[test]
fn pages_of_lists() {
    assert_eq!(page(5, "", 2), (0, 2, "2".to_string()));
    assert_eq!(page(5, "2", 2), (2, 4, "4".to_string()));
    assert_eq!(page(5, "4", 2), (4, 5, String::new()));
    assert_eq!(page(5, "9", 2), (5, 5, String::new()));
    assert_eq!(page(5, "x", 0), (0, 5, String::new()));
    assert_eq!(page(5, "1", -1), (1, 5, String::new()));
    let mut token = String::new();
    let mut seen = Vec::new();
    loop {
        let (from, to, next) = page(7, &token, 3);
        seen.extend(from..to);
        if next.is_empty() {
            break;
        }
        token = next;
    }
    assert_eq!(seen, (0..7).collect::<Vec<_>>());
}

#[test]
fn listing_volumes() {
    let c = controller();
    let (v, next) = c.list_volumes(&entries(), "", 2);
    assert_eq!(v.iter().map(|x| x.volume_id.as_str()).collect::<Vec<_>>(), vec!["vol-1", "vol-2"]);
    assert_eq!((v[0].capacity_bytes, next.as_str()), (77, "2"));
    let (v, next) = c.list_volumes(&entries(), &next, 2);
    assert_eq!((v.len(), next.as_str()), (1, ""));
    assert_eq!(c.controller_get_volume(&entries(), "vol-3").unwrap().capacity_bytes, 77);
    assert_eq!(
        message(c.controller_get_volume(&entries(), "x").unwrap_err()),
        "not found: Volume x not found"
    );
    let (i, cmd) = c.controller_expand_volume(&entries(), "vol-2").unwrap();
    assert_eq!((i, text(&cmd).as_str()), (3, "btrfs filesystem resize max /data/b"));
    assert!(c.controller_expand_volume(&entries(), "x").is_none());
    assert_eq!(c.expanded_size(Some(-5)), (-5, "-5".to_string()));
    assert_eq!(c.expanded_size(None), (0, "0".to_string()));
    assert_eq!(find_volume(&entries(), "vol-1"), Some(1));
    assert_eq!(find_snapshot(&entries(), "snap-2"), Some(4));
    assert_eq!(find_snapshot(&entries(), "vol-1"), None);
}

#[test]
fn capacity_of_a_zone() {
    let c = controller();
    let topology = |zone: &str| {
        let mut t: Table<String> = Table::new();
        t.insert("topology.gocsi.io/zone".to_string(), zone.to_string());
        t
    };
    assert!(!c.is_ruled_out(&vec![]));
    assert!(!c.is_ruled_out(&vec![topology("dc2"), topology("dc1")]));
    assert!(c.is_ruled_out(&vec![topology("dc2")]));
    assert!(c.is_ruled_out(&vec![Table::new()]));
    assert_eq!(text(&c.usage_command()), "btrfs filesystem usage -b /data");
    let usage = "Overall:\n    Device size:  100\n    Free (estimated):  x\n    Free:  42\n    Free: 9\n";
    assert_eq!(c.get_capacity(usage), 42);
    assert_eq!(parse_btrfs_free_space("nothing"), 0);
    assert_eq!(get_subvolume_id("x\n Subvolume ID: \t 260\n"), Some(260));
    assert_eq!(get_subvolume_id("subvolume id: x\nSubvolume ID: 260"), None);
    assert_eq!(get_subvolume_id(""), None);
    assert_eq!(controller_get_capabilities().len(), 8);
    assert_eq!(controller_get_capabilities()[0], ControllerCapability::CreateDeleteVolume);
}

#[test]
fn creating_a_snapshot() {
    let c = controller();
    let (mut v, show) = c.create_snapshot("s9", "vol-2").unwrap();
    assert_eq!((text(&show).as_str(), v.name()), ("btrfs subvolume show /data/s9", "s9"));
    assert!(matches!(v.step(&c, SnapshotEvent::Shown(false)), SnapshotAction::ReadEntries));
    match v.step(&c, SnapshotEvent::Entries(entries())) {
        SnapshotAction::Run(cmd) => {
            assert_eq!(text(&cmd), "btrfs subvolume snapshot -r /data/b /data/s9")
        }
        _ => panic!("expected to make the snapshot"),
    }
    assert!(matches!(v.step(&c, SnapshotEvent::Made(None)), SnapshotAction::Complete));
    let n = c.finish_snapshot_as(&v, "snap-9".to_string(), 99);
    assert_eq!((n.snapshot.creation_time, n.snapshot.size_bytes), (99, 0));
    assert_eq!(n.snapshot.source_volume_id, "vol-2");
    let pairs: Vec<(&str, &str)> =
        n.attributes.iter().map(|(k, v)| (k.as_str(), v.as_str())).collect();
    assert_eq!(
        pairs,
        vec![
            ("snapshot_id", "snap-9"),
            ("source_volume_id", "vol-2"),
            ("snapshot_name", "s9"),
            ("size", "0"),
            ("creation_time", "99"),
        ]
    );
    let fresh = c.finish_snapshot(&v, 99);
    assert!(fresh.snapshot.snapshot_id.starts_with("snap-"));
    assert_eq!(fresh.snapshot.snapshot_id.len(), 41);
}

#[test]
fn snapshots_that_exist_or_fail() {
    let c = controller();
    assert_eq!(
        message(c.create_snapshot("", "vol-2").unwrap_err()),
        "invalid: volume name must not be empty"
    );
    let (mut v, _) = c.create_snapshot("s1", "vol-1").unwrap();
    assert!(matches!(v.step(&c, SnapshotEvent::Shown(true)), SnapshotAction::ReadEntry));
    match v.step(&c, SnapshotEvent::Entry(entries().remove(2))) {
        SnapshotAction::Reply(s) => {
            assert_eq!((s.snapshot_id.as_str(), s.source_volume_id.as_str()), ("snap-1", "vol-1"));
            assert_eq!((s.creation_time, s.size_bytes), (-5, 77));
        }
        _ => panic!("expected the snapshot"),
    }
    let (mut v, _) = c.create_snapshot("a", "vol-9").unwrap();
    v.step(&c, SnapshotEvent::Shown(true));
    let a = v.step(&c, SnapshotEvent::Entry(entries().remove(1)));
    assert!(matches!(a, SnapshotAction::ReadEntries));
    match v.step(&c, SnapshotEvent::Entries(entries())) {
        SnapshotAction::Refuse(e) => {
            assert_eq!(message(e), "not found: Source volume vol-9 not found")
        }
        _ => panic!("expected a refusal"),
    }
    let (mut v, _) = c.create_snapshot("s9", "vol-2").unwrap();
    v.step(&c, SnapshotEvent::Shown(false));
    v.step(&c, SnapshotEvent::Entries(entries()));
    match v.step(&c, SnapshotEvent::Made(Some("bad".to_string()))) {
        SnapshotAction::Refuse(e) => {
            assert_eq!(message(e), "internal: Failed to create snapshot: bad")
        }
        _ => panic!("expected a refusal"),
    }
}

#[test]
fn deleting_and_listing_snapshots() {
    let c = controller();
    assert_eq!(
        text(&c.delete_snapshot(&entries(), "snap-2").unwrap()),
        "btrfs subvolume delete /data/s2"
    );
    assert!(c.delete_snapshot(&entries(), "x").is_none());
    let (all, next) = c.list_snapshots(&entries(), "", "", 0);
    assert_eq!((all.len(), next.as_str()), (2, ""));
    let (some, _) = c.list_snapshots(&entries(), "vol-2", "", 0);
    assert_eq!(some[0].snapshot_id, "snap-2");
    let (first, next) = c.list_snapshots(&entries(), "", "", 1);
    assert_eq!((first.len(), next.as_str()), (1, "1"));
}

#[test]
fn identity_of_the_plugin() {
    let i = CsiIdentity::new("n1".to_string());
    let info = i.get_plugin_info("0.2.0");
    assert_eq!((info.name.as_str(), info.vendor_version.as_str()), ("btrfs-csi", "0.2.0"));
    assert_eq!(info.manifest.get("node_id").unwrap(), "n1");
    assert_eq!(info.manifest.get("driver").unwrap(), "btrfs");
    assert_eq!(
        i.get_plugin_capabilities(),
        vec![PluginCapability::ControllerService, PluginCapability::VolumeAccessibilityConstraints]
    );
    assert_eq!(text(&i.probe()), "btrfs version");
}

fn context(pairs: &[(&str, &str)]) -> Table<String> {
    let mut t = Table::new();
    for (k, v) in pairs {
        t.insert(k.to_string(), v.to_string());
    }
    t
}

fn csi_node(release: &str) -> CsiNode {
    CsiNode::new("n1".to_string(), "dc1".to_string(), "/data".to_string(), &Some(release.to_string()))
}

#[test]
fn kernels_that_map_ids() {
    assert!(check_idmapped_support("5.12.0-1-amd64\n"));
    assert!(check_idmapped_support("6.1.0"));
    assert!(!check_idmapped_support("5.11.9"));
    assert!(!check_idmapped_support("5"));
    assert!(!check_idmapped_support("5.x"));
}

#[test]
fn staging_and_publishing_on_a_node() {
    let n = csi_node("6.1.0");
    let c = n.node_stage_volume(&context(&[("path", "/p")]), "/stage").unwrap();
    assert_eq!(text(&c), "mount --bind /p /stage");
    let c = n.node_stage_volume(&context(&[("volume_name", "v")]), "/stage").unwrap();
    assert_eq!(text(&c), "mount --bind /data/v /stage");
    let missing = "invalid: volume_context must contain 'path' or 'volume_name' for staging";
    assert_eq!(message(n.node_stage_volume(&context(&[]), "/stage").unwrap_err()), missing);
    assert_eq!(message(n.node_publish_volume(&context(&[]), "/t").unwrap_err()), missing);
    let p = n
        .node_publish_volume(
            &context(&[("path", "/p"), ("readonly", "True"), ("uid_map", "7"), ("gid_map", "x")]),
            "/t",
        )
        .unwrap();
    assert_eq!(text(&p.mount), "mount --bind -o bind,ro /p /t");
    assert_eq!((p.readonly, p.idmap), (true, Some((7, 0))));
    let p = n.node_publish_volume(&context(&[("path", "/p"), ("readonly", "TRUE")]), "/t").unwrap();
    assert_eq!((text(&p.mount).as_str(), p.readonly, p.idmap), ("mount --bind /p /t", false, None));
    let old = csi_node("4.19.0");
    let p = old.node_publish_volume(&context(&[("path", "/p"), ("uid_map", "7")]), "/t").unwrap();
    assert_eq!(p.idmap, None);
    assert_eq!(text(&n.unmount_command("/t")), "umount /t");
    assert_eq!(extract_volume_path(&context(&[]), "/data"), "");
}

#[test]
fn usage_of_a_node() {
    let n = csi_node("6.1.0");
    let usage = "Device allocated: 100\n  Device allocated: 7 8\n Used: 30\nUsed: x\n";
    assert_eq!(parse_btrfs_usage("Device allocated:\t100\nUsed:\t 30"), (0, 30));
    assert_eq!(parse_btrfs_usage("xDevice 5 allocated:"), (0, 0));
    assert_eq!(parse_btrfs_usage("Used: 30 Device allocated:\nx 9 Used:"), (30, 9));
    assert_eq!(parse_btrfs_usage(usage), (0, 30));
    let table = "Filesystem Inodes IUsed IFree IUse% Mounted\nbad x y z\n/dev/sda 10 3 7 30% /\n";
    assert_eq!(parse_inode_usage(table), (10, 3));
    assert_eq!(parse_inode_usage("Filesystem 1 2 3 4"), (0, 0));
    let s = n
        .node_get_volume_stats("Used: 30 Device allocated:\nx 9 Used:", &Some(table.to_string()))
        .unwrap();
    assert_eq!((s.total, s.used, s.available), (30, 9, 21));
    assert_eq!(s.attributes.get("inode_available").unwrap(), "7");
    assert!(n.node_get_volume_stats("Used: 1", &None).is_none());
    let s = n.node_get_volume_stats("", &None).unwrap();
    assert_eq!(s.attributes.get("inode_total").unwrap(), "0");
    let (a, b) = n.stats_commands();
    assert_eq!(text(&a), "btrfs filesystem usage -b /data");
    assert_eq!(text(&b), "df -i /data");
    let (c, size) = n.node_expand_volume(Some(5));
    assert_eq!((text(&c).as_str(), size), ("btrfs filesystem resize max /data", 5));
    let (id, segments) = n.node_get_info();
    assert_eq!(id, "n1");
    assert_eq!(segments.get("topology.gocsi.io/zone").unwrap(), "dc1");
    assert!(!controller().is_ruled_out(&vec![segments]));
    assert_eq!(node_get_capabilities(), vec![NodeCapability::StageUnstageVolume]);
    assert_eq!(set_io_priority_idle(5, ""), Ok(()));
    assert_eq!(set_io_priority_idle(-1, "denied"), Err("ioprio_set failed: denied".to_string()));
}

#[test]
fn requests_over_the_transport() {
    let address = |e: &str| CsiServer::new(e.to_string()).listen_address();
    assert_eq!(address("unix:///csi.sock"), "0.0.0.0:9201");
    assert_eq!(address("1.2.3.4:5"), "1.2.3.4:5");
    assert_eq!(address("9201"), "0.0.0.0:9201");
    assert_eq!(socket_path("unix:///csi/csi.sock").as_deref(), Some("/csi/csi.sock"));
    assert_eq!(socket_path("9201"), None);
}

#[test]
fn requests_for_volumes() {
    let config = ExchangeConfig::default();
    let mut m = VolumeManager::new(&config);
    let mut r = Replicator::new(&config);
    let create = CsiRequest::CreateVolume { name: "v".to_string(), size: 5, replica_count: 1 };
    let command = |s| match s {
        ServerStep::Run(c) => text(&c),
        _ => panic!("expected a command"),
    };
    let answer = |s| match s {
        ServerStep::Answer(a) => a,
        _ => panic!("expected an answer"),
    };
    let info = CsiRequest::GetVolumeInfo { volume_id: "v".to_string() };
    let none = answer(handle_message(&info, &m, &mut r));
    assert_eq!(none.kind(), MessageType::GetVolumeInfoAck);
    assert!(matches!(none, CsiResponse::NoInfo(e) if e == "Volume not found"));
    assert_eq!(
        command(handle_message(&create, &m, &mut r)),
        "btrfs subvolume create /mnt/data/v"
    );
    assert_eq!(
        complete_message(&create, false, &mut m, &mut r, 7).unwrap_err(),
        "Failed to create subvolume"
    );
    assert_eq!(m.volume_count(), 0);
    let done = complete_message(&create, true, &mut m, &mut r, 7).unwrap();
    assert_eq!(done.kind(), MessageType::CreateVolumeAck);
    match done {
        CsiResponse::Created(c) => {
            assert_eq!((c.volume_id.as_str(), c.path.as_str()), ("v", "/mnt/data/v"));
            assert_eq!(c.node_id, config.node_id);
        }
        _ => panic!("expected the volume"),
    }
    assert!(r.get_status("v").is_some());
    match answer(handle_message(&info, &m, &mut r)) {
        CsiResponse::Info(v) => assert_eq!((v.size, v.created_at), (5, 7)),
        _ => panic!("expected the volume"),
    }
    let all = answer(handle_message(&CsiRequest::VolumeList, &m, &mut r));
    assert_eq!(all.kind(), MessageType::VolumeListAck);
    assert!(matches!(all, CsiResponse::Volumes(v) if v.len() == 1));
    let delete = CsiRequest::DeleteVolume { volume_id: "v".to_string() };
    assert_eq!(
        command(handle_message(&delete, &m, &mut r)),
        "btrfs subvolume delete /mnt/data/v"
    );
    assert!(r.get_status("v").is_none());
    assert_eq!(
        complete_message(&delete, false, &mut m, &mut r, 8).unwrap_err(),
        "Failed to delete subvolume"
    );
    assert!(m.volume_exists("v"));
    let gone = complete_message(&delete, true, &mut m, &mut r, 8).unwrap();
    assert_eq!(gone.kind(), MessageType::DeleteVolumeAck);
    assert!(!m.volume_exists("v"));
    assert!(matches!(handle_message(&CsiRequest::Other, &m, &mut r), ServerStep::Ignore));
}
