use btrfs_csi::exchange::config::{ExchangeConfig, SnapshotRetention, VolumeProfile};
use btrfs_csi::exchange::gossip::{GossipMessage, GossipReply, GossipService};
use btrfs_csi::exchange::receiver::{expect_start, ReceiveStep, ReplicationReceiver};
use btrfs_csi::exchange::replicator::{backoff_ms, ReplicationStatus, Replicator};
use btrfs_csi::exchange::round::{RoundAction, RoundEvent};
use btrfs_csi::exchange::scheduler::{
    balance_command, balance_continues, df_command, extract_usage, find_fragmented_block_groups,
    is_text_before, list_snapshots_command, maintenance_window, read_usages, scrub_command,
    snapshot_cleanup, split_number_unit, WindowStep,
};
use btrfs_csi::exchange::stream::{after_attempt, announce, on_answer, on_sent, AttemptStep};
use btrfs_csi::exchange::volume_manager::VolumeManager;
use btrfs_csi::ops::commands::CommandLine;
use btrfs_csi::ops::snapshot::Snapshot;
use btrfs_csi::ops::subvolume::SubvolumeManager;
use btrfs_csi::protocol::message::{Message, MessageType};
use btrfs_csi::protocol::payload::{
    ConflictInfo, DeleteVolumeRequest, HeartbeatPayload, NodeInfo, QuorumVoteRequest,
    QuorumVoteResponse, SendStartRequest, VolumeInfo, VolumeUnpublishRequest,
};
use btrfs_csi::time::Moment;
use std::time::Duration;

fn text(c: &CommandLine) -> String {
    format!("{} {}", c.program, c.args.join(" "))
}

fn config() -> ExchangeConfig {
    let mut c = ExchangeConfig::default();
    c.node_id = "self".to_string();
    c.zone = "dc1".to_string();
    c
}

fn heartbeat(id: &str, free_space: u64) -> HeartbeatPayload {
    HeartbeatPayload {
        node_id: id.to_string(),
        addr: format!("{}:9200", id),
        zone: format!("zone-{}", id),
        role: "replica".to_string(),
        free_space,
        volumes: vec![],
    }
}

fn node(id: &str, zone: &str, free_space: u64) -> NodeInfo {
    NodeInfo {
        id: id.to_string(),
        addr: format!("{}:9200", id),
        zone: zone.to_string(),
        role: "replica".to_string(),
        free_space,
        last_seen: 0,
    }
}

fn strings(list: &[&str]) -> Vec<String> {
    list.iter().map(|s| s.to_string()).collect()
}

#[test]
fn default_configuration() {
    let c = ExchangeConfig::default();
    let d = ExchangeConfig::default();
    assert_ne!(c.node_id, d.node_id);
    assert_eq!(c.node_id.len(), 36);
    assert_eq!(c.node_id.as_bytes()[14], b'4');
    assert_eq!((c.listen_port, c.replication_port), (9200, 9300));
    assert_eq!(c.gossip_interval_duration(), Duration::from_secs(10));
    assert_eq!(c.heartbeat_interval_duration(), Duration::from_secs(30));
    assert_eq!(c.node_timeout_duration(), Duration::from_secs(90));
    assert_eq!(c.replication.default_interval_duration(), Duration::from_secs(30));
    assert_eq!(c.replication.database.checkpoint_interval_duration(), Duration::from_secs(30));
    assert_eq!(c.replication.volume_profiles.len(), 3);
    assert_eq!(
        c.maintenance.snapshot_retention,
        SnapshotRetention { daily: 7, weekly: 4, monthly: 3 }
    );
    assert_eq!(c.may_start(), Err("auth_key must not be empty".to_string()));
    let mut c = c.overridden(Some("n".to_string()), None);
    assert_eq!((c.node_id.as_str(), c.zone.as_str()), ("n", "default"));
    c.auth_key = "k".to_string();
    assert_eq!(c.may_start(), Ok(()));
    let c = c.identified();
    assert_eq!(c.node_id, "n");
    let c = c.overridden(Some(String::new()), None).identified();
    assert_eq!(c.node_id.len(), 36);
}

#[test]
fn volume_profiles() {
    let d = VolumeProfile::default();
    assert_eq!((d.nocow, d.compression.as_str(), d.compression_level), (false, "zstd", 3));
    assert!(!d.sync_writes);
    let b = VolumeProfile::database();
    assert_eq!((b.nocow, b.compression.as_str(), b.compression_level), (false, "zstd", 3));
    assert!(b.sync_writes);
    assert_eq!(b.mount_options, vec!["noatime,sync"]);
    let l = VolumeProfile::log();
    assert_eq!((l.nocow, l.compression.as_str(), l.sync_writes), (true, "none", false));
}

#[test]
fn heartbeats_and_departures() {
    let mut g = GossipService::new(&config());
    let a = g.handle_gossip_message(GossipMessage::Heartbeat(heartbeat("a", 5)), 100);
    assert!(matches!(a.reply, GossipReply::HeartbeatAck));
    g.handle_gossip_message(GossipMessage::Heartbeat(heartbeat("a", 7)), 200);
    assert_eq!(g.peer_count(), 1);
    assert_eq!(g.get_peers()[0].free_space, 7);
    assert_eq!(g.get_peers()[0].last_seen, 200);
    let a = g.handle_gossip_message(GossipMessage::NodeJoin(heartbeat("b", 1)), 300);
    match a.reply {
        GossipReply::NodeList(n) => {
            assert_eq!(n.iter().map(|x| x.id.as_str()).collect::<Vec<_>>(), vec!["a", "b"])
        }
        _ => panic!("expected the list of nodes"),
    }
    let a = g.handle_gossip_message(GossipMessage::NodeLeave(heartbeat("a", 0)), 400);
    assert!(matches!(a.reply, GossipReply::Silence));
    assert_eq!(a.failed_node.as_deref(), Some("a"));
    assert_eq!(g.peer_count(), 1);
    for m in [GossipMessage::HeartbeatAck, GossipMessage::QuorumVoteResponse, GossipMessage::Other] {
        let a = g.handle_gossip_message(m, 500);
        assert!(matches!(a.reply, GossipReply::Silence));
        assert!(a.failed_node.is_none() && a.conflict.is_none() && a.remove_dir.is_none());
    }
}

#[test]
fn own_heartbeat() {
    let mut g = GossipService::new(&config());
    g.update_volumes(vec![VolumeInfo {
        id: "v".to_string(),
        name: "v".to_string(),
        size: 1,
        node_id: "self".to_string(),
        zone: "dc1".to_string(),
        status: "active".to_string(),
        created_at: 0,
    }]);
    let h = g.create_heartbeat_payload(9);
    assert_eq!((h.node_id.as_str(), h.addr.as_str()), ("self", "0.0.0.0:9200"));
    assert_eq!((h.role.as_str(), h.free_space, h.volumes.len()), ("replica", 9, 1));
}

#[test]
fn silent_peers_are_removed() {
    let mut g = GossipService::new(&config());
    g.handle_gossip_message(GossipMessage::Heartbeat(heartbeat("a", 5)), 0);
    g.handle_gossip_message(GossipMessage::Heartbeat(heartbeat("b", 5)), 10_000);
    assert_eq!(g.remove_stale_peers(90_000), Vec::<String>::new());
    assert_eq!(g.remove_stale_peers(90_001), vec!["a"]);
    assert_eq!(g.get_peers()[0].id, "b");
}

#[test]
fn replicas_go_where_there_is_space() {
    let mut g = GossipService::new(&config());
    g.join_cluster(vec![
        node("a", "z1", 10),
        node("b", "z1", 30),
        node("self", "z1", 99),
        node("c", "z2", 30),
        node("d", "z2", 20),
    ]);
    let ids = |v: Vec<NodeInfo>| v.into_iter().map(|n| n.id).collect::<Vec<_>>();
    assert_eq!(ids(g.select_replica_targets(&vec![], 2)), vec!["b", "c"]);
    assert_eq!(ids(g.select_replica_targets(&strings(&["b"]), 9)), vec!["c", "d", "a"]);
    assert_eq!(ids(g.select_replica_targets(&vec![], 0)), Vec::<String>::new());
    assert_eq!(ids(g.select_targets_by_zone(&strings(&["z2", "z9", "z1"]), &vec![])), vec!["c", "b"]);
    let mut h = GossipService::new(&config());
    h.join_cluster(vec![node("x", "z", 5), node("y", "z", 5)]);
    assert_eq!(ids(h.select_targets_by_zone(&strings(&["z"]), &vec![])), vec!["y"]);
    let others = g.addressees();
    assert_eq!(others.len(), 4);
    assert_eq!(others[0], ("a".to_string(), "a:9200".to_string()));
}

fn vote_request(clock: &[(&str, u64)]) -> QuorumVoteRequest {
    QuorumVoteRequest {
        volume_id: "vol-1".to_string(),
        epoch: 3,
        vector_clock: clock.iter().map(|(n, c)| (n.to_string(), *c)).collect(),
        requester_node: "other".to_string(),
    }
}

#[test]
fn votes_depend_on_what_is_known() {
    let mut g = GossipService::new(&config());
    let vote = |g: &mut GossipService, q| match g
        .handle_gossip_message(GossipMessage::QuorumVote(q), 0)
        .reply
    {
        GossipReply::Vote(v) => v,
        _ => panic!("expected a vote"),
    };
    let v = vote(&mut g, vote_request(&[("other", 1)]));
    assert!(v.vote_granted && !v.conflict && v.peer_epoch == 0);
    g.register_volume_epoch("vol-1", 2, vec![("self".to_string(), 1)], "active");
    let v = vote(&mut g, vote_request(&[("other", 1)]));
    assert!(!v.vote_granted && v.conflict && v.peer_epoch == 2);
    assert_eq!(v.peer_node, "self");
    let v = vote(&mut g, vote_request(&[("self", 1), ("other", 1)]));
    assert!(v.vote_granted && !v.conflict);
    g.register_volume_epoch("vol-1", 0, vec![("self".to_string(), 1)], "active");
    let v = vote(&mut g, vote_request(&[("other", 1)]));
    assert!(v.vote_granted && v.conflict);
}

#[test]
fn conflicts_deletions_and_notices() {
    let mut g = GossipService::new(&config());
    g.register_volume_epoch("vol-1", 1, vec![], "active");
    let info = ConflictInfo {
        volume_id: "vol-1".to_string(),
        node_a: "a".to_string(),
        node_b: "b".to_string(),
        epoch_a: 1,
        epoch_b: 2,
        vector_clock_a: vec![],
        vector_clock_b: vec![],
    };
    let a = g.handle_gossip_message(GossipMessage::ConflictDetected(info), 0);
    assert_eq!(a.conflict.unwrap().node_b, "b");
    assert_eq!(g.get_volume_epoch_info("vol-1").unwrap().status, "conflict");
    g.update_volume_epoch("vol-1", 5, "a");
    let e = g.get_volume_epoch_info("vol-1").unwrap();
    assert_eq!((e.epoch, e.status.as_str(), e.last_synced_from.as_deref()), (5, "active", Some("a")));
    let d = DeleteVolumeRequest { volume_id: "vol-1".to_string() };
    let a = g.handle_gossip_message(GossipMessage::DeleteVolume(d), 0);
    assert!(matches!(a.reply, GossipReply::DeleteVolumeAck));
    assert_eq!(a.remove_dir.as_deref(), Some("/mnt/snapshots/vol-1"));
    assert!(g.get_volume_epoch_info("vol-1").is_none());
    let u = VolumeUnpublishRequest { volume_id: "v".to_string(), node_id: "n".to_string() };
    let a = g.handle_gossip_message(GossipMessage::VolumeUnpublish(u), 0);
    assert!(matches!(a.reply, GossipReply::VolumeUnpublishAck));
    let u = a.unpublish.unwrap();
    assert_eq!((u.volume_id.as_str(), u.node_id.as_str()), ("v", "n"));
    assert!(g.handle_gossip_message(GossipMessage::Other, 0).unpublish.is_none());
}

fn vote(granted: bool, conflict: bool, peer: &str) -> QuorumVoteResponse {
    QuorumVoteResponse {
        volume_id: "vol-1".to_string(),
        peer_epoch: 4,
        peer_vector_clock: vec![],
        vote_granted: granted,
        peer_node: peer.to_string(),
        conflict,
    }
}

#[test]
fn leases_by_majority() {
    let mut g = GossipService::new(&config());
    let q = g.vote_request("vol-1", 3, &vec![("self".to_string(), 1)]);
    assert_eq!((q.requester_node.as_str(), q.epoch), ("self", 3));
    let r = g.request_quorum_lease(&q, &vec![]);
    assert!(r.granted && r.total_nodes == 1 && r.votes_needed == 1);
    g.join_cluster(vec![node("a", "z", 0), node("b", "z", 0), node("c", "z", 0), node("d", "z", 0)]);
    let r = g.request_quorum_lease(&q, &vec![vote(true, false, "a"), vote(false, false, "b")]);
    assert!(!r.granted);
    assert_eq!((r.votes_received, r.votes_needed, r.total_nodes), (2, 3, 5));
    let r = g.request_quorum_lease(&q, &vec![vote(true, false, "a"), vote(true, false, "b")]);
    assert!(r.granted && !r.conflict);
    let r = g.request_quorum_lease(
        &q,
        &vec![
            vote(true, false, "a"),
            vote(true, false, "b"),
            vote(true, true, "c"),
            vote(false, true, "d"),
        ],
    );
    assert!(!r.granted && r.conflict);
    assert_eq!(r.votes_received, 3);
    let info = r.conflict_info.unwrap();
    assert_eq!((info.node_a.as_str(), info.node_b.as_str()), ("self", "d"));
    assert_eq!((info.epoch_a, info.epoch_b), (3, 4));
}

#[test]
fn no_lease_for_half_of_the_nodes() {
    let mut g = GossipService::new(&config());
    let q = g.vote_request("vol-1", 3, &vec![]);
    g.join_cluster(vec![node("a", "z", 0)]);
    let r = g.request_quorum_lease(&q, &vec![]);
    assert!(!r.granted && !r.conflict);
    assert_eq!((r.votes_received, r.votes_needed, r.total_nodes), (1, 2, 2));
    assert!(g.request_quorum_lease(&q, &vec![vote(true, false, "a")]).granted);
    g.join_cluster(vec![node("b", "z", 0), node("c", "z", 0)]);
    let r = g.request_quorum_lease(&q, &vec![vote(true, false, "a")]);
    assert!(!r.granted);
    assert_eq!((r.votes_received, r.votes_needed, r.total_nodes), (2, 3, 4));
    assert!(g.request_quorum_lease(&q, &vec![vote(true, false, "a"), vote(true, false, "b")]).granted);
}

#[test]
fn own_entry_among_the_peers() {
    let mut g = GossipService::new(&config());
    let q = g.vote_request("vol-1", 3, &vec![]);
    let own = q.requester_node.clone();
    g.join_cluster(vec![node(&own, "z", 0)]);
    assert_eq!(g.peer_count(), 1);
    let r = g.request_quorum_lease(&q, &vec![]);
    assert!(r.granted);
    assert_eq!((r.votes_received, r.votes_needed, r.total_nodes), (1, 1, 1));
    g.join_cluster(vec![node("b", "z", 0), node(&own, "z", 1), node("c", "z", 0)]);
    assert_eq!((g.peer_count(), g.addressees().len()), (3, 2));
    let r = g.request_quorum_lease(&q, &vec![vote(true, false, "b")]);
    assert!(r.granted);
    assert_eq!((r.votes_received, r.votes_needed, r.total_nodes), (2, 2, 3));
    assert!(!g.request_quorum_lease(&q, &vec![]).granted);
}

#[test]
fn join_through_a_seed() {
    let mut c = config();
    c.node_id = "seed".to_string();
    let mut seed = GossipService::new(&c);
    let mut g = GossipService::new(&config());
    let hello = g.create_heartbeat_payload(7);
    let own = hello.node_id.clone();
    match seed.handle_gossip_message(GossipMessage::NodeJoin(hello), 0).reply {
        GossipReply::NodeList(nodes) => {
            assert!(nodes.iter().any(|n| n.id == own));
            g.join_cluster(nodes);
        }
        _ => panic!("expected the nodes"),
    }
    let q = g.vote_request("vol-1", 1, &vec![]);
    let r = g.request_quorum_lease(&q, &vec![]);
    assert_eq!((r.granted, r.votes_needed, r.total_nodes), (true, 1, 1));
}

#[test]
fn delays_double() {
    let delays: Vec<u64> = (0..8).map(backoff_ms).collect();
    assert_eq!(delays, vec![1000, 2000, 4000, 8000, 16000, 32000, 60000, 60000]);
}

fn outcomes(list: &[(&str, bool)]) -> Vec<(String, bool)> {
    list.iter().map(|(n, b)| (n.to_string(), *b)).collect()
}

#[test]
fn rounds_of_replication() {
    let mut r = Replicator::new(&config());
    r.register_volume("v", vec![]);
    assert_eq!(r.get_volumes_for_replication(0), vec!["v"]);
    r.begin_round("v");
    assert!(matches!(r.get_status("v").unwrap().status, ReplicationStatus::Syncing));
    assert_eq!(r.get_volumes_for_replication(0), Vec::<String>::new());
    r.end_round("v", "s1", &outcomes(&[("a", true), ("b", true)]), 1000);
    let s = r.get_status("v").unwrap();
    assert!(matches!(s.status, ReplicationStatus::Completed));
    assert_eq!((s.last_snapshot.as_deref(), s.last_sync), (Some("s1"), Some(1000)));
    assert_eq!(r.get_volumes_for_replication(31_000), Vec::<String>::new());
    assert_eq!(r.get_volumes_for_replication(31_001), vec!["v"]);
    r.end_round("v", "s2", &outcomes(&[("a", true), ("b", false)]), 2000);
    let s = r.get_status("v").unwrap();
    assert_eq!(s.last_error.as_deref(), Some("Partial success: 1/2 targets"));
    assert_eq!(s.failed_nodes, vec!["b"]);
    r.begin_round("w");
    r.end_round_without_targets("w");
    let s = r.get_status("w").unwrap();
    assert!(matches!(&s.status, ReplicationStatus::Error(e) if e == "No targets available"));
    assert_eq!(s.last_error.as_deref(), Some("No replication targets available"));
    assert_eq!(r.get_all_states().len(), 2);
}

#[test]
fn failing_volume_is_given_up_after_five_rounds() {
    let mut r = Replicator::new(&config());
    r.register_volume("v", vec![]);
    for n in 1..=4 {
        r.end_round("v", "s", &outcomes(&[("a", false)]), 1000);
        let s = r.get_status("v").unwrap();
        assert!(matches!(s.status, ReplicationStatus::Retrying));
        assert_eq!(s.retry_count, n);
        let wait = 1000i64 << (n - 1);
        assert!(!r.should_retry("v", 1000 + wait - 1));
        assert!(r.should_retry("v", 1000 + wait));
    }
    r.end_round("v", "s", &outcomes(&[("a", false)]), 1000);
    let s = r.get_status("v").unwrap();
    assert!(matches!(&s.status, ReplicationStatus::Error(e) if e == "Max retries exceeded"));
    assert_eq!(s.last_error.as_deref(), Some("All 1 targets failed (attempt 5/5)"));
    assert_eq!(s.failed_nodes, vec!["a"]);
    assert_eq!(r.get_volumes_for_replication(151_000), Vec::<String>::new());
    assert_eq!(r.get_volumes_for_replication(151_001), vec!["v"]);
    r.clear_failed_nodes("v", "a");
    let s = r.get_status("v").unwrap();
    assert!(matches!(s.status, ReplicationStatus::Idle));
    assert_eq!((s.retry_count, s.failed_nodes.len()), (0, 0));
    assert!(r.should_retry("unknown", 0));
}

#[test]
fn targets_of_a_volume() {
    let mut g = GossipService::new(&config());
    g.join_cluster(vec![node("a", "z", 1), node("b", "z", 2), node("c", "z", 3), node("d", "z", 4)]);
    let mut r = Replicator::new(&config());
    r.register_volume("v", strings(&["d"]));
    r.end_round("v", "s", &outcomes(&[("c", false), ("b", true)]), 0);
    assert_eq!(r.replication_exclusions("v"), vec!["d", "c"]);
    let t = r.select_replication_targets(&g, "v");
    assert_eq!(t.iter().map(|n| n.id.as_str()).collect::<Vec<_>>(), vec!["b", "a"]);
    r.clear_failed_nodes("v", "c");
    let t = r.select_replication_targets(&g, "v");
    assert_eq!(t.iter().map(|n| n.id.as_str()).collect::<Vec<_>>(), vec!["c", "b"]);
    assert_eq!(r.get_volumes_for_node("d"), vec!["v"]);
    assert_eq!(r.get_volumes_for_node("a"), Vec::<String>::new());
    r.unregister_volume("v");
    assert!(r.get_status("v").is_none());
}

#[test]
fn a_whole_round() {
    let mut g = GossipService::new(&config());
    let mut r = Replicator::new(&config());
    let mut round = r.replicate_volume("v");
    assert!(matches!(r.get_status("v").unwrap().status, ReplicationStatus::Syncing));
    match round.step(&mut r, &g, RoundEvent::NotTaken, 1) {
        RoundAction::Failed(e) => assert_eq!(e, "Failed to create snapshot"),
        _ => panic!("expected the end of the round"),
    }
    assert!(matches!(r.get_status("v").unwrap().status, ReplicationStatus::Syncing));
    let mut round = r.replicate_volume("v");
    let taken = RoundEvent::Taken(snapshot("s1"), None);
    assert!(matches!(round.step(&mut r, &g, taken, 2), RoundAction::Done));
    assert_eq!(
        r.get_status("v").unwrap().last_error.as_deref(),
        Some("No replication targets available")
    );
    g.join_cluster(vec![node("a", "z", 1), node("b", "z", 2), node("c", "z", 3)]);
    let mut round = r.replicate_volume("v");
    let mut action =
        round.step(&mut r, &g, RoundEvent::Taken(snapshot("s2"), Some(snapshot("s1"))), 3);
    let mut served = vec![];
    while let RoundAction::Send { target, snapshot, previous } = action {
        assert_eq!((snapshot.name.as_str(), previous.unwrap().name.as_str()), ("s2", "s1"));
        let ok = target.id == "b";
        served.push(target.id);
        action = round.step(&mut r, &g, RoundEvent::Sent(ok), 4);
    }
    assert!(matches!(action, RoundAction::Done));
    assert_eq!(served, vec!["c", "b"]);
    let s = r.get_status("v").unwrap();
    assert_eq!(s.last_error.as_deref(), Some("Partial success: 1/2 targets"));
    assert_eq!((s.last_snapshot.as_deref(), s.last_sync), (Some("s2"), Some(4)));
    assert_eq!(s.failed_nodes, vec!["c"]);
}

fn snapshot(name: &str) -> Snapshot {
    Snapshot {
        id: 1,
        name: name.to_string(),
        path: format!("/snap/{}", name),
        subvolume_id: 0,
        created_at: Moment { secs: 0, nanos: 0 },
        size: 0,
    }
}

#[test]
fn sending_a_snapshot() {
    let s = snapshot("s2");
    let parent = Some(snapshot("s1"));
    let a = announce(&s, &parent);
    assert_eq!((a.volume_id.as_str(), a.snapshot_name.as_str()), ("s2", "/snap/s2"));
    assert_eq!((a.is_incremental, a.parent_snapshot.as_deref()), (true, Some("/snap/s1")));
    assert!(!announce(&s, &None).is_incremental);
    assert_eq!(text(&on_answer(&s, &parent, MessageType::SendStart).unwrap()), "btrfs send -p /snap/s1 /snap/s2");
    assert_eq!(text(&on_answer(&s, &None, MessageType::SendStart).unwrap()), "btrfs send /snap/s2");
    assert_eq!(on_answer(&s, &None, MessageType::AuthOk).unwrap_err(), "Unexpected response: AuthOk");
    assert!(on_sent(&s, true, "").unwrap().checksum.is_none());
    assert_eq!(on_sent(&s, false, "bad").unwrap_err(), "btrfs send failed: bad");
    assert!(matches!(after_attempt(0, &None), AttemptStep::Done));
    assert!(matches!(after_attempt(3, &Some("e".to_string())), AttemptStep::RetryAfter(8000)));
    match after_attempt(5, &Some("e".to_string())) {
        AttemptStep::GiveUp(s) => assert_eq!(s, "Failed after 5 retries: e"),
        _ => panic!("expected to give up"),
    }
}

fn message(msg_type: MessageType, payload: &[u8]) -> Message {
    Message { msg_type, payload: payload.to_vec(), timestamp: 0 }
}

#[test]
fn receiving_a_snapshot() {
    assert_eq!(expect_start(MessageType::SendStart), Ok(()));
    assert_eq!(
        expect_start(MessageType::SendData),
        Err("Expected SendStart, got SendData".to_string())
    );
    let receiver = ReplicationReceiver::new(&config());
    assert_eq!(receiver.listen_address(), "0.0.0.0:9300");
    let request = SendStartRequest {
        volume_id: "s2".to_string(),
        snapshot_name: "/snap/s2".to_string(),
        is_incremental: false,
        parent_snapshot: None,
    };
    let (mut session, command) = receiver.handle_connection(request);
    assert_eq!(text(&command), "btrfs receive /mnt/snapshots/s2");
    let mut reports = 0;
    for _ in 0..150 {
        match session.on_message(&message(MessageType::SendData, b"ab")) {
            ReceiveStep::Write { report } => reports += report as u32,
            _ => panic!("expected to write"),
        }
        assert!(matches!(session.on_message(&message(MessageType::Heartbeat, b"x")), ReceiveStep::Ignore));
    }
    assert_eq!(reports, 1);
    assert_eq!((session.bytes_received(), session.chunks_received()), (300, 150));
    assert!(matches!(session.on_message(&message(MessageType::SendComplete, b"")), ReceiveStep::Finish));
    let done = session.on_received(true, "").unwrap();
    let expected = blake3::hash("ab".repeat(150).as_bytes()).to_hex().to_string();
    assert_eq!(done.checksum, Some(expected));
    assert_eq!((done.volume_id.as_str(), done.success), ("s2", true));
    assert_eq!(session.on_received(false, "bad").unwrap_err(), "btrfs receive failed: bad");
    match session.on_message(&message(MessageType::SendError, b"gone\xff")) {
        ReceiveStep::Abort(e) => assert_eq!(e, "Remote send error: gone\u{fffd}"),
        _ => panic!("expected to abort"),
    }
}

#[test]
fn maintenance_is_put_off_four_times() {
    assert_eq!(maintenance_window(0, false, false), WindowStep::Proceed);
    assert_eq!(maintenance_window(0, true, false), WindowStep::Defer(1));
    assert_eq!(maintenance_window(3, false, true), WindowStep::Defer(4));
    assert_eq!(maintenance_window(4, true, true), WindowStep::Proceed);
}

#[test]
fn usage_lines() {
    let u = extract_usage("Data, single: total=1.00GiB, used=256.00MiB").unwrap();
    assert_eq!((u.used.as_str(), u.used_unit.as_str()), ("256.00", "MiB"));
    assert_eq!((u.total.as_str(), u.total_unit.as_str()), ("1.00", "GiB"));
    assert!(extract_usage("Data, single: total=1.00GiB").is_none());
    assert!(extract_usage("used=5").is_none());
    let u = extract_usage("used=1B,used=2B").unwrap();
    assert_eq!((u.used.as_str(), u.total.as_str()), ("2", "1"));
    assert!(extract_usage("Data, used=5").is_none());
    assert_eq!(split_number_unit(" 12 "), ("12".to_string(), "B".to_string()));
    assert_eq!(split_number_unit("GiB"), (String::new(), "GiB".to_string()));
    let all = read_usages("Data, single: total=4MiB, used=1MiB\nSystem, DUP: total=1KiB, used=1KiB\nMetadata, DUP: total=8KiB, used=2KiB\n");
    assert_eq!(all.len(), 2);
    assert_eq!(all[1].used, "2");
}

#[test]
fn balance_and_scrub() {
    assert_eq!(find_fragmented_block_groups(&vec![]), vec![(25, 25), (50, 50)]);
    assert_eq!(find_fragmented_block_groups(&vec![50, 99]), vec![(25, 25), (50, 50)]);
    assert_eq!(find_fragmented_block_groups(&vec![40, 60, 10]), vec![(10, 0), (40, 0)]);
    assert_eq!(text(&df_command("/d")), "btrfs filesystem df /d");
    assert_eq!(text(&balance_command((40, 0), "/d")), "btrfs balance start -dusage=40 -musage=0 /d");
    assert!(balance_continues(true, "Nothing to do"));
    assert!(!balance_continues(false, "no balance found on /d"));
    assert!(!balance_continues(false, "Nothing to do"));
    assert!(balance_continues(false, "disk on fire"));
    assert_eq!(text(&scrub_command("/d")), "btrfs scrub start -Bd /d");
    assert_eq!(text(&list_snapshots_command("/s")), "btrfs subvolume list -s /s");
}

#[test]
fn surplus_snapshots() {
    for (a, b) in [("a", "b"), ("", "a"), ("a", "ab"), ("B", "a"), ("a", "a"), ("z", "\u{e9}")] {
        assert_eq!(is_text_before(a, b), a < b);
        assert_eq!(is_text_before(b, a), b < a);
    }
    let line = |n: &str| format!("ID 9 gen 1 top level 5 path x/{}\n", n);
    let listing: String = ["s3", "s1", "s2"].iter().map(|n| line(n)).collect();
    let keep = |n| SnapshotRetention { daily: n, weekly: 0, monthly: 0 };
    assert_eq!(snapshot_cleanup(&listing, "/s", &keep(3)), Vec::<String>::new());
    assert_eq!(snapshot_cleanup(&listing, "/s", &keep(1)), vec!["/s/s1", "/s/s2"]);
    let bare = "ID 9 gen 1 top level 5 path s2\nID 9 gen 1 top level 5 path s1\n";
    assert_eq!(snapshot_cleanup(bare, "/s", &keep(1)), vec!["/s/s1"]);
    let noisy = format!("{}noise\n", listing);
    assert_eq!(snapshot_cleanup(&noisy, "/s", &keep(3)), Vec::<String>::new());
}

#[test]
fn volumes_of_a_node() {
    let c = config();
    let mut m = VolumeManager::new(&c);
    let mut r = Replicator::new(&c);
    assert_eq!(text(&m.list_command()), "btrfs subvolume list /mnt/data");
    let found = SubvolumeManager::new("/mnt/data").list("ID 256 gen 7 top level 5 path a/one\n");
    m.load_volumes(&found, 5);
    assert_eq!(text(&m.create_command("two")), "btrfs subvolume create /mnt/data/two");
    let v = m.create_volume(&mut r, "two", 10, 1, 6);
    assert_eq!((v.id.as_str(), v.size, v.status.as_str(), v.created_at), ("two", 10, "active", 6));
    m.create_volume(&mut r, "three", 20, 0, 7);
    assert!(r.get_status("two").is_some());
    assert!(r.get_status("three").is_none());
    assert_eq!(m.volume_count(), 3);
    assert_eq!(m.total_size(), Some(30));
    m.update_status("one", "conflict");
    assert_eq!(m.get_volume("one").unwrap().status, "conflict");
    assert_eq!(m.list_volumes().len(), 3);
    assert_eq!(text(&m.begin_delete(&mut r, "two")), "btrfs subvolume delete /mnt/data/two");
    m.delete_volume("two");
    assert!(r.get_status("two").is_none());
    assert!(!m.volume_exists("two") && m.volume_exists("one"));
    m.create_volume(&mut r, "huge", u64::MAX, 0, 8);
    assert_eq!(m.total_size(), None);
}
