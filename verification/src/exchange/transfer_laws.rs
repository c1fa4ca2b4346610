//! What rounds of replication, received streams and the built-in profiles promise.

use vstd::prelude::*;
use vstd::string::*;

use crate::exchange::config::{
    builtin_profiles, database_profile, default_profile, is_default_maintenance,
    is_default_replication, log_profile, MaintenanceConfig, ReplicationConfig,
};
use crate::exchange::gossip::GossipView;
use crate::exchange::receiver::{
    after_chunk, after_chunks, data_of, receive_step, ReceiveStepView, ReceiveView,
};
use crate::exchange::replicator::{targets_of, ReplicatorView};
use crate::exchange::round::{
    round_action, round_awaits, round_effect, round_next, RoundActionView, RoundEventView,
    RoundStateView, RoundView, TransfersView,
};
use crate::ops::snapshot::SnapshotView;
use crate::protocol::message::{MessageType, MessageView};
use crate::protocol::utf8::lossy_text;

verus! {

broadcast use vstd::string::group_string_axioms;

/// A round sends its snapshot, and the one before it, to the first target, and from then on to the
/// next after each transfer, whether that succeeded or not; behind the last target it is over.
pub proof fn targets_are_served_in_their_order(
    v: RoundView,
    t: TransfersView,
    ok: bool,
    snapshot: SnapshotView,
    previous: Option<SnapshotView>,
    r: ReplicatorView,
    g: GossipView,
    now: i64,
)
    ensures
        ({
            let targets = targets_of(r, g, v.volume_id);
            let w = RoundView { state: RoundStateView::Snapshotting, ..v };
            let e = RoundEventView::Taken(snapshot, previous);
            &&& targets.len() > 0 ==> {
                &&& round_action(w, e, r, g) == (RoundActionView::Send {
                    target: targets[0],
                    snapshot,
                    previous,
                })
                &&& round_effect(w, e, r, g, now) == r
                &&& round_next(w, e, r, g) matches RoundStateView::Sending(b) && b.targets
                    == targets && b.outcomes.len() == 0 && b.snapshot == snapshot && b.previous
                    == previous
            }
            &&& targets.len() == 0 ==> round_action(w, e, r, g) is Done && round_next(w, e, r, g)
                is Finished
        }),
        ({
            let n = t.outcomes.len();
            let w = RoundView { state: RoundStateView::Sending(t), ..v };
            let e = RoundEventView::Sent(ok);
            &&& n + 1 < t.targets.len() ==> {
                &&& round_action(w, e, r, g) == (RoundActionView::Send {
                    target: t.targets[n as int + 1],
                    snapshot: t.snapshot,
                    previous: t.previous,
                })
                &&& round_effect(w, e, r, g, now) == r
                &&& round_next(w, e, r, g) matches RoundStateView::Sending(b) && b.targets
                    == t.targets && b.snapshot == t.snapshot && b.previous == t.previous
                    && b.outcomes.len() == n + 1 && b.outcomes.drop_last() == t.outcomes
                    && b.outcomes.last() == (t.targets[n as int].id, ok)
            }
            &&& n + 1 == t.targets.len() ==> round_action(w, e, r, g) is Done && round_next(
                w,
                e,
                r,
                g,
            ) is Finished
        }),
{
    assert(t.outcomes.push((t.targets[t.outcomes.len() as int].id, ok)).drop_last()
        =~= t.outcomes);
}

/// A round without a snapshot fails, and changes nothing.
pub proof fn round_fails_without_a_snapshot(
    v: RoundView,
    r: ReplicatorView,
    g: GossipView,
    now: i64,
)
    requires
        v.state is Snapshotting,
    ensures
        round_action(v, RoundEventView::NotTaken, r, g) == RoundActionView::Failed(
            "Failed to create snapshot"@,
        ),
        round_next(v, RoundEventView::NotTaken, r, g) is Finished,
        round_effect(v, RoundEventView::NotTaken, r, g, now) == r,
{
}

/// A round waits for its snapshot first, then for each transfer, and for nothing when it is over.
pub proof fn rounds_wait_for_what_was_asked(
    t: TransfersView,
    s: SnapshotView,
    p: Option<SnapshotView>,
    ok: bool,
)
    ensures
        round_awaits(RoundStateView::Snapshotting, RoundEventView::Taken(s, p)),
        round_awaits(RoundStateView::Snapshotting, RoundEventView::NotTaken),
        !round_awaits(RoundStateView::Snapshotting, RoundEventView::Sent(ok)),
        round_awaits(RoundStateView::Sending(t), RoundEventView::Sent(ok)),
        !round_awaits(RoundStateView::Sending(t), RoundEventView::NotTaken),
        !round_awaits(RoundStateView::Finished, RoundEventView::Sent(ok)),
{
}

/// Each message of data is added behind what was received, is counted, and is written on; every
/// hundredth is reported.
pub proof fn data_is_taken_in_and_written(s: ReceiveView, m: MessageView)
    requires
        m.msg_type == MessageType::SendData,
        s.total_bytes + m.payload.len() <= u64::MAX,
        s.chunk_count < u64::MAX,
    ensures
        after_chunk(s, m).data == s.data + m.payload,
        after_chunk(s, m).total_bytes == s.total_bytes + m.payload.len(),
        after_chunk(s, m).chunk_count == s.chunk_count + 1,
        after_chunk(s, m).volume_id == s.volume_id,
        receive_step(s, m) is Write,
        receive_step(s, m)->report == ((s.chunk_count + 1) % 100 == 0),
{
}

/// Messages without data change nothing: the end of the stream finishes it, an error aborts it with
/// its words, and every other message is ignored.
pub proof fn other_messages_change_nothing(s: ReceiveView, m: MessageView)
    requires
        m.msg_type != MessageType::SendData,
    ensures
        after_chunk(s, m) == s,
        m.msg_type == MessageType::SendComplete ==> receive_step(s, m) is Finish,
        m.msg_type == MessageType::SendError ==> receive_step(s, m) == ReceiveStepView::Abort(
            "Remote send error: "@ + lossy_text(m.payload),
        ),
        m.msg_type != MessageType::SendComplete && m.msg_type != MessageType::SendError
            ==> receive_step(s, m) is Ignore,
{
}

/// One more message of data lengthens the stream by what it carries.
pub proof fn stream_grows_by_each_message(s: ReceiveView, m: Seq<MessageView>, x: MessageView)
    ensures
        data_of(Seq::empty()).len() == 0,
        x.msg_type == MessageType::SendData ==> data_of(m.push(x)) == data_of(m) + x.payload,
        x.msg_type != MessageType::SendData ==> data_of(m.push(x)) == data_of(m),
        after_chunks(s, Seq::empty()) == s,
        after_chunks(s, m.push(x)).data == if x.msg_type == MessageType::SendData {
            after_chunks(s, m).data + x.payload
        } else {
            after_chunks(s, m).data
        },
{
    assert(m.push(x).drop_last() =~= m);
}

/// There are three built-in profiles. All enforce the quota and leave access times alone. That for
/// databases writes synchronously, that for logs neither copies on write nor compresses, and both
/// others are compressed by zstd at the third level.
pub proof fn profiles_fit_their_workloads()
    ensures
        builtin_profiles().dom() =~= set!["default"@, "database"@, "log"@],
        builtin_profiles()["default"@] == default_profile(),
        builtin_profiles()["database"@] == database_profile(),
        builtin_profiles()["log"@] == log_profile(),
        default_profile().name == "default"@,
        database_profile().name == "database"@,
        log_profile().name == "log"@,
        default_profile().compression == "zstd"@,
        default_profile().compression_level == 3,
        database_profile().compression == "zstd"@,
        database_profile().compression_level == 3,
        log_profile().compression == "none"@,
        log_profile().compression_level == 1,
        !default_profile().nocow,
        !database_profile().nocow,
        log_profile().nocow,
        !default_profile().sync_writes,
        database_profile().sync_writes,
        !log_profile().sync_writes,
        default_profile().quota_enforced,
        database_profile().quota_enforced,
        log_profile().quota_enforced,
        default_profile().mount_options == seq!["noatime"@],
        database_profile().mount_options == seq!["noatime,sync"@],
        log_profile().mount_options == seq!["noatime"@],
        default_profile().create_flags.len() == 0,
        database_profile().create_flags.len() == 0,
        log_profile().create_flags.len() == 0,
{
    reveal_strlit("default");
    reveal_strlit("database");
    reveal_strlit("log");
    assert("default"@.len() == 7 && "database"@.len() == 8 && "log"@.len() == 3);
}

/// Where nothing is configured, volumes have two replicas and are replicated every thirty seconds,
/// and a week of daily, four weekly and three monthly snapshots are kept.
pub proof fn defaults_are_as_documented(r: ReplicationConfig, m: MaintenanceConfig)
    requires
        is_default_replication(r),
        is_default_maintenance(m),
    ensures
        r.default_replica_count == 2,
        r.default_interval == 30,
        r.max_concurrent == 4,
        r.data_dir@ == "/mnt/data"@,
        r.snapshot_dir@ == "/mnt/snapshots"@,
        r.enable_incremental,
        r.database.enabled,
        r.database.sqlite_wal_mode,
        r.database.checkpoint_interval == 30,
        !r.database.enable_nocow,
        r.volume_profiles@ == builtin_profiles(),
        m.enabled,
        m.balance_schedule@ == "0 2 * * *"@,
        m.scrub_schedule@ == "0 3 * * 0"@,
        m.snapshot_cleanup_schedule@ == "0 4 * * *"@,
        m.snapshot_retention.daily == 7,
        m.snapshot_retention.weekly == 4,
        m.snapshot_retention.monthly == 3,
{
}

} // verus!
