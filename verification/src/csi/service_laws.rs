//! What the services answer and remember, what they refuse, and what they wait for.

use vstd::prelude::*;
use vstd::string::*;
use vstd::utf8::encode_utf8;

use crate::csi::controller::{first_with, no_profile, volume_ids, DirEntryView, VolumeView};
use crate::csi::create_volume::{is_awaited, CreateEventView, CreateStateView};
use crate::csi::error::CsiErrorView;
use crate::csi::listing::{volume_found, zone_segment};
use crate::csi::names::name_objection;
use crate::csi::node::{body_lines, context_id, inodes_in, no_path, stats_of, usage_in};
use crate::csi::publish::{
    capability_objection, conflict_after_vote, publish_awaits, PublishEventView, PublishStateView,
};
use crate::csi::published::listed_nodes;
use crate::csi::snapshot_laws::entries_are_found_by_their_identifiers;
use crate::csi::snapshots::{
    snapshot_awaits, snapshot_deletion, SnapshotEventView, SnapshotState,
};
use crate::csi::volume_laws::first_entry_is_found;
use crate::exchange::gossip::{epoch_known, epoch_synced, GossipView};
use crate::exchange::quorum::LeaseView;
use crate::exchange::volume_manager::{with_status, VolumeManagerView};
use crate::number::{decimal, decimal_reads_back};
use crate::ops::commands::CommandView;
use crate::protocol::big_endian::{from_twos, twos};
use crate::protocol::payload::VolumeInfoView;
use crate::table::{distinct, entry_reads_back, has_key, map_of, other_entries_stay};
use crate::text::{has, lines, trimmed};
use crate::text_laws::{every_separator_parts, parts_make_up_the_text};

verus! {

broadcast use vstd::string::group_string_axioms;

/// Errors say what is missing or wrong.
pub proof fn errors_name_what_is_wrong(name: Seq<char>, q: LeaseView)
    ensures
        no_path() == CsiErrorView::InvalidArgument(
            "volume_context must contain 'path' or 'volume_name' for staging"@,
        ),
        no_profile(name) == CsiErrorView::Internal(
            "No volume profile found for '"@ + name + "' and no default profile configured"@,
        ),
        conflict_after_vote(name, q) == CsiErrorView::FailedPrecondition(
            "Volume "@ + name + " is in CONFLICT state after quorum check ("@ + decimal(
                q.votes_received,
            ) + " "@ + decimal(q.votes_needed) + ")"@,
        ),
        zone_segment() == "topology.gocsi.io/zone"@,
{
}

/// A name that is refused is refused for its first fault.
pub proof fn names_are_refused_for_their_first_fault(name: Seq<char>)
    ensures
        name.len() == 0 ==> name_objection(name) == Some(
            CsiErrorView::InvalidArgument("volume name must not be empty"@),
        ),
        name.len() > 0 && name.contains('\0') ==> name_objection(name) == Some(
            CsiErrorView::InvalidArgument("volume name must not contain null bytes"@),
        ),
        name.len() > 0 && !name.contains('\0') && (has(name, ".."@) || name.contains('/')
            || name.contains('\\')) ==> name_objection(name) == Some(
            CsiErrorView::InvalidArgument(
                "volume name must not contain path separators or '..': "@ + name,
            ),
        ),
        name.len() > 0 && !name.contains('\0') && has(name, ".."@) == false && !name.contains('/')
            && !name.contains('\\') && encode_utf8(name).len() > 255 ==> name_objection(name)
            == Some(CsiErrorView::InvalidArgument("volume name too long (max 255 chars)"@)),
{
}

/// Numbers that fit in 63 bits are reported as they are, and every signed number is had back from
/// its two's complement.
pub proof fn sizes_are_reported_as_they_are(n: nat, i: int)
    ensures
        n < 0x8000_0000_0000_0000 ==> from_twos(n) == n && twos(n as int) == n,
        i64::MIN <= i <= i64::MAX ==> from_twos(twos(i)) == i,
        n < 0x1_0000_0000_0000_0000 ==> twos(from_twos(n)) == n,
{
}

/// An owner in a context is the number that stands there, and the superuser where none does.
pub proof fn owners_are_read_from_the_context(
    context: Map<Seq<char>, Seq<char>>,
    key: Seq<char>,
    n: nat,
)
    ensures
        n <= u32::MAX && context.dom().contains(key) && context[key] == decimal(n) ==> context_id(
            context,
            key,
        ) == n,
        !context.dom().contains(key) ==> context_id(context, key) == 0,
{
    if n <= u32::MAX {
        decimal_reads_back(n, u32::MAX as nat);
    }
}

/// The nodes of a volume are stored with commas between them, and the spaces around each do not
/// count.
pub proof fn nodes_are_parted_by_commas(a: Seq<char>, b: Seq<char>)
    requires
        !a.contains(','),
    ensures
        listed_nodes(None).len() == 0,
        a.len() == 0 ==> listed_nodes(Some(a)).len() == 0,
        a.len() > 0 ==> listed_nodes(Some(a)) == seq![trimmed(a)],
        b.len() > 0 ==> listed_nodes(Some(a + seq![','] + b)) == seq![trimmed(a)] + listed_nodes(
            Some(b),
        ),
{
    every_separator_parts(a, ',', b);
    parts_make_up_the_text(b, ',');
    if a.len() > 0 {
        assert(listed_nodes(Some(a)) =~= seq![trimmed(a)]);
    }
    if b.len() > 0 {
        assert(listed_nodes(Some(a + seq![','] + b)) =~= seq![trimmed(a)] + listed_nodes(Some(b)));
    }
}

/// A creation waits for what it has asked for, and for nothing when it is over.
pub proof fn creations_wait_for_what_was_asked(e: CreateEventView, s: CreateStateView)
    ensures
        is_awaited(CreateStateView::Probing, e) == (e is Shown),
        is_awaited(CreateStateView::Existing, e) == (e is VolumeId),
        is_awaited(CreateStateView::Creating, e) == (e is Created || e is NotRun),
        s is Raced ==> is_awaited(s, e) == (e is VolumeId),
        !is_awaited(CreateStateView::Configuring, e),
        !is_awaited(CreateStateView::Finished, e),
{
}

/// A publication waits for what it has asked for, and for nothing when it is over.
pub proof fn publications_wait_for_what_was_asked(e: PublishEventView, s: PublishStateView)
    ensures
        publish_awaits(PublishStateView::Finding, e) == (e is Entries),
        s is Checking ==> publish_awaits(s, e) == (e is Status),
        s is Voting ==> publish_awaits(s, e) == (e is Lease || e is NoVote),
        s is Listing ==> publish_awaits(s, e) == (e is Published),
        !publish_awaits(PublishStateView::Finished, e),
{
}

/// The creation of a snapshot waits for what it has asked for, and for nothing when it is over.
pub proof fn snapshots_wait_for_what_was_asked(e: SnapshotEventView)
    ensures
        snapshot_awaits(SnapshotState::Probing, e) == (e is Shown),
        snapshot_awaits(SnapshotState::Reading, e) == (e is Entry),
        snapshot_awaits(SnapshotState::Finding, e) == (e is Entries),
        snapshot_awaits(SnapshotState::Making, e) == (e is Made),
        !snapshot_awaits(SnapshotState::Completing, e),
        !snapshot_awaits(SnapshotState::Finished, e),
{
}

/// A volume is reported as the first entry with its identifier states it, and one without an entry is
/// not found. Its capabilities are confirmed where it is found.
pub proof fn volumes_are_answered_for_by_their_entries(
    e: Seq<DirEntryView>,
    id: Seq<char>,
    i: int,
    n: nat,
)
    requires
        n < 0x8000_0000_0000_0000,
    ensures
        0 <= i < e.len() && e[i].volume_id == Some(id) && (forall|j: int|
            0 <= j < i ==> (#[trigger] e[j]).volume_id != Some(id)) ==> {
            &&& volume_found(e, id) is Ok
            &&& volume_found(e, id)->Ok_0.volume_id == id
            &&& e[i].size == Some(decimal(n)) ==> volume_found(e, id)->Ok_0.capacity_bytes == n
            &&& e[i].size is None ==> volume_found(e, id)->Ok_0.capacity_bytes == 0
            &&& id.len() > 0 ==> capability_objection(e, id) is None
        },
        (forall|j: int| 0 <= j < e.len() ==> (#[trigger] e[j]).volume_id != Some(id)) ==> {
            &&& volume_found(e, id) == Err::<VolumeView, CsiErrorView>(
                CsiErrorView::NotFound("Volume "@ + id + " not found"@),
            )
            &&& id.len() > 0 ==> capability_objection(e, id) == Some(
                CsiErrorView::NotFound("Volume "@ + id + " not found"@),
            )
        },
        id.len() == 0 ==> capability_objection(e, id) == Some(
            CsiErrorView::InvalidArgument("volume_id is required"@),
        ),
{
    let ids = volume_ids(e);
    first_entry_is_found(ids, id);
    decimal_reads_back(n, u64::MAX as nat);
    assert forall|j: int| 0 <= j < e.len() implies #[trigger] ids[j] == e[j].volume_id by {}
    match first_with(ids, id) {
        Some(k) => {
            assert(e[k].volume_id == ids[k]);
            assert(0 <= i < k ==> ids[i] == e[i].volume_id);
        },
        None => {
            assert(0 <= i < e.len() ==> ids[i] == e[i].volume_id);
        },
    }
}

/// A snapshot is deleted by the name of the first entry with its identifier; without such an entry
/// there is nothing to do.
pub proof fn snapshots_are_deleted_by_their_names(
    e: Seq<DirEntryView>,
    id: Seq<char>,
    dir: Seq<char>,
    i: int,
)
    requires
        0 <= i < e.len(),
    ensures
        e[i].snapshot_id == Some(id) && (forall|j: int|
            0 <= j < i ==> (#[trigger] e[j]).snapshot_id != Some(id)) ==> snapshot_deletion(
            e,
            id,
            dir,
        ) == Some(
            CommandView {
                program: "btrfs"@,
                args: seq!["subvolume"@, "delete"@, dir + "/"@ + e[i].name],
            },
        ),
        (forall|j: int| 0 <= j < e.len() ==> (#[trigger] e[j]).snapshot_id != Some(id))
            ==> snapshot_deletion(e, id, dir) is None,
{
    entries_are_found_by_their_identifiers(e, id, i);
    assert(seq!["subvolume"@] + seq!["delete"@, dir + "/"@ + e[i].name] =~= seq![
        "subvolume"@,
        "delete"@,
        dir + "/"@ + e[i].name,
    ]);
}

/// What is used and what is available make up the total, and so it is with the inodes, which are
/// given in decimal. Where more is used than there is, nothing is reported.
pub proof fn statistics_add_up(
    usage: Seq<char>,
    inodes: Seq<char>,
    total: u64,
    used: u64,
    all: u64,
    taken: u64,
)
    requires
        usage_in(lines(usage)) == (total, used),
        inodes_in(body_lines(lines(inodes))) == (all, taken),
    ensures
        used > total ==> stats_of(usage, Some(inodes)) is None && stats_of(usage, None) is None,
        used <= total < 0x8000_0000_0000_0000 ==> {
            &&& stats_of(usage, Some(inodes)) is Some
            &&& stats_of(usage, Some(inodes))->0.total == total
            &&& stats_of(usage, Some(inodes))->0.used == used
            &&& stats_of(usage, Some(inodes))->0.available + used == total
            &&& stats_of(usage, Some(inodes))->0.attributes["inode_total"@] == decimal(all as nat)
            &&& stats_of(usage, Some(inodes))->0.attributes["inode_used"@] == decimal(taken as nat)
            &&& taken <= all ==> stats_of(usage, Some(inodes))->0.attributes["inode_available"@]
                == decimal((all - taken) as nat)
            &&& taken > all ==> stats_of(usage, Some(inodes))->0.attributes["inode_available"@]
                == decimal(0)
            &&& stats_of(usage, None)->0.attributes["inode_total"@] == decimal(0)
        },
{
    reveal_strlit("inode_total");
    reveal_strlit("inode_used");
    reveal_strlit("inode_available");
    assert("inode_total"@.len() == 11 && "inode_used"@.len() == 10 && "inode_available"@.len()
        == 15);
}

/// What is known of the writes to a volume is remembered as it was told, and a synchronisation
/// renews its epoch, names the source and makes the volume active. Other volumes, and volumes that
/// are not known, are not concerned.
pub proof fn writes_to_a_volume_are_remembered(
    s: GossipView,
    id: Seq<char>,
    epoch: u64,
    clock: Seq<(Seq<char>, u64)>,
    status: Seq<char>,
    from: Seq<char>,
    other: Seq<char>,
)
    requires
        other != id,
    ensures
        ({
            let k = epoch_known(s, id, epoch, clock, status);
            &&& k.epochs.dom().contains(id)
            &&& k.epochs[id].volume_id == id
            &&& k.epochs[id].epoch == epoch
            &&& k.epochs[id].vector_clock == clock
            &&& k.epochs[id].status == status
            &&& k.epochs[id].last_synced_from is None
            &&& k.epochs.dom().contains(other) == s.epochs.dom().contains(other)
            &&& s.epochs.dom().contains(other) ==> k.epochs[other] == s.epochs[other]
            &&& k == (GossipView { epochs: k.epochs, ..s })
        }),
        ({
            let k = epoch_synced(s, id, epoch, from);
            &&& !s.epochs.dom().contains(id) ==> k == s
            &&& s.epochs.dom().contains(id) ==> {
                &&& k.epochs.dom().contains(id)
                &&& k.epochs[id].epoch == epoch
                &&& k.epochs[id].status == "active"@
                &&& k.epochs[id].last_synced_from == Some(from)
                &&& k.epochs[id].vector_clock == s.epochs[id].vector_clock
                &&& k.epochs[id].volume_id == s.epochs[id].volume_id
                &&& k.epochs.dom().contains(other) == s.epochs.dom().contains(other)
                &&& s.epochs.dom().contains(other) ==> k.epochs[other] == s.epochs[other]
                &&& k == (GossipView { epochs: k.epochs, ..s })
            }
        }),
{
}

/// The status of a volume is the one it was given last; nothing else changes, and a volume that is
/// not known stays unknown.
pub proof fn status_is_the_last_given(
    m: VolumeManagerView,
    name: Seq<char>,
    status: Seq<char>,
    other: Seq<char>,
)
    requires
        distinct(m.volumes),
        other != name,
    ensures
        !has_key(m.volumes, name) ==> with_status(m, name, status) == m,
        has_key(m.volumes, name) ==> {
            let k = with_status(m, name, status);
            &&& has_key(k.volumes, name)
            &&& map_of(k.volumes)[name].status == status
            &&& map_of(k.volumes)[name].size == map_of(m.volumes)[name].size
            &&& map_of(k.volumes)[name].id == map_of(m.volumes)[name].id
            &&& map_of(k.volumes)[name].node_id == map_of(m.volumes)[name].node_id
            &&& map_of(k.volumes)[name].created_at == map_of(m.volumes)[name].created_at
            &&& has_key(k.volumes, other) == has_key(m.volumes, other)
            &&& has_key(m.volumes, other) ==> map_of(k.volumes)[other] == map_of(m.volumes)[other]
            &&& k == (VolumeManagerView { volumes: k.volumes, ..m })
        },
{
    if has_key(m.volumes, name) {
        let v = VolumeInfoView { status, ..map_of(m.volumes)[name] };
        entry_reads_back(m.volumes, name, v);
        other_entries_stay(m.volumes, name, v, other);
    }
}

} // verus!
