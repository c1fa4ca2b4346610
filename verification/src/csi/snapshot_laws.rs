//! What the creation and listing of snapshots, and the service over the cluster's own transport,
//! promise.

use vstd::prelude::*;
use vstd::string::*;

use crate::csi::controller::{first_with, snapshot_ids, volume_ids, DirEntryView};
use crate::csi::error::CsiErrorView;
use crate::csi::server::{
    completed_answer, completed_replicator, completed_volumes, endpoint_address, response_kind,
    server_step, CsiRequestView, CsiResponseView, ServerStepView,
};
use crate::csi::snapshots::{
    snapshot_action, snapshot_attributes, snapshot_next, snapshot_of, snapshots_in,
    CreateSnapshotView, SnapshotActionView, SnapshotEventView, SnapshotState,
};
use crate::csi::volume_laws::first_entry_is_found;
use crate::exchange::replicator::ReplicatorView;
use crate::exchange::volume_manager::{new_volume, sum_of_sizes, with_subvolumes, VolumeManagerView};
use crate::number::{decimal, decimal_reads_back, signed_decimal_reads_back};
use crate::ops::commands::CommandView;
use crate::ops::subvolume::SubvolumeView;
use crate::protocol::message::MessageType;
use crate::protocol::payload::{CreateVolumeResponseView, VolumeInfoView};
use crate::table::{
    distinct, entry_reads_back, has_key, map_of, other_entries_remain, other_entries_stay,
    removed_entry_is_gone,
};
use crate::text::{has, stands_at};

verus! {

broadcast use vstd::string::group_string_axioms;

/// A snapshot is read-only, and is made of the first volume with the identifier that is asked for,
/// under the snapshot's name in the directory of the volumes. Without such a volume there is none.
pub proof fn snapshot_is_made_of_its_source(
    v: CreateSnapshotView,
    e: Seq<DirEntryView>,
    dir: Seq<char>,
    i: int,
)
    requires
        v.state == SnapshotState::Finding,
    ensures
        0 <= i < e.len() && e[i].volume_id == Some(v.source_volume_id) && (forall|j: int|
            0 <= j < i ==> (#[trigger] e[j]).volume_id != Some(v.source_volume_id)) ==> {
            &&& snapshot_action(v, SnapshotEventView::Entries(e), dir) == SnapshotActionView::Run(
                CommandView {
                    program: "btrfs"@,
                    args: seq![
                        "subvolume"@,
                        "snapshot"@,
                        "-r"@,
                        dir + "/"@ + e[i].name,
                        dir + "/"@ + v.name,
                    ],
                },
            )
            &&& snapshot_next(v, SnapshotEventView::Entries(e)) == SnapshotState::Making
        },
        (forall|j: int| 0 <= j < e.len() ==> (#[trigger] e[j]).volume_id != Some(
            v.source_volume_id,
        )) ==> {
            &&& snapshot_action(v, SnapshotEventView::Entries(e), dir)
                == SnapshotActionView::Refuse(
                CsiErrorView::NotFound("Source volume "@ + v.source_volume_id + " not found"@),
            )
            &&& snapshot_next(v, SnapshotEventView::Entries(e)) == SnapshotState::Finished
        },
{
    let ids = volume_ids(e);
    first_entry_is_found(ids, v.source_volume_id);
    if 0 <= i < e.len() && e[i].volume_id == Some(v.source_volume_id) && (forall|j: int|
        0 <= j < i ==> (#[trigger] e[j]).volume_id != Some(v.source_volume_id)) {
        assert(ids[i] == Some(v.source_volume_id));
        assert forall|j: int| 0 <= j < i implies #[trigger] ids[j] != Some(
            v.source_volume_id,
        ) by {
            assert(e[j].volume_id != Some(v.source_volume_id));
        }
        assert(first_with(ids, v.source_volume_id) == Some(i));
        let a = snapshot_action(v, SnapshotEventView::Entries(e), dir);
        assert(a->Run_0.args =~= seq![
            "subvolume"@,
            "snapshot"@,
            "-r"@,
            dir + "/"@ + e[i].name,
            dir + "/"@ + v.name,
        ]);
    }
    if forall|j: int| 0 <= j < e.len() ==> (#[trigger] e[j]).volume_id != Some(v.source_volume_id) {
        match first_with(ids, v.source_volume_id) {
            Some(k) => {
                assert(e[k].volume_id != Some(v.source_volume_id));
            },
            None => {},
        }
    }
}

/// A subvolume that is there with a snapshot's identifier is answered with; in every other case a
/// snapshot is made. One that could be made is completed, and one that could not is refused with
/// the reason.
pub proof fn snapshot_is_made_once(
    v: CreateSnapshotView,
    x: DirEntryView,
    dir: Seq<char>,
    why: Seq<char>,
)
    ensures
        ({
            let w = CreateSnapshotView { state: SnapshotState::Probing, ..v };
            &&& snapshot_next(w, SnapshotEventView::Shown(true)) == SnapshotState::Reading
            &&& snapshot_next(w, SnapshotEventView::Shown(false)) == SnapshotState::Finding
            &&& snapshot_action(w, SnapshotEventView::Shown(true), dir) is ReadEntry
            &&& snapshot_action(w, SnapshotEventView::Shown(false), dir) is ReadEntries
        }),
        ({
            let w = CreateSnapshotView { state: SnapshotState::Reading, ..v };
            let a = snapshot_action(w, SnapshotEventView::Entry(x), dir);
            &&& x.snapshot_id is None ==> a is ReadEntries && snapshot_next(
                w,
                SnapshotEventView::Entry(x),
            ) == SnapshotState::Finding
            &&& x.snapshot_id matches Some(id) ==> a is Reply && a->Reply_0.snapshot_id == id
                && snapshot_next(w, SnapshotEventView::Entry(x)) == SnapshotState::Finished
        }),
        ({
            let w = CreateSnapshotView { state: SnapshotState::Making, ..v };
            &&& snapshot_action(w, SnapshotEventView::Made(None), dir) is Complete
            &&& snapshot_next(w, SnapshotEventView::Made(None)) == SnapshotState::Completing
            &&& snapshot_action(w, SnapshotEventView::Made(Some(why)), dir)
                == SnapshotActionView::Refuse(
                CsiErrorView::Internal("Failed to create snapshot: "@ + why),
            )
            &&& snapshot_next(w, SnapshotEventView::Made(Some(why))) == SnapshotState::Finished
        }),
{
}

/// A snapshot is stored with its identifier, its source, its name and its time, and what is stored
/// is what is reported of it.
pub proof fn snapshot_is_stored_with_its_source(
    e: DirEntryView,
    name: Seq<char>,
    id: Seq<char>,
    source: Seq<char>,
    now: i64,
)
    ensures
        ({
            let a = snapshot_attributes(name, id, source, now);
            &&& a.len() == 5
            &&& a[0] == ("snapshot_id"@, id)
            &&& a[1] == ("source_volume_id"@, source)
            &&& a[2] == ("snapshot_name"@, name)
            &&& a[3] == ("size"@, decimal(0))
            &&& a[4].0 == "creation_time"@
            &&& e.source_volume_id == Some(a[1].1) && e.creation_time == Some(a[4].1) ==> {
                &&& snapshot_of(e, id).snapshot_id == id
                &&& snapshot_of(e, id).source_volume_id == source
                &&& snapshot_of(e, id).creation_time == now
            }
        }),
        e.source_volume_id is None ==> snapshot_of(e, id).source_volume_id.len() == 0,
        e.creation_time is None ==> snapshot_of(e, id).creation_time == 0,
        e.size is None ==> snapshot_of(e, id).size_bytes == 0,
{
    signed_decimal_reads_back(now as int);
}

/// The size that is reported of a snapshot is the one that is stored.
pub proof fn snapshot_size_reads_back(e: DirEntryView, id: Seq<char>, n: nat)
    requires
        n < 0x8000_0000_0000_0000,
        e.size == Some(decimal(n)),
    ensures
        snapshot_of(e, id).size_bytes == n,
{
    decimal_reads_back(n, u64::MAX as nat);
}

/// Every entry with a snapshot's identifier is listed, in its order; where a source is asked for,
/// only those that were made of it. Other entries are not listed.
pub proof fn every_snapshot_is_listed(e: Seq<DirEntryView>, x: DirEntryView, source: Seq<char>)
    ensures
        x.snapshot_id is None ==> snapshots_in(e.push(x), source) == snapshots_in(e, source),
        x.snapshot_id matches Some(id) ==> {
            &&& source.len() == 0 || x.source_volume_id == Some(source) ==> {
                &&& snapshots_in(e.push(x), source).len() == snapshots_in(e, source).len() + 1
                &&& snapshots_in(e.push(x), source).drop_last() == snapshots_in(e, source)
                &&& snapshots_in(e.push(x), source).last().snapshot_id == id
                &&& x.source_volume_id matches Some(s) ==> snapshots_in(
                    e.push(x),
                    source,
                ).last().source_volume_id == s
            }
            &&& source.len() > 0 && x.source_volume_id != Some(source) ==> snapshots_in(
                e.push(x),
                source,
            ) == snapshots_in(e, source)
        },
        snapshots_in(Seq::empty(), source).len() == 0,
{
    assert(e.push(x).drop_last() =~= e);
    match x.snapshot_id {
        Some(id) => {
            if source.len() == 0 || x.source_volume_id == Some(source) {
                assert(snapshots_in(e.push(x), source).drop_last() =~= snapshots_in(e, source));
            }
        },
        None => {},
    }
}

/// A snapshot is found by its own identifier, and a volume by its own: the first entry that has it
/// counts.
pub proof fn entries_are_found_by_their_identifiers(e: Seq<DirEntryView>, id: Seq<char>, i: int)
    requires
        0 <= i < e.len(),
    ensures
        volume_ids(e).len() == e.len(),
        volume_ids(e)[i] == e[i].volume_id,
        snapshot_ids(e).len() == e.len(),
        snapshot_ids(e)[i] == e[i].snapshot_id,
        e[i].snapshot_id == Some(id) && (forall|j: int|
            0 <= j < i ==> (#[trigger] e[j]).snapshot_id != Some(id)) ==> first_with(
            snapshot_ids(e),
            id,
        ) == Some(i),
        (forall|j: int| 0 <= j < e.len() ==> (#[trigger] e[j]).snapshot_id != Some(id))
            ==> first_with(snapshot_ids(e), id) is None,
{
    let ids = snapshot_ids(e);
    first_entry_is_found(ids, id);
    assert forall|j: int| 0 <= j < e.len() implies #[trigger] ids[j] == e[j].snapshot_id by {}
    match first_with(ids, id) {
        Some(k) => {
            assert(e[k].snapshot_id == ids[k]);
            if k < i {
                assert(e[k].snapshot_id == Some(id));
            }
        },
        None => {
            assert(ids[i] != Some(id));
        },
    }
}

/// An endpoint with a colon is the address itself, one without is a port on all addresses, and a
/// Unix socket stands for the default port.
pub proof fn endpoint_is_an_address_or_a_port(endpoint: Seq<char>, rest: Seq<char>)
    ensures
        endpoint == "unix://"@ + rest ==> endpoint_address(endpoint) == "0.0.0.0:9201"@,
        !stands_at(endpoint, "unix://"@, 0) && has(endpoint, ":"@) ==> endpoint_address(endpoint)
            == endpoint,
        has(endpoint, ":"@) == false && !stands_at(endpoint, "unix://"@, 0) ==> endpoint_address(
            endpoint,
        ) == "0.0.0.0:"@ + endpoint,
{
    reveal_strlit("unix://");
    if endpoint == "unix://"@ + rest {
        assert(endpoint.subrange(0, 7) =~= "unix://"@);
        assert(stands_at(endpoint, "unix://"@, 0));
    }
}

/// A request for a volume is answered with what is known of it, and a list with all volumes in
/// their order. Creation and deletion run their command on the subvolume of the name.
pub proof fn requests_are_served(m: VolumeManagerView, name: Seq<char>, size: u64, n: u32)
    ensures
        server_step(CsiRequestView::CreateVolume { name, size, replica_count: n }, m)
            == ServerStepView::Run(
            CommandView {
                program: "btrfs"@,
                args: seq!["subvolume"@, "create"@, m.data_dir + "/"@ + name],
            },
        ),
        server_step(CsiRequestView::DeleteVolume { volume_id: name }, m) == ServerStepView::Run(
            CommandView {
                program: "btrfs"@,
                args: seq!["subvolume"@, "delete"@, m.data_dir + "/"@ + name],
            },
        ),
        has_key(m.volumes, name) ==> server_step(
            CsiRequestView::GetVolumeInfo { volume_id: name },
            m,
        ) == ServerStepView::Answer(CsiResponseView::Info(map_of(m.volumes)[name])),
        !has_key(m.volumes, name) ==> server_step(
            CsiRequestView::GetVolumeInfo { volume_id: name },
            m,
        ) == ServerStepView::Answer(CsiResponseView::NoInfo("Volume not found"@)),
        server_step(CsiRequestView::VolumeList, m) matches ServerStepView::Answer(
            CsiResponseView::Volumes(l),
        ) && l.len() == m.volumes.len() && forall|i: int|
            0 <= i < l.len() ==> #[trigger] l[i] == m.volumes[i].1,
        server_step(CsiRequestView::Other, m) is Ignore,
{
    let a = server_step(CsiRequestView::CreateVolume { name, size, replica_count: n }, m);
    assert(a->Run_0.args =~= seq!["subvolume"@, "create"@, m.data_dir + "/"@ + name]);
    let b = server_step(CsiRequestView::DeleteVolume { volume_id: name }, m);
    assert(b->Run_0.args =~= seq!["subvolume"@, "delete"@, m.data_dir + "/"@ + name]);
}

/// A creation or deletion whose command succeeded takes effect and is confirmed; one whose command
/// failed changes nothing and says so.
pub proof fn commands_decide_on_requests(
    m: VolumeManagerView,
    r: ReplicatorView,
    name: Seq<char>,
    size: u64,
    n: u32,
    now: i64,
    other: Seq<char>,
)
    requires
        distinct(m.volumes),
        distinct(r.states),
        other != name,
    ensures
        ({
            let q = CsiRequestView::CreateVolume { name, size, replica_count: n };
            let after = completed_volumes(q, true, m, now);
            &&& completed_answer(q, true, m) == Ok::<CsiResponseView, Seq<char>>(
                CsiResponseView::Created(
                    CreateVolumeResponseView {
                        volume_id: name,
                        node_id: m.node_id,
                        path: m.data_dir + "/"@ + name,
                    },
                ),
            )
            &&& completed_answer(q, false, m) == Err::<CsiResponseView, Seq<char>>(
                "Failed to create subvolume"@,
            )
            &&& completed_volumes(q, false, m, now) == m
            &&& completed_replicator(q, false, r) == r
            &&& has_key(after.volumes, name)
            &&& map_of(after.volumes)[name] == (VolumeInfoView {
                id: name,
                name,
                size,
                node_id: m.node_id,
                zone: m.zone,
                status: "active"@,
                created_at: now,
            })
            &&& has_key(after.volumes, other) == has_key(m.volumes, other)
            &&& has_key(m.volumes, other) ==> map_of(after.volumes)[other] == map_of(
                m.volumes,
            )[other]
            &&& after == (VolumeManagerView { volumes: after.volumes, ..m })
            &&& has_key(completed_replicator(q, true, r).states, name) == (n > 0 || has_key(
                r.states,
                name,
            ))
        }),
        ({
            let q = CsiRequestView::DeleteVolume { volume_id: name };
            let after = completed_volumes(q, true, m, now);
            &&& completed_answer(q, true, m) == Ok::<CsiResponseView, Seq<char>>(
                CsiResponseView::Deleted,
            )
            &&& completed_answer(q, false, m) == Err::<CsiResponseView, Seq<char>>(
                "Failed to delete subvolume"@,
            )
            &&& completed_volumes(q, false, m, now) == m
            &&& completed_replicator(q, true, r) == r
            &&& !has_key(after.volumes, name)
            &&& has_key(after.volumes, other) == has_key(m.volumes, other)
            &&& has_key(m.volumes, other) ==> map_of(after.volumes)[other] == map_of(
                m.volumes,
            )[other]
            &&& after == (VolumeManagerView { volumes: after.volumes, ..m })
        }),
{
    let v = new_volume(m, name, size, now);
    entry_reads_back(m.volumes, name, v);
    other_entries_stay(m.volumes, name, v, other);
    removed_entry_is_gone(m.volumes, name);
    other_entries_remain(m.volumes, name, other);
    let f = crate::exchange::replicator::fresh_state(name, Seq::empty());
    entry_reads_back(r.states, name, f);
}

/// Answers come in messages of their own kinds.
pub proof fn answers_have_their_kinds(c: CreateVolumeResponseView, v: VolumeInfoView, e: Seq<char>)
    ensures
        response_kind(CsiResponseView::Created(c)) == MessageType::CreateVolumeAck,
        response_kind(CsiResponseView::Deleted) == MessageType::DeleteVolumeAck,
        response_kind(CsiResponseView::Info(v)) == MessageType::GetVolumeInfoAck,
        response_kind(CsiResponseView::NoInfo(e)) == MessageType::GetVolumeInfoAck,
        response_kind(CsiResponseView::Volumes(seq![v])) == MessageType::VolumeListAck,
{
}

proof fn lemma_with_subvolumes(m: VolumeManagerView, s: Seq<SubvolumeView>, now: i64)
    requires
        distinct(m.volumes),
    ensures
        distinct(with_subvolumes(m, s, now)),
    decreases s.len(),
{
    if s.len() > 0 {
        lemma_with_subvolumes(m, s.drop_last(), now);
        entry_reads_back(
            with_subvolumes(m, s.drop_last(), now),
            s.last().name,
            new_volume(m, s.last().name, s.last().size, now),
        );
    }
}

/// Every subvolume that is found is taken in as a volume of its name and size, of this node and
/// its zone; the volumes that were known under other names stay.
pub proof fn found_subvolume_is_a_volume(
    m: VolumeManagerView,
    s: Seq<SubvolumeView>,
    x: SubvolumeView,
    now: i64,
    other: Seq<char>,
)
    requires
        distinct(m.volumes),
        other != x.name,
    ensures
        ({
            let before = with_subvolumes(m, s, now);
            let after = with_subvolumes(m, s.push(x), now);
            &&& has_key(after, x.name)
            &&& map_of(after)[x.name] == (VolumeInfoView {
                id: x.name,
                name: x.name,
                size: x.size,
                node_id: m.node_id,
                zone: m.zone,
                status: "active"@,
                created_at: now,
            })
            &&& has_key(after, other) == has_key(before, other)
            &&& has_key(before, other) ==> map_of(after)[other] == map_of(before)[other]
            &&& with_subvolumes(m, Seq::empty(), now) == m.volumes
        }),
{
    assert(s.push(x).drop_last() =~= s);
    lemma_with_subvolumes(m, s, now);
    let v = new_volume(m, x.name, x.size, now);
    entry_reads_back(with_subvolumes(m, s, now), x.name, v);
    other_entries_stay(with_subvolumes(m, s, now), x.name, v, other);
}

/// The total of the sizes grows by the size of each volume.
pub proof fn sizes_add_up(
    v: Seq<(Seq<char>, VolumeInfoView)>,
    name: Seq<char>,
    x: VolumeInfoView,
)
    ensures
        sum_of_sizes(Seq::empty()) == 0,
        sum_of_sizes(v.push((name, x))) == sum_of_sizes(v) + x.size,
{
    assert(v.push((name, x)).drop_last() =~= v);
}

} // verus!
