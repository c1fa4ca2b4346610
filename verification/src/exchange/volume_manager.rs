//! The volumes of a node.

use vstd::prelude::*;
use vstd::string::*;

use crate::exchange::config::ExchangeConfig;
use crate::exchange::replicator::{fresh_state, Replicator, ReplicatorView};
use crate::ops::commands::{below, btrfs_call, CommandLine};
use crate::ops::subvolume::{subvolume_views, Subvolume, SubvolumeManager, SubvolumeView};
use crate::protocol::payload::{volume_views, VolumeInfo, VolumeInfoView};
use crate::table::{
    distinct, entry_reads_back, has_key, map_of, removed_entry_is_gone, values_of, with_entry,
    without_entry, Table,
};
use crate::text::string_views;

verus! {

broadcast use vstd::string::group_string_axioms;

/// Keeps the volumes of a node.
pub struct VolumeManager {
    node_id: String,
    zone: String,
    subvol_manager: SubvolumeManager,
    volumes: Table<VolumeInfo>,
}

/// What is known of the volumes of a node.
#[verifier::ext_equal]
pub struct VolumeManagerView {
    pub node_id: Seq<char>,
    pub zone: Seq<char>,
    pub data_dir: Seq<char>,
    /// The volumes by name, in the order in which they became known.
    pub volumes: Seq<(Seq<char>, VolumeInfoView)>,
}

impl View for VolumeManager {
    type V = VolumeManagerView;

    closed spec fn view(&self) -> VolumeManagerView {
        VolumeManagerView {
            node_id: self.node_id@,
            zone: self.zone@,
            data_dir: self.subvol_manager@,
            volumes: self.volumes.listing(),
        }
    }
}

/// What is known of the volumes once one of them has another status.
pub open spec fn with_status(
    m: VolumeManagerView,
    name: Seq<char>,
    status: Seq<char>,
) -> VolumeManagerView {
    if has_key(m.volumes, name) {
        VolumeManagerView {
            volumes: with_entry(
                m.volumes,
                name,
                VolumeInfoView { status, ..map_of(m.volumes)[name] },
            ),
            ..m
        }
    } else {
        m
    }
}

/// A volume of the node, as it is described when it becomes known.
pub open spec fn new_volume(
    m: VolumeManagerView,
    name: Seq<char>,
    size: u64,
    now: i64,
) -> VolumeInfoView {
    VolumeInfoView {
        id: name,
        name,
        size,
        node_id: m.node_id,
        zone: m.zone,
        status: "active"@,
        created_at: now,
    }
}

/// The volumes with a new one, whose subvolume was created at the time `now`.
pub open spec fn with_new_volume(
    m: VolumeManagerView,
    name: Seq<char>,
    size: u64,
    now: i64,
) -> VolumeManagerView {
    VolumeManagerView {
        volumes: with_entry(m.volumes, name, new_volume(m, name, size, now)),
        ..m
    }
}

/// The volumes without one of them.
pub open spec fn without_volume(m: VolumeManagerView, name: Seq<char>) -> VolumeManagerView {
    VolumeManagerView { volumes: without_entry(m.volumes, name), ..m }
}

/// What a replicator knows once a new volume has been registered, if it is to have replicas.
pub open spec fn registered(
    r: ReplicatorView,
    name: Seq<char>,
    replica_count: u32,
) -> ReplicatorView {
    if replica_count > 0 {
        ReplicatorView {
            states: with_entry(r.states, name, fresh_state(name, Seq::empty())),
            ..r
        }
    } else {
        r
    }
}

/// What a replicator knows once a volume has been taken off replication.
pub open spec fn unregistered(r: ReplicatorView, name: Seq<char>) -> ReplicatorView {
    ReplicatorView { states: without_entry(r.states, name), ..r }
}

/// The volumes with those of subvolumes that were found at the time `now`.
pub open spec fn with_subvolumes(
    m: VolumeManagerView,
    s: Seq<SubvolumeView>,
    now: i64,
) -> Seq<(Seq<char>, VolumeInfoView)>
    decreases s.len(),
{
    if s.len() == 0 {
        m.volumes
    } else {
        with_entry(
            with_subvolumes(m, s.drop_last(), now),
            s.last().name,
            new_volume(m, s.last().name, s.last().size, now),
        )
    }
}

/// The sum of the sizes of volumes.
pub open spec fn sum_of_sizes(v: Seq<(Seq<char>, VolumeInfoView)>) -> nat
    decreases v.len(),
{
    if v.len() == 0 {
        0
    } else {
        sum_of_sizes(v.drop_last()) + v.last().1.size as nat
    }
}

proof fn lemma_sum_prefix(v: Seq<(Seq<char>, VolumeInfoView)>, k: int)
    requires
        0 <= k <= v.len(),
    ensures
        sum_of_sizes(v.take(k)) <= sum_of_sizes(v),
    decreases v.len() - k,
{
    if k < v.len() {
        assert(v.take(k + 1).drop_last() =~= v.take(k));
        lemma_sum_prefix(v, k + 1);
    } else {
        assert(v.take(k) =~= v);
    }
}

impl VolumeManager {
    /// Whether no volume is kept twice.
    pub open spec fn wf(&self) -> bool {
        distinct(self@.volumes)
    }

    /// A manager that knows of no volume.
    pub fn new(config: &ExchangeConfig) -> (r: VolumeManager)
        ensures
            r.wf(),
            r@ == (VolumeManagerView {
                node_id: config.node_id@,
                zone: config.zone@,
                data_dir: config.replication.data_dir@,
                volumes: Seq::empty(),
            }),
    {
        VolumeManager {
            node_id: config.node_id.clone(),
            zone: config.zone.clone(),
            subvol_manager: SubvolumeManager::new(config.replication.data_dir.as_str()),
            volumes: Table::new(),
        }
    }

    fn describe(&self, name: &str, size: u64, now: i64) -> (r: VolumeInfo)
        ensures
            r@ == new_volume(self@, name@, size, now),
    {
        VolumeInfo {
            id: name.to_owned(),
            name: name.to_owned(),
            size,
            node_id: self.node_id.clone(),
            zone: self.zone.clone(),
            status: "active".to_owned(),
            created_at: now,
        }
    }

    /// The command that lists the subvolumes, from which the volumes are loaded.
    pub fn list_command(&self) -> (r: CommandLine)
        ensures
            r@ == btrfs_call("subvolume"@, seq!["list"@, self@.data_dir]),
    {
        self.subvol_manager.list_command()
    }

    /// Takes in the subvolumes that were found at the time `now`.
    pub fn load_volumes(&mut self, subvolumes: &Vec<Subvolume>, now: i64)
        requires
            old(self).wf(),
        ensures
            final(self).wf(),
            final(self)@ == (VolumeManagerView {
                volumes: with_subvolumes(old(self)@, subvolume_views(subvolumes@), now),
                ..old(self)@
            }),
    {
        let ghost start = self@;
        let ghost all = subvolume_views(subvolumes@);
        let mut i: usize = 0;
        assert(all.take(0) =~= Seq::<SubvolumeView>::empty());
        while i < subvolumes.len()
            invariant
                i <= subvolumes@.len(),
                all == subvolume_views(subvolumes@),
                self.wf(),
                self@ == (VolumeManagerView {
                    volumes: with_subvolumes(start, all.take(i as int), now),
                    ..start
                }),
            decreases subvolumes@.len() - i,
        {
            let s = &subvolumes[i];
            proof {
                assert(all[i as int] == s@);
                assert(all.take(i + 1).drop_last() =~= all.take(i as int));
            }
            let info = self.describe(s.name.as_str(), s.size, now);
            assert(info@ == new_volume(start, s@.name, s@.size, now));
            self.volumes.insert(s.name.clone(), info);
            i += 1;
        }
        assert(all.take(i as int) =~= all);
    }

    /// The path of the subvolume of a volume.
    pub fn path(&self, name: &str) -> (r: String)
        ensures
            r@ == below(self@.data_dir, name@),
    {
        self.subvol_manager.path(name)
    }

    /// The command that creates the subvolume of a new volume.
    pub fn create_command(&self, name: &str) -> (r: CommandLine)
        ensures
            r@ == btrfs_call("subvolume"@, seq!["create"@, below(self@.data_dir, name@)]),
    {
        self.subvol_manager.create(name)
    }

    /// Takes in a volume whose subvolume was created at the time `now`, and registers it for
    /// replication if it is to have replicas.
    pub fn create_volume(
        &mut self,
        replicator: &mut Replicator,
        name: &str,
        size: u64,
        replica_count: u32,
        now: i64,
    ) -> (r: VolumeInfo)
        requires
            old(self).wf(),
            old(replicator).wf(),
        ensures
            final(self).wf(),
            final(replicator).wf(),
            r@ == new_volume(old(self)@, name@, size, now),
            final(self)@ == with_new_volume(old(self)@, name@, size, now),
            final(replicator)@ == registered(old(replicator)@, name@, replica_count),
    {
        let info = self.describe(name, size, now);
        self.volumes.insert(name.to_owned(), info.clone());
        if replica_count > 0 {
            let none: Vec<String> = Vec::new();
            assert(string_views(none@) =~= Seq::<Seq<char>>::empty());
            replicator.register_volume(name, none);
        }
        info
    }

    /// The command that deletes the subvolume of a volume, which is taken off replication first.
    pub fn begin_delete(&self, replicator: &mut Replicator, name: &str) -> (r: CommandLine)
        requires
            old(replicator).wf(),
        ensures
            final(replicator).wf(),
            final(replicator)@ == unregistered(old(replicator)@, name@),
            r@ == btrfs_call("subvolume"@, seq!["delete"@, below(self@.data_dir, name@)]),
    {
        replicator.unregister_volume(name);
        self.subvol_manager.delete(name)
    }

    /// Forgets a volume whose subvolume was deleted.
    pub fn delete_volume(&mut self, name: &str)
        requires
            old(self).wf(),
        ensures
            final(self).wf(),
            final(self)@ == without_volume(old(self)@, name@),
    {
        self.volumes.remove(name);
    }

    /// A volume by its name.
    pub fn get_volume(&self, name: &str) -> (r: Option<VolumeInfo>)
        requires
            self.wf(),
        ensures
            r is Some == has_key(self@.volumes, name@),
            r matches Some(v) ==> v@ == map_of(self@.volumes)[name@],
    {
        match self.volumes.get(name) {
            Some(v) => Some(v.clone()),
            None => None,
        }
    }

    /// All volumes.
    pub fn list_volumes(&self) -> (r: Vec<VolumeInfo>)
        ensures
            volume_views(r@) == values_of(self@.volumes),
    {
        let mut r: Vec<VolumeInfo> = Vec::new();
        let ghost all = values_of(self@.volumes);
        let mut i: usize = 0;
        assert(volume_views(r@) =~= all.take(0));
        while i < self.volumes.len()
            invariant
                i <= self@.volumes.len(),
                self@.volumes == self.volumes.listing(),
                all == values_of(self@.volumes),
                volume_views(r@) == all.take(i as int),
            decreases self@.volumes.len() - i,
        {
            let ghost before = r@;
            let v = self.volumes.value_at(i).clone();
            r.push(v);
            assert(volume_views(r@) =~= volume_views(before).push(v@));
            assert(all.take(i + 1) =~= all.take(i as int).push(all[i as int]));
            i += 1;
        }
        assert(all.take(i as int) =~= all);
        r
    }

    /// Tells whether there is a volume of that name.
    pub fn volume_exists(&self, name: &str) -> (r: bool)
        requires
            self.wf(),
        ensures
            r == has_key(self@.volumes, name@),
    {
        self.volumes.contains(name)
    }

    /// The number of volumes.
    pub fn volume_count(&self) -> (r: usize)
        ensures
            r == self@.volumes.len(),
    {
        self.volumes.len()
    }

    /// The sum of the sizes of the volumes, if it fits in 64 bits.
    pub fn total_size(&self) -> (r: Option<u64>)
        ensures
            r is Some == (sum_of_sizes(self@.volumes) <= u64::MAX),
            r matches Some(n) ==> n == sum_of_sizes(self@.volumes),
    {
        let ghost e = self@.volumes;
        let mut sum: u64 = 0;
        let mut i: usize = 0;
        assert(e.take(0) =~= Seq::<(Seq<char>, VolumeInfoView)>::empty());
        while i < self.volumes.len()
            invariant
                i <= e.len(),
                e == self.volumes.listing(),
                e == self@.volumes,
                sum == sum_of_sizes(e.take(i as int)),
            decreases e.len() - i,
        {
            let size: u64 = self.volumes.value_at(i).size;
            proof {
                assert(e.take(i + 1).drop_last() =~= e.take(i as int));
                assert(e.take(i + 1).last() == e[i as int]);
                lemma_sum_prefix(e, i + 1);
            }
            if size > 0xffff_ffff_ffff_ffff - sum {
                return None;
            }
            sum = sum + size;
            i += 1;
        }
        assert(e.take(i as int) =~= e);
        Some(sum)
    }

    /// Changes the status of a volume, if there is one of that name.
    pub fn update_status(&mut self, name: &str, status: &str)
        requires
            old(self).wf(),
        ensures
            final(self).wf(),
            final(self)@ == (if has_key(old(self)@.volumes, name@) {
                VolumeManagerView {
                    volumes: with_entry(
                        old(self)@.volumes,
                        name@,
                        VolumeInfoView { status: status@, ..map_of(old(self)@.volumes)[name@] },
                    ),
                    ..old(self)@
                }
            } else {
                old(self)@
            }),
            final(self)@ == with_status(old(self)@, name@, status@),
    {
        let found: Option<VolumeInfo> = match self.volumes.get(name) {
            Some(v) => Some(v.clone()),
            None => None,
        };
        match found {
            Some(old_info) => {
                let mut info = old_info;
                info.status = status.to_owned();
                self.volumes.insert(name.to_owned(), info);
            },
            None => {},
        }
    }
}

/// A volume that was created is found under its name, as it was described.
pub proof fn created_volume_is_found(m: VolumeManagerView, name: Seq<char>, size: u64, now: i64)
    requires
        distinct(m.volumes),
    ensures
        has_key(with_new_volume(m, name, size, now).volumes, name),
        map_of(with_new_volume(m, name, size, now).volumes)[name] == new_volume(
            m,
            name,
            size,
            now,
        ),
{
    entry_reads_back(m.volumes, name, new_volume(m, name, size, now));
}

/// A volume that was deleted is not found any more.
pub proof fn deleted_volume_is_gone(m: VolumeManagerView, name: Seq<char>)
    requires
        distinct(m.volumes),
    ensures
        !has_key(without_volume(m, name).volumes, name),
{
    removed_entry_is_gone(m.volumes, name);
}

} // verus!
