//! The controller service.

use vstd::prelude::*;
use vstd::string::*;

use crate::csi::error::{text3, CsiError, CsiErrorView};
use crate::exchange::config::{VolumeProfile, VolumeProfileView};
use crate::identifier::{fresh_id, is_uuid_v4};
use crate::number::{parse_u64, unsigned_value};
use crate::ops::commands::{below, btrfs_call, path_below, CommandLine};
use crate::table::Table;
use crate::text::{
    contains, has, lines, opt_view, same, split_lines, split_words, views, words,
};

verus! {

broadcast use vstd::string::group_string_axioms;

/// A volume as the service reports it.
#[derive(Debug)]
pub struct Volume {
    pub volume_id: String,
    pub capacity_bytes: i64,
}

/// What is reported of a volume.
#[verifier::ext_equal]
pub struct VolumeView {
    pub volume_id: Seq<char>,
    pub capacity_bytes: int,
}

impl View for Volume {
    type V = VolumeView;

    open spec fn view(&self) -> VolumeView {
        VolumeView { volume_id: self.volume_id@, capacity_bytes: self.capacity_bytes as int }
    }
}

/// A snapshot as the service reports it.
#[derive(Debug)]
pub struct SnapshotEntry {
    pub snapshot_id: String,
    pub source_volume_id: String,
    pub creation_time: i64,
    pub size_bytes: i64,
}

/// What is reported of a snapshot.
#[verifier::ext_equal]
pub struct SnapshotEntryView {
    pub snapshot_id: Seq<char>,
    pub source_volume_id: Seq<char>,
    pub creation_time: int,
    pub size_bytes: int,
}

impl View for SnapshotEntry {
    type V = SnapshotEntryView;

    open spec fn view(&self) -> SnapshotEntryView {
        SnapshotEntryView {
            snapshot_id: self.snapshot_id@,
            source_volume_id: self.source_volume_id@,
            creation_time: self.creation_time as int,
            size_bytes: self.size_bytes as int,
        }
    }
}

/// An entry of the directory of the volumes, with those of its attributes that it has.
#[derive(Debug)]
pub struct DirEntry {
    pub name: String,
    pub path: String,
    pub volume_id: Option<String>,
    pub snapshot_id: Option<String>,
    pub source_volume_id: Option<String>,
    pub size: Option<String>,
    pub creation_time: Option<String>,
}

/// What is known of an entry of the directory.
pub struct DirEntryView {
    pub name: Seq<char>,
    pub path: Seq<char>,
    pub volume_id: Option<Seq<char>>,
    pub snapshot_id: Option<Seq<char>>,
    pub source_volume_id: Option<Seq<char>>,
    pub size: Option<Seq<char>>,
    pub creation_time: Option<Seq<char>>,
}

impl View for DirEntry {
    type V = DirEntryView;

    open spec fn view(&self) -> DirEntryView {
        DirEntryView {
            name: self.name@,
            path: self.path@,
            volume_id: opt_view(self.volume_id),
            snapshot_id: opt_view(self.snapshot_id),
            source_volume_id: opt_view(self.source_volume_id),
            size: opt_view(self.size),
            creation_time: opt_view(self.creation_time),
        }
    }
}

/// What is known of the entries of the directory.
pub open spec fn entry_views(v: Seq<DirEntry>) -> Seq<DirEntryView> {
    v.map_values(|x: DirEntry| x@)
}

/// The place of the first entry whose attribute is `id`.
pub open spec fn first_with(ids: Seq<Option<Seq<char>>>, id: Seq<char>) -> Option<int>
    decreases ids.len(),
{
    if ids.len() == 0 {
        None
    } else if ids[0] == Some(id) {
        Some(0)
    } else {
        match first_with(ids.skip(1), id) {
            Some(i) => Some(i + 1),
            None => None,
        }
    }
}

/// The volume identifiers of entries.
pub open spec fn volume_ids(e: Seq<DirEntryView>) -> Seq<Option<Seq<char>>> {
    e.map_values(|x: DirEntryView| x.volume_id)
}

/// The snapshot identifiers of entries.
pub open spec fn snapshot_ids(e: Seq<DirEntryView>) -> Seq<Option<Seq<char>>> {
    e.map_values(|x: DirEntryView| x.snapshot_id)
}

fn is_text(o: &Option<String>, id: &str) -> (r: bool)
    ensures
        r == (opt_view(*o) == Some(id@)),
{
    match o {
        Some(s) => same(s.as_str(), id),
        None => false,
    }
}

/// Finds the first entry of a volume.
pub fn find_volume(entries: &Vec<DirEntry>, volume_id: &str) -> (r: Option<usize>)
    ensures
        ({
            let found = first_with(volume_ids(entry_views(entries@)), volume_id@);
            match r {
                Some(i) => i < entries@.len() && found == Some(i as int),
                None => found is None,
            }
        }),
{
    let ghost ids = volume_ids(entry_views(entries@));
    let mut i: usize = 0;
    assert(ids.skip(0) =~= ids);
    while i < entries.len()
        invariant
            i <= entries@.len(),
            ids == volume_ids(entry_views(entries@)),
            first_with(ids, volume_id@) == (match first_with(ids.skip(i as int), volume_id@) {
                Some(k) => Some(k + i),
                None => None,
            }),
        decreases entries@.len() - i,
    {
        proof {
            assert(ids.skip(i as int)[0] == opt_view(entries@[i as int].volume_id));
            assert(ids.skip(i as int).skip(1) =~= ids.skip(i + 1));
        }
        if is_text(&entries[i].volume_id, volume_id) {
            return Some(i);
        }
        i += 1;
    }
    None
}

/// Finds the first entry of a snapshot.
pub fn find_snapshot(entries: &Vec<DirEntry>, snapshot_id: &str) -> (r: Option<usize>)
    ensures
        ({
            let found = first_with(snapshot_ids(entry_views(entries@)), snapshot_id@);
            match r {
                Some(i) => i < entries@.len() && found == Some(i as int),
                None => found is None,
            }
        }),
{
    let ghost ids = snapshot_ids(entry_views(entries@));
    let mut i: usize = 0;
    assert(ids.skip(0) =~= ids);
    while i < entries.len()
        invariant
            i <= entries@.len(),
            ids == snapshot_ids(entry_views(entries@)),
            first_with(ids, snapshot_id@) == (match first_with(ids.skip(i as int), snapshot_id@) {
                Some(k) => Some(k + i),
                None => None,
            }),
        decreases entries@.len() - i,
    {
        proof {
            assert(ids.skip(i as int)[0] == opt_view(entries@[i as int].snapshot_id));
            assert(ids.skip(i as int).skip(1) =~= ids.skip(i + 1));
        }
        if is_text(&entries[i].snapshot_id, snapshot_id) {
            return Some(i);
        }
        i += 1;
    }
    None
}

/// The number of a subvolume in its description: the last word of the first line that names it,
/// if that is a number.
pub open spec fn shown_subvolume_id(l: Seq<Seq<char>>) -> Option<nat>
    decreases l.len(),
{
    if l.len() == 0 {
        None
    } else if (has(l[0], "Subvolume ID:"@) || has(l[0], "subvolume id:"@)) && words(l[0]).len()
        > 0 {
        unsigned_value(words(l[0]).last(), u64::MAX as nat)
    } else {
        shown_subvolume_id(l.skip(1))
    }
}

/// Reads the number of a subvolume from its description.
pub fn get_subvolume_id(output: &str) -> (r: Option<u64>)
    ensures
        r is Some == shown_subvolume_id(lines(output@)) is Some,
        r matches Some(n) ==> shown_subvolume_id(lines(output@)) == Some(n as nat),
{
    let all = split_lines(output);
    let ghost l = lines(output@);
    let mut i: usize = 0;
    assert(l.skip(0) =~= l);
    while i < all.len()
        invariant
            i <= all@.len(),
            views(all@) == l,
            l == lines(output@),
            shown_subvolume_id(l.skip(i as int)) == shown_subvolume_id(l),
        decreases all@.len() - i,
    {
        let line = all[i];
        proof {
            assert(views(all@)[i as int] == line@);
            assert(l.skip(i as int)[0] == line@);
            assert(l.skip(i as int).skip(1) =~= l.skip(i + 1));
        }
        if contains(line, "Subvolume ID:") || contains(line, "subvolume id:") {
            let parts = split_words(line);
            let n: usize = parts.len();
            if n > 0 {
                assert(views(parts@)[n - 1] == parts@[n - 1]@);
                return parse_u64(parts[n - 1]);
            }
        }
        i += 1;
    }
    None
}

/// The free space in an overview: the last word of the first line that states it as a number.
pub open spec fn free_space_in(l: Seq<Seq<char>>) -> u64
    decreases l.len(),
{
    if l.len() == 0 {
        0
    } else if (has(l[0], "Free (estimated):"@) || has(l[0], "Free:"@)) && words(l[0]).len() > 0
        && unsigned_value(words(l[0]).last(), u64::MAX as nat) is Some {
        unsigned_value(words(l[0]).last(), u64::MAX as nat)->0 as u64
    } else {
        free_space_in(l.skip(1))
    }
}

/// Reads the free space from an overview.
pub fn parse_btrfs_free_space(output: &str) -> (r: u64)
    ensures
        r == free_space_in(lines(output@)),
{
    let all = split_lines(output);
    let ghost l = lines(output@);
    let mut i: usize = 0;
    assert(l.skip(0) =~= l);
    while i < all.len()
        invariant
            i <= all@.len(),
            views(all@) == l,
            l == lines(output@),
            free_space_in(l.skip(i as int)) == free_space_in(l),
        decreases all@.len() - i,
    {
        let line = all[i];
        proof {
            assert(views(all@)[i as int] == line@);
            assert(l.skip(i as int)[0] == line@);
            assert(l.skip(i as int).skip(1) =~= l.skip(i + 1));
        }
        if contains(line, "Free (estimated):") || contains(line, "Free:") {
            let parts = split_words(line);
            let n: usize = parts.len();
            if n > 0 {
                assert(views(parts@)[n - 1] == parts@[n - 1]@);
                match parse_u64(parts[n - 1]) {
                    Some(v) => {
                        return v;
                    },
                    None => {},
                }
            }
        }
        i += 1;
    }
    0
}

/// The controller service of a node.
pub struct CsiController {
    node_id: String,
    zone: String,
    data_dir: String,
    volume_profiles: Table<VolumeProfile>,
}

/// What a controller knows.
#[verifier::ext_equal]
pub struct ControllerView {
    pub node_id: Seq<char>,
    pub zone: Seq<char>,
    pub data_dir: Seq<char>,
    pub profiles: Map<Seq<char>, VolumeProfileView>,
}

impl View for CsiController {
    type V = ControllerView;

    closed spec fn view(&self) -> ControllerView {
        ControllerView {
            node_id: self.node_id@,
            zone: self.zone@,
            data_dir: self.data_dir@,
            profiles: self.volume_profiles@,
        }
    }
}

/// The profile of a name, or the default profile where there is none of that name.
pub open spec fn profile_for(c: ControllerView, name: Seq<char>) -> Option<VolumeProfileView> {
    if c.profiles.dom().contains(name) {
        Some(c.profiles[name])
    } else if c.profiles.dom().contains("default"@) {
        Some(c.profiles["default"@])
    } else {
        None
    }
}

/// The error where there is no profile.
pub open spec fn no_profile(name: Seq<char>) -> CsiErrorView {
    CsiErrorView::Internal(
        "No volume profile found for '"@ + name + "' and no default profile configured"@,
    )
}

impl CsiController {
    /// Whether no profile stands twice.
    pub closed spec fn wf(&self) -> bool {
        self.volume_profiles.wf()
    }

    /// The controller service of a node.
    pub fn new(
        node_id: String,
        zone: String,
        data_dir: String,
        volume_profiles: Table<VolumeProfile>,
    ) -> (r: CsiController)
        requires
            volume_profiles.wf(),
        ensures
            r.wf(),
            r@ == (ControllerView {
                node_id: node_id@,
                zone: zone@,
                data_dir: data_dir@,
                profiles: volume_profiles@,
            }),
    {
        CsiController { node_id, zone, data_dir, volume_profiles }
    }

    /// The path of a subvolume.
    pub fn subvol_path(&self, name: &str) -> (r: String)
        ensures
            r@ == below(self@.data_dir, name@),
    {
        path_below(self.data_dir.as_str(), name)
    }

    /// The identifier of the node.
    pub fn node_id(&self) -> (r: &str)
        ensures
            r@ == self@.node_id,
    {
        self.node_id.as_str()
    }

    /// The zone of the node.
    pub fn zone(&self) -> (r: &str)
        ensures
            r@ == self@.zone,
    {
        self.zone.as_str()
    }

    /// The directory of the volumes.
    pub fn data_dir(&self) -> (r: &str)
        ensures
            r@ == self@.data_dir,
    {
        self.data_dir.as_str()
    }

    /// The profile of a name, or the default profile.
    pub fn get_profile(&self, profile_type: &str) -> (r: Result<&VolumeProfile, CsiError>)
        requires
            self.wf(),
        ensures
            match r {
                Ok(p) => profile_for(self@, profile_type@) == Some(p@),
                Err(e) => profile_for(self@, profile_type@) is None && e@ == no_profile(
                    profile_type@,
                ),
            },
    {
        match self.volume_profiles.get(profile_type) {
            Some(p) => Ok(p),
            None => match self.volume_profiles.get("default") {
                Some(p) => Ok(p),
                None => Err(
                    CsiError::Internal(
                        text3(
                            "No volume profile found for '",
                            profile_type,
                            "' and no default profile configured",
                        ),
                    ),
                ),
            },
        }
    }

    /// A fresh identifier for a volume.
    pub fn volume_id(&self) -> (r: String)
        ensures
            r@.len() == "vol-"@.len() + 36,
            r@.take("vol-"@.len() as int) == "vol-"@,
            is_uuid_v4(r@.skip("vol-"@.len() as int)),
    {
        fresh_id("vol-")
    }

    /// A fresh identifier for a snapshot.
    pub fn snapshot_id(&self) -> (r: String)
        ensures
            r@.len() == "snap-"@.len() + 36,
            r@.take("snap-"@.len() as int) == "snap-"@,
            is_uuid_v4(r@.skip("snap-"@.len() as int)),
    {
        fresh_id("snap-")
    }

    /// The command that describes a subvolume.
    pub fn show_command(&self, name: &str) -> (r: CommandLine)
        ensures
            r@ == btrfs_call("subvolume"@, seq!["show"@, below(self@.data_dir, name@)]),
    {
        let path = self.subvol_path(name);
        let r = CommandLine::new("btrfs").arg("subvolume").arg("show").arg(path.as_str());
        assert(r@ =~= btrfs_call("subvolume"@, seq!["show"@, below(self@.data_dir, name@)]));
        r
    }

    /// The command that deletes a subvolume.
    pub fn delete_command(&self, name: &str) -> (r: CommandLine)
        ensures
            r@ == btrfs_call("subvolume"@, seq!["delete"@, below(self@.data_dir, name@)]),
    {
        let path = self.subvol_path(name);
        let r = CommandLine::new("btrfs").arg("subvolume").arg("delete").arg(path.as_str());
        assert(r@ =~= btrfs_call("subvolume"@, seq!["delete"@, below(self@.data_dir, name@)]));
        r
    }

    /// The command that prints the usage of the filesystem.
    pub fn usage_command(&self) -> (r: CommandLine)
        ensures
            r@ == btrfs_call("filesystem"@, seq!["usage"@, "-b"@, self@.data_dir]),
    {
        let r = CommandLine::new("btrfs").arg("filesystem").arg("usage").arg("-b").arg(
            self.data_dir.as_str(),
        );
        assert(r@ =~= btrfs_call("filesystem"@, seq!["usage"@, "-b"@, self@.data_dir]));
        r
    }
}

/// The operations of the controller service beyond those that are always there.
#[derive(Debug, Clone, Copy, PartialEq, Eq, Structural)]
pub enum ControllerCapability {
    CreateDeleteVolume,
    PublishUnpublishVolume,
    ListVolumes,
    GetCapacity,
    CreateDeleteSnapshot,
    ListSnapshots,
    ExpandVolume,
    GetVolume,
}

/// The operations that the controller service offers.
pub fn controller_get_capabilities() -> (r: Vec<ControllerCapability>)
    ensures
        r@ == seq![
            ControllerCapability::CreateDeleteVolume,
            ControllerCapability::PublishUnpublishVolume,
            ControllerCapability::ListVolumes,
            ControllerCapability::GetCapacity,
            ControllerCapability::CreateDeleteSnapshot,
            ControllerCapability::ListSnapshots,
            ControllerCapability::ExpandVolume,
            ControllerCapability::GetVolume,
        ],
{
    let mut r: Vec<ControllerCapability> = Vec::new();
    r.push(ControllerCapability::CreateDeleteVolume);
    r.push(ControllerCapability::PublishUnpublishVolume);
    r.push(ControllerCapability::ListVolumes);
    r.push(ControllerCapability::GetCapacity);
    r.push(ControllerCapability::CreateDeleteSnapshot);
    r.push(ControllerCapability::ListSnapshots);
    r.push(ControllerCapability::ExpandVolume);
    r.push(ControllerCapability::GetVolume);
    r
}

} // verus!
