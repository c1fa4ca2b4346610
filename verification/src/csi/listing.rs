//! Listing and description of volumes.

use vstd::prelude::*;
use vstd::string::*;

use crate::csi::controller::{
    entry_views, find_volume, first_with, free_space_in, parse_btrfs_free_space, volume_ids,
    CsiController, DirEntry, DirEntryView, Volume, VolumeView,
};
use crate::csi::error::{text3, CsiError, CsiErrorView};
use crate::csi::paging::{lemma_page_bounds, next_token, page, page_of, page_start};
use crate::number::{decimal, decimal_reads_back, i64_text, signed_decimal};
use crate::ops::commands::{btrfs_call, CommandLine};
use crate::ops::xattr::{parse_u64_attr, u64_attr};
use crate::protocol::big_endian::{as_signed, from_twos};
use crate::table::Table;
use crate::text::{lines, same};

verus! {

broadcast use vstd::string::group_string_axioms;

/// The topology segment that names the zone.
pub open spec fn zone_segment() -> Seq<char> {
    "topology.gocsi.io/zone"@
}

/// What volumes say.
pub open spec fn reported_views(v: Seq<Volume>) -> Seq<VolumeView> {
    v.map_values(|x: Volume| x@)
}

/// The volumes of the entries that have an identifier, with the sizes that they state.
pub open spec fn volumes_in(e: Seq<DirEntryView>) -> Seq<VolumeView>
    decreases e.len(),
{
    if e.len() == 0 {
        Seq::empty()
    } else {
        match e.last().volume_id {
            Some(id) => volumes_in(e.drop_last()).push(
                VolumeView {
                    volume_id: id,
                    capacity_bytes: from_twos(u64_attr(e.last().size) as nat),
                },
            ),
            None => volumes_in(e.drop_last()),
        }
    }
}

fn volume_of(e: &DirEntry, id: &String) -> (r: Volume)
    ensures
        r@ == (VolumeView {
            volume_id: id@,
            capacity_bytes: from_twos(u64_attr(e@.size) as nat),
        }),
{
    let size: u64 = match &e.size {
        Some(s) => parse_u64_attr(Some(s)),
        None => parse_u64_attr(None),
    };
    Volume { volume_id: id.clone(), capacity_bytes: as_signed(size) }
}

fn read_volumes(entries: &Vec<DirEntry>) -> (r: Vec<Volume>)
    ensures
        reported_views(r@) == volumes_in(entry_views(entries@)),
{
    let ghost all = entry_views(entries@);
    let mut r: Vec<Volume> = Vec::new();
    let mut i: usize = 0;
    assert(all.take(0) =~= Seq::<DirEntryView>::empty());
    assert(reported_views(r@) =~= Seq::<VolumeView>::empty());
    while i < entries.len()
        invariant
            i <= entries@.len(),
            all == entry_views(entries@),
            reported_views(r@) == volumes_in(all.take(i as int)),
        decreases entries@.len() - i,
    {
        proof {
            assert(all[i as int] == entries@[i as int]@);
            assert(all.take(i + 1).drop_last() =~= all.take(i as int));
        }
        match &entries[i].volume_id {
            Some(id) => {
                let ghost before = r@;
                let v = volume_of(&entries[i], id);
                r.push(v);
                assert(reported_views(r@) =~= reported_views(before).push(v@));
            },
            None => {},
        }
        i += 1;
    }
    assert(all.take(i as int) =~= all);
    r
}

/// Whether topologies rule the zone out: there are some, and none of them names it.
pub open spec fn zone_ruled_out(
    requisite: Seq<Map<Seq<char>, Seq<char>>>,
    zone: Seq<char>,
) -> bool {
    requisite.len() > 0 && forall|i: int|
        0 <= i < requisite.len() ==> !((#[trigger] requisite[i]).dom().contains(zone_segment())
            && requisite[i][zone_segment()] == zone)
}

/// What topologies say.
pub open spec fn topology_views(v: Seq<Table<String>>) -> Seq<Map<Seq<char>, Seq<char>>> {
    v.map_values(|t: Table<String>| t@)
}

/// The volume with an identifier among the entries, or the error that there is none.
pub open spec fn volume_found(e: Seq<DirEntryView>, volume_id: Seq<char>) -> Result<
    VolumeView,
    CsiErrorView,
> {
    match first_with(volume_ids(e), volume_id) {
        Some(i) => Ok(
            VolumeView { volume_id, capacity_bytes: from_twos(u64_attr(e[i].size) as nat) },
        ),
        None => Err(CsiErrorView::NotFound("Volume "@ + volume_id + " not found"@)),
    }
}

impl CsiController {
    /// A page of the volumes, and the token of the next page.
    pub fn list_volumes(&self, entries: &Vec<DirEntry>, starting_token: &str, max_entries: i32) -> (r:
        (Vec<Volume>, String))
        ensures
            ({
                let all = volumes_in(entry_views(entries@));
                let start = page_start(starting_token@);
                &&& reported_views(r.0@) == page_of(all, start, max_entries)
                &&& r.1@ == next_token(all.len(), start, max_entries)
            }),
    {
        let all = read_volumes(entries);
        let ghost v = reported_views(all@);
        let (from, to, token) = page(all.len(), starting_token, max_entries);
        let mut rest = all;
        let ghost before = rest@;
        let mut tail = rest.split_off(from);
        tail.truncate(to - from);
        proof {
            assert(v.len() == before.len());
            lemma_page_bounds(
                v,
                page_start(starting_token@),
                max_entries,
                from as int,
                to as int,
            );
            assert(reported_views(tail@) =~= v.subrange(from as int, to as int));
        }
        (tail, token)
    }

    /// The volume of an identifier.
    pub fn controller_get_volume(&self, entries: &Vec<DirEntry>, volume_id: &str) -> (r: Result<
        Volume,
        CsiError,
    >)
        ensures
            ({
                let e = entry_views(entries@);
                match first_with(volume_ids(e), volume_id@) {
                    Some(i) => r matches Ok(v) && v@ == (VolumeView {
                        volume_id: volume_id@,
                        capacity_bytes: from_twos(u64_attr(e[i].size) as nat),
                    }),
                    None => r matches Err(x) && x@ == CsiErrorView::NotFound(
                        "Volume "@ + volume_id@ + " not found"@,
                    ),
                }
            }),
            match r {
                Ok(v) => volume_found(entry_views(entries@), volume_id@) == Ok::<
                    VolumeView,
                    CsiErrorView,
                >(v@),
                Err(x) => volume_found(entry_views(entries@), volume_id@) == Err::<
                    VolumeView,
                    CsiErrorView,
                >(x@),
            },
    {
        match find_volume(entries, volume_id) {
            Some(i) => {
                let id = volume_id.to_owned();
                assert(entry_views(entries@)[i as int] == entries@[i as int]@);
                Ok(volume_of(&entries[i], &id))
            },
            None => Err(CsiError::NotFound(text3("Volume ", volume_id, " not found"))),
        }
    }

    /// Tells whether the topologies of a request rule the zone of the node out, so that it has no
    /// capacity to offer.
    pub fn is_ruled_out(&self, requisite: &Vec<Table<String>>) -> (r: bool)
        requires
            forall|i: int| 0 <= i < requisite@.len() ==> (#[trigger] requisite@[i]).wf(),
        ensures
            r == zone_ruled_out(topology_views(requisite@), self@.zone),
    {
        let ghost t = topology_views(requisite@);
        let mut i: usize = 0;
        while i < requisite.len()
            invariant
                i <= requisite@.len(),
                t == topology_views(requisite@),
                forall|k: int| 0 <= k < requisite@.len() ==> (#[trigger] requisite@[k]).wf(),
                forall|k: int|
                    0 <= k < i ==> !((#[trigger] t[k]).dom().contains(zone_segment())
                        && t[k][zone_segment()] == self@.zone),
            decreases requisite@.len() - i,
        {
            assert(t[i as int] == requisite@[i as int]@);
            match requisite[i].get("topology.gocsi.io/zone") {
                Some(z) => {
                    if same(z.as_str(), self.zone()) {
                        return false;
                    }
                },
                None => {},
            }
            i += 1;
        }
        requisite.len() > 0
    }

    /// The capacity that the usage of the filesystem leaves.
    pub fn get_capacity(&self, usage: &str) -> (r: i64)
        ensures
            r == from_twos(free_space_in(lines(usage@)) as nat),
    {
        as_signed(parse_btrfs_free_space(usage))
    }

    /// The command that makes room for a volume, if it exists.
    pub fn controller_expand_volume(&self, entries: &Vec<DirEntry>, volume_id: &str) -> (r: Option<
        (usize, CommandLine),
    >)
        ensures
            ({
                let e = entry_views(entries@);
                match first_with(volume_ids(e), volume_id@) {
                    Some(i) => r matches Some((k, c)) && k == i && k < entries@.len() && c@
                        == btrfs_call("filesystem"@, seq!["resize"@, "max"@, e[i].path]),
                    None => r is None,
                }
            }),
    {
        match find_volume(entries, volume_id) {
            Some(i) => {
                assert(entry_views(entries@)[i as int] == entries@[i as int]@);
                let c = CommandLine::new("btrfs").arg("filesystem").arg("resize").arg("max").arg(
                    entries[i].path.as_str(),
                );
                assert(c@ =~= btrfs_call(
                    "filesystem"@,
                    seq!["resize"@, "max"@, entries@[i as int]@.path],
                ));
                Some((i, c))
            },
            None => None,
        }
    }

    /// The size to store after a volume was expanded, and to answer with.
    pub fn expanded_size(&self, required_bytes: Option<i64>) -> (r: (i64, String))
        ensures
            r.0 == (match required_bytes {
                Some(b) => b,
                None => 0,
            }),
            r.1@ == signed_decimal(r.0 as int),
    {
        let size: i64 = match required_bytes {
            Some(b) => b,
            None => 0,
        };
        (size, i64_text(size))
    }
}

/// The capacity that a volume was created with is the capacity that is reported of it.
pub proof fn stored_capacity_reads_back(capacity: u64)
    ensures
        from_twos(u64_attr(Some(decimal(capacity as nat))) as nat) == from_twos(capacity as nat),
{
    decimal_reads_back(capacity as nat, u64::MAX as nat);
}

/// The capacity that a volume was expanded to is the capacity that is reported of it.
pub proof fn expanded_capacity_reads_back(size: i64)
    requires
        size >= 0,
    ensures
        from_twos(u64_attr(Some(signed_decimal(size as int))) as nat) == size,
{
    decimal_reads_back(size as nat, u64::MAX as nat);
}

} // verus!
