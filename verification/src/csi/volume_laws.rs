//! What the creation, deletion and listing of volumes promise.

use vstd::prelude::*;
use vstd::string::*;
use vstd::utf8::encode_utf8;

use crate::csi::controller::{
    first_with, free_space_in, profile_for, shown_subvolume_id, ControllerView, DirEntryView,
    VolumeView,
};
use crate::csi::create_volume::{
    create_action, create_next, deletion, first_epoch, new_attributes, profile_parameter,
    requested_capacity, requested_profile, setup_commands, CreateActionView, CreateEventView,
    CreateStateView, CreateVolumeView,
};
use crate::csi::error::CsiErrorView;
use crate::csi::listing::{volumes_in, zone_ruled_out};
use crate::csi::names::name_objection;
use crate::csi::paging::{next_token, page_of, page_start};
use crate::csi::published::{is_listable, stored_nodes_read_back};
use crate::exchange::config::VolumeProfileView;
use crate::number::{decimal, decimal_reads_back};
use crate::ops::commands::CommandView;
use crate::ops::xattr::u64_attr;
use crate::protocol::big_endian::from_twos;
use crate::protocol::payload::EpochInfoView;
use crate::text::{has, joined, words};

verus! {

broadcast use vstd::string::group_string_axioms;

/// A volume has the size that is asked for, whatever it is, and one gibibyte where none is asked
/// for: so says the answer, so the limit of its space, and so its stored size.
pub proof fn volume_has_the_size_asked_for(b: i64)
    ensures
        b >= 0 ==> requested_capacity(Some(b)) == b,
        from_twos(requested_capacity(Some(b))) == b,
        requested_capacity(None) == 1_073_741_824,
        from_twos(requested_capacity(None)) == 1_073_741_824,
{
}

/// Two requests for different sizes give volumes of different sizes.
pub proof fn different_sizes_stay_different(a: i64, b: i64)
    requires
        a != b,
    ensures
        requested_capacity(Some(a)) != requested_capacity(Some(b)),
        a >= 0 && b >= 0 && a < b ==> requested_capacity(Some(a)) < requested_capacity(Some(b)),
{
}

/// A new volume is stored with its identifier, the size that was asked for, the zone of the node,
/// its profile and its time, in its first epoch and writable. Its size reads back as it was asked
/// for.
pub proof fn new_volume_is_stored_as_asked_for(
    c: ControllerView,
    v: CreateVolumeView,
    b: i64,
    id: Seq<char>,
    now: i64,
)
    requires
        b >= 0,
        v.capacity == requested_capacity(Some(b)),
    ensures
        ({
            let a = new_attributes(c, v, id, now);
            &&& a.len() == 7
            &&& a[0] == ("volume_id"@, id)
            &&& a[1] == ("size"@, decimal(b as nat))
            &&& a[2] == ("zone"@, c.zone)
            &&& a[3] == ("profile"@, v.profile)
            &&& a[4].0 == "created_at"@
            &&& now >= 0 ==> a[4].1 == decimal(now as nat)
            &&& a[5] == ("epoch"@, decimal(1))
            &&& a[6] == ("status"@, "active"@)
            &&& u64_attr(Some(a[1].1)) == b
        }),
        first_epoch(c, id) == (EpochInfoView {
            volume_id: id,
            epoch: 1,
            vector_clock: seq![(c.node_id, 1u64)],
            status: "active"@,
            last_synced_from: None,
        }),
{
    decimal_reads_back(b as nat, u64::MAX as nat);
}

/// A profile is that of the parameter `profile`, and the default one where there is no such
/// parameter.
pub proof fn profile_is_that_of_the_parameter(p: Map<Seq<char>, Seq<char>>, name: Seq<char>)
    ensures
        requested_profile(profile_parameter(p.insert("profile"@, name))) == name,
        !p.dom().contains("profile"@) ==> requested_profile(profile_parameter(p)) == "default"@,
{
}

/// A profile goes by its name; a name without a profile gets the default profile, and nothing where
/// there is none either.
pub proof fn unknown_profile_is_the_default_one(
    c: ControllerView,
    name: Seq<char>,
    p: VolumeProfileView,
    d: VolumeProfileView,
)
    ensures
        profile_for(ControllerView { profiles: c.profiles.insert(name, p), ..c }, name) == Some(p),
        !c.profiles.dom().contains(name) && name != "default"@ ==> profile_for(
            ControllerView { profiles: c.profiles.insert("default"@, d), ..c },
            name,
        ) == Some(d),
        !c.profiles.dom().contains(name) && !c.profiles.dom().contains("default"@) ==> profile_for(
            c,
            name,
        ) is None,
{
}

/// A subvolume without copy-on-write gets it switched off before anything is written, one that is
/// compressed gets its algorithm, and quotas are switched on last, whatever the profile.
pub proof fn subvolume_is_set_up_by_its_profile(
    p: VolumeProfileView,
    path: Seq<char>,
    data_dir: Seq<char>,
)
    ensures
        ({
            let s = setup_commands(p, path, data_dir);
            let nocow = CommandView { program: "chattr"@, args: seq!["+C"@, path] };
            let compress = CommandView {
                program: "btrfs"@,
                args: seq!["property"@, "set"@, "-ts"@, path, "compression="@ + p.compression],
            };
            let quota = CommandView {
                program: "btrfs"@,
                args: seq!["quota"@, "enable"@, "--simple"@, data_dir],
            };
            &&& p.nocow && p.compression != "none"@ ==> s == seq![nocow, compress, quota]
            &&& p.nocow && p.compression == "none"@ ==> s == seq![nocow, quota]
            &&& !p.nocow && p.compression != "none"@ ==> s == seq![compress, quota]
            &&& !p.nocow && p.compression == "none"@ ==> s == seq![quota]
        }),
{
    let s = setup_commands(p, path, data_dir);
    let nocow = CommandView { program: "chattr"@, args: seq!["+C"@, path] };
    let compress = CommandView {
        program: "btrfs"@,
        args: seq!["property"@, "set"@, "-ts"@, path, "compression="@ + p.compression],
    };
    let quota = CommandView {
        program: "btrfs"@,
        args: seq!["quota"@, "enable"@, "--simple"@, data_dir],
    };
    assert(s.last().args =~= quota.args);
    if p.compression != "none"@ {
        assert(s[s.len() - 2].args =~= compress.args);
    }
    if p.nocow && p.compression != "none"@ {
        assert(s =~= seq![nocow, compress, quota]);
    } else if p.nocow {
        assert(s =~= seq![nocow, quota]);
    } else if p.compression != "none"@ {
        assert(s =~= seq![compress, quota]);
    } else {
        assert(s =~= seq![quota]);
    }
}

/// A volume whose subvolume is not there is created at its path and then configured. One whose
/// subvolume is there is answered with if it has an identifier, and configured otherwise; it is
/// not created again.
pub proof fn volume_is_created_once(v: CreateVolumeView, id: Seq<char>, why: Seq<char>)
    requires
        v.state is Probing,
    ensures
        create_action(v, CreateEventView::Shown(false)) == CreateActionView::Run(
            CommandView { program: "btrfs"@, args: seq!["subvolume"@, "create"@, v.path] },
        ),
        create_next(v.state, CreateEventView::Shown(false)) is Creating,
        create_next(v.state, CreateEventView::Shown(true)) is Existing,
        create_action(v, CreateEventView::Shown(true)) is ReadVolumeId,
        ({
            let w = CreateVolumeView { state: CreateStateView::Creating, ..v };
            &&& create_action(w, CreateEventView::Created(true, why)) is Configure
            &&& create_next(w.state, CreateEventView::Created(true, why)) is Configuring
            &&& create_action(w, CreateEventView::Created(false, why)) is ReadVolumeId
            &&& create_next(w.state, CreateEventView::Created(false, why))
                == CreateStateView::Raced(why)
            &&& create_action(w, CreateEventView::NotRun(why)) == CreateActionView::Refuse(
                CsiErrorView::Internal("Failed to execute btrfs: "@ + why),
            )
        }),
        ({
            let w = CreateVolumeView { state: CreateStateView::Existing, ..v };
            &&& create_action(w, CreateEventView::VolumeId(None)) is Configure
            &&& create_next(w.state, CreateEventView::VolumeId(None)) is Configuring
            &&& v.capacity < 0x8000_0000_0000_0000 ==> create_action(
                w,
                CreateEventView::VolumeId(Some(id)),
            ) == CreateActionView::Reply(
                VolumeView { volume_id: id, capacity_bytes: v.capacity as int },
            )
        }),
        ({
            let w = CreateVolumeView { state: CreateStateView::Raced(why), ..v };
            &&& v.capacity < 0x8000_0000_0000_0000 ==> create_action(
                w,
                CreateEventView::VolumeId(Some(id)),
            ) == CreateActionView::Reply(
                VolumeView { volume_id: id, capacity_bytes: v.capacity as int },
            )
            &&& create_action(w, CreateEventView::VolumeId(None)) == CreateActionView::Refuse(
                CsiErrorView::Internal("Failed to create subvolume: "@ + why),
            )
        }),
{
    let a = create_action(v, CreateEventView::Shown(false));
    assert(a->Run_0.args =~= seq!["subvolume"@, "create"@, v.path]);
}

/// A volume is deleted only where no node has it published, and then its subvolume is; a volume
/// that is not there counts as deleted. One that is published stays, and the refusal names the
/// nodes.
pub proof fn published_volume_is_not_deleted(
    c: ControllerView,
    volume_id: Seq<char>,
    name: Seq<char>,
    nodes: Seq<Seq<char>>,
)
    requires
        nodes.len() > 0,
        forall|i: int| 0 <= i < nodes.len() ==> is_listable(#[trigger] nodes[i]),
    ensures
        deletion(c, volume_id, Some(name), Some(joined(nodes, ","@))) == Err::<
            Option<CommandView>,
            CsiErrorView,
        >(
            CsiErrorView::FailedPrecondition(
                "Volume "@ + volume_id + " is still published on nodes: "@ + joined(nodes, ", "@),
            ),
        ),
        deletion(c, volume_id, Some(name), None) == Ok::<Option<CommandView>, CsiErrorView>(
            Some(
                CommandView {
                    program: "btrfs"@,
                    args: seq!["subvolume"@, "delete"@, c.data_dir + "/"@ + name],
                },
            ),
        ),
        deletion(c, volume_id, None, Some(joined(nodes, ","@))) == Ok::<
            Option<CommandView>,
            CsiErrorView,
        >(None),
        deletion(c, volume_id, None, None) == Ok::<Option<CommandView>, CsiErrorView>(None),
{
    stored_nodes_read_back(nodes);
    let d = deletion(c, volume_id, Some(name), None);
    assert(d->Ok_0->0.args =~= seq!["subvolume"@, "delete"@, c.data_dir + "/"@ + name]);
}

/// What is found is the first entry with the identifier, and nothing is found only where no entry
/// has it.
pub proof fn first_entry_is_found(ids: Seq<Option<Seq<char>>>, id: Seq<char>)
    ensures
        match first_with(ids, id) {
            Some(i) => {
                &&& 0 <= i < ids.len()
                &&& ids[i] == Some(id)
                &&& forall|j: int| 0 <= j < i ==> #[trigger] ids[j] != Some(id)
            },
            None => forall|j: int| 0 <= j < ids.len() ==> #[trigger] ids[j] != Some(id),
        },
    decreases ids.len(),
{
    if ids.len() > 0 && ids[0] != Some(id) {
        let t = ids.skip(1);
        first_entry_is_found(t, id);
        match first_with(t, id) {
            Some(i) => {
                assert(ids[i + 1] == t[i]);
                assert forall|j: int| 0 <= j < i + 1 implies #[trigger] ids[j] != Some(id) by {
                    if j > 0 {
                        assert(ids[j] == t[j - 1]);
                    }
                }
            },
            None => {
                assert forall|j: int| 0 <= j < ids.len() implies #[trigger] ids[j] != Some(
                    id,
                ) by {
                    if j > 0 {
                        assert(ids[j] == t[j - 1]);
                    }
                }
            },
        }
    }
}

/// Every entry with an identifier is listed as a volume, in its order, with the size that it
/// states; a size that is missing or no number counts as zero. Other entries are not listed.
pub proof fn every_volume_is_listed(e: Seq<DirEntryView>, x: DirEntryView, n: nat)
    ensures
        x.volume_id is None ==> volumes_in(e.push(x)) == volumes_in(e),
        x.volume_id matches Some(id) ==> {
            &&& volumes_in(e.push(x)).len() == volumes_in(e).len() + 1
            &&& volumes_in(e.push(x)).drop_last() == volumes_in(e)
            &&& volumes_in(e.push(x)).last().volume_id == id
            &&& x.size == Some(decimal(n)) && n < 0x8000_0000_0000_0000 ==> volumes_in(
                e.push(x),
            ).last().capacity_bytes == n
            &&& x.size is None ==> volumes_in(e.push(x)).last().capacity_bytes == 0
        },
        volumes_in(e).len() == e.filter(|y: DirEntryView| y.volume_id is Some).len(),
        volumes_in(Seq::empty()).len() == 0,
    decreases e.len(),
{
    reveal(Seq::filter);
    assert(e.push(x).drop_last() =~= e);
    if n < 0x8000_0000_0000_0000 {
        decimal_reads_back(n, u64::MAX as nat);
    }
    if x.volume_id is Some {
        assert(volumes_in(e.push(x)).drop_last() =~= volumes_in(e));
    }
    if e.len() > 0 {
        every_volume_is_listed(e.drop_last(), e.last(), n);
        assert(e.drop_last().push(e.last()) =~= e);
    }
}

/// A page holds the entries from its start on, no more than are asked for, and all that are left
/// where no number is asked for. Where entries are left, its token leads to the first of them, and
/// otherwise it is empty.
pub proof fn pages_are_cut_where_asked<T>(s: Seq<T>, start: nat, max: i32)
    requires
        s.len() <= usize::MAX,
    ensures
        ({
            let p = page_of(s, start, max);
            let left = if start < s.len() {
                (s.len() - start) as nat
            } else {
                0nat
            };
            &&& p.len() == (if max > 0 && max < left {
                max as nat
            } else {
                left
            })
            &&& forall|i: int| 0 <= i < p.len() ==> #[trigger] p[i] == s[start + i]
            &&& (next_token(s.len(), start, max).len() == 0) == !(max > 0 && max < left)
            &&& max > 0 && max < left ==> page_start(next_token(s.len(), start, max)) == start
                + max
        }),
        page_start(Seq::empty()) == 0,
        start <= usize::MAX ==> page_start(decimal(start)) == start,
{
    if start <= usize::MAX {
        decimal_reads_back(start, usize::MAX as nat);
    }
    if max > 0 && start < s.len() && max < s.len() - start {
        decimal_reads_back((start + max) as nat, usize::MAX as nat);
        crate::number::lemma_decimal((start + max) as nat);
    }
}

/// A request without topologies rules no zone out. One with topologies rules a zone out exactly
/// where none of them names it under the key of zones.
pub proof fn zone_is_ruled_out_by_others(
    r: Seq<Map<Seq<char>, Seq<char>>>,
    zone: Seq<char>,
    t: Map<Seq<char>, Seq<char>>,
)
    ensures
        !zone_ruled_out(Seq::empty(), zone),
        !zone_ruled_out(r.push(t.insert("topology.gocsi.io/zone"@, zone)), zone),
        !t.dom().contains("topology.gocsi.io/zone"@) || t["topology.gocsi.io/zone"@] != zone ==> {
            &&& zone_ruled_out(seq![t], zone)
            &&& r.len() > 0 ==> zone_ruled_out(r.push(t), zone) == zone_ruled_out(r, zone)
        },
{
    let a = r.push(t.insert("topology.gocsi.io/zone"@, zone));
    assert(a[r.len() as int].dom().contains("topology.gocsi.io/zone"@));
    assert(a[r.len() as int]["topology.gocsi.io/zone"@] == zone);
    let b = r.push(t);
    assert(b[r.len() as int] == t);
    assert forall|i: int| 0 <= i < r.len() implies #[trigger] r[i] == b[i] by {}
    if zone_ruled_out(b, zone) {
        assert forall|i: int| 0 <= i < r.len() implies !((
        #[trigger] r[i]).dom().contains("topology.gocsi.io/zone"@)
            && r[i]["topology.gocsi.io/zone"@] == zone) by {
            assert(r[i] == b[i]);
        }
    }
}

/// The free space is the number at the end of the first line that states it; lines before it that
/// state none are passed over, and an overview without such a line has none.
pub proof fn free_space_is_read_from_its_line(
    l: Seq<Seq<char>>,
    line: Seq<char>,
    rest: Seq<Seq<char>>,
    n: nat,
)
    requires
        n <= u64::MAX,
        words(line).len() > 0,
        words(line).last() == decimal(n),
        forall|i: int|
            0 <= i < l.len() ==> has(#[trigger] l[i], "Free (estimated):"@) == false && has(
                l[i],
                "Free:"@,
            ) == false,
    ensures
        has(line, "Free (estimated):"@) || has(line, "Free:"@) ==> free_space_in(
            l + seq![line] + rest,
        ) == n,
        free_space_in(l) == 0,
    decreases l.len(),
{
    decimal_reads_back(n, u64::MAX as nat);
    let s = l + seq![line] + rest;
    if l.len() > 0 {
        let t = l.skip(1);
        assert forall|i: int| 0 <= i < t.len() implies has(#[trigger] t[i], "Free (estimated):"@)
            == false && has(t[i], "Free:"@) == false by {
            assert(t[i] == l[i + 1]);
        }
        free_space_is_read_from_its_line(t, line, rest, n);
        assert(s.skip(1) =~= t + seq![line] + rest);
        assert(s[0] == l[0]);
    } else {
        assert(s[0] == line);
    }
}

/// The number of a subvolume is the last word of the first line that names it.
pub proof fn subvolume_number_is_read_from_its_line(
    l: Seq<Seq<char>>,
    line: Seq<char>,
    rest: Seq<Seq<char>>,
    n: nat,
)
    requires
        n <= u64::MAX,
        words(line).len() > 0,
        words(line).last() == decimal(n),
        forall|i: int|
            0 <= i < l.len() ==> has(#[trigger] l[i], "Subvolume ID:"@) == false && has(
                l[i],
                "subvolume id:"@,
            ) == false,
    ensures
        has(line, "Subvolume ID:"@) || has(line, "subvolume id:"@) ==> shown_subvolume_id(
            l + seq![line] + rest,
        ) == Some(n),
        shown_subvolume_id(l) is None,
    decreases l.len(),
{
    decimal_reads_back(n, u64::MAX as nat);
    let s = l + seq![line] + rest;
    if l.len() > 0 {
        let t = l.skip(1);
        assert forall|i: int| 0 <= i < t.len() implies has(#[trigger] t[i], "Subvolume ID:"@)
            == false && has(t[i], "subvolume id:"@) == false by {
            assert(t[i] == l[i + 1]);
        }
        subvolume_number_is_read_from_its_line(t, line, rest, n);
        assert(s.skip(1) =~= t + seq![line] + rest);
        assert(s[0] == l[0]);
    } else {
        assert(s[0] == line);
    }
}

/// A name of letters, digits, dashes, underscores and dots is accepted if it is not empty, not
/// longer than 255 bytes and has no two dots in a row; every other name is refused.
pub proof fn harmless_names_are_accepted(name: Seq<char>)
    ensures
        (name_objection(name) is None) == {
            &&& name.len() > 0
            &&& encode_utf8(name).len() <= 255
            &&& has(name, ".."@) == false
            &&& forall|i: int|
                0 <= i < name.len() ==> ('a' <= #[trigger] name[i] <= 'z' || 'A' <= name[i] <= 'Z'
                    || '0' <= name[i] <= '9' || name[i] == '-' || name[i] == '_' || name[i] == '.')
        },
        name_objection(name) matches Some(e) ==> e is InvalidArgument,
{
    if name.contains('\0') || name.contains('/') || name.contains('\\') {
        let i = choose|i: int|
            0 <= i < name.len() && (name[i] == '\0' || name[i] == '/' || name[i] == '\\');
        assert(!('a' <= name[i] <= 'z'));
    }
}

} // verus!
