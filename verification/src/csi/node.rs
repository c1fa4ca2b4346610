//! The node service.

use vstd::prelude::*;
use vstd::string::*;

use crate::csi::error::{CsiError, CsiErrorView};
use crate::csi::listing::{zone_ruled_out, zone_segment};
use crate::number::{decimal, parse_u32, parse_u64, u64_text, unsigned_value};
use crate::ops::commands::{below, btrfs_call, path_below, CommandLine, CommandView};
use crate::protocol::big_endian::{as_signed, from_twos};
use crate::table::Table;
use crate::text::{
    contains, fields, has, lines, opt_view, same, split_fields, split_lines, split_words, trim,
    trimmed, views, words,
};

verus! {

broadcast use vstd::string::group_string_axioms;

/// Whether a kernel of a release maps the owners of mounts: from 5.12 on.
pub open spec fn release_maps_ids(release: Seq<char>) -> bool {
    let parts = fields(trimmed(release), '.');
    if parts.len() >= 2 {
        match (
            unsigned_value(parts[0], u32::MAX as nat),
            unsigned_value(parts[1], u32::MAX as nat),
        ) {
            (Some(major), Some(minor)) => major > 5 || (major == 5 && minor >= 12),
            _ => false,
        }
    } else {
        false
    }
}

/// Tells whether a kernel of a release maps the owners of mounts.
pub fn check_idmapped_support(release: &str) -> (r: bool)
    ensures
        r == release_maps_ids(release@),
{
    let parts = split_fields(trim(release), '.');
    if parts.len() >= 2 {
        assert(views(parts@)[0] == parts@[0]@);
        assert(views(parts@)[1] == parts@[1]@);
        match (parse_u32(parts[0]), parse_u32(parts[1])) {
            (Some(major), Some(minor)) => major > 5 || (major == 5 && minor >= 12),
            _ => false,
        }
    } else {
        false
    }
}

/// The node service of a node.
#[derive(Debug)]
pub struct CsiNode {
    node_id: String,
    zone: String,
    data_dir: String,
    supports_idmapped: bool,
}

/// What a node service knows.
#[verifier::ext_equal]
pub struct NodeView {
    pub node_id: Seq<char>,
    pub zone: Seq<char>,
    pub data_dir: Seq<char>,
    pub supports_idmapped: bool,
}

impl View for CsiNode {
    type V = NodeView;

    closed spec fn view(&self) -> NodeView {
        NodeView {
            node_id: self.node_id@,
            zone: self.zone@,
            data_dir: self.data_dir@,
            supports_idmapped: self.supports_idmapped,
        }
    }
}

/// The path of a volume by its context: the path that stands there, or that of the volume's name,
/// or none.
pub open spec fn context_path(
    context: Map<Seq<char>, Seq<char>>,
    data_dir: Seq<char>,
) -> Seq<char> {
    if context.dom().contains("path"@) {
        context["path"@]
    } else if context.dom().contains("volume_name"@) {
        below(data_dir, context["volume_name"@])
    } else {
        Seq::empty()
    }
}

/// The path of a volume by its context.
pub fn extract_volume_path(volume_context: &Table<String>, data_dir: &str) -> (r: String)
    requires
        volume_context.wf(),
    ensures
        r@ == context_path(volume_context@, data_dir@),
{
    match volume_context.get("path") {
        Some(p) => p.clone(),
        None => match volume_context.get("volume_name") {
            Some(n) => path_below(data_dir, n.as_str()),
            None => {
                let r = String::new();
                assert(r@ =~= Seq::<char>::empty());
                r
            },
        },
    }
}

/// The total and the used size in an overview, in bytes. Lines are read in order: one that names
/// the allocated space gives the total, one that names the used space the used size.
pub open spec fn usage_in(l: Seq<Seq<char>>) -> (u64, u64)
    decreases l.len(),
{
    if l.len() == 0 {
        (0, 0)
    } else {
        let before = usage_in(l.drop_last());
        let line = l.last();
        let w = words(line);
        let value = if w.len() > 1 {
            unsigned_value(w[1], u64::MAX as nat)
        } else {
            None
        };
        if !(has(line, "Device allocated:"@) || has(line, "Used:"@)) || value is None {
            before
        } else if has(line, "Device allocated"@) {
            (value->0 as u64, before.1)
        } else {
            (before.0, value->0 as u64)
        }
    }
}

/// Reads the total and the used size from an overview.
pub fn parse_btrfs_usage(output: &str) -> (r: (u64, u64))
    ensures
        r == usage_in(lines(output@)),
{
    let all = split_lines(output);
    let ghost l = lines(output@);
    let mut total: u64 = 0;
    let mut used: u64 = 0;
    let mut i: usize = 0;
    assert(l.take(0) =~= Seq::<Seq<char>>::empty());
    while i < all.len()
        invariant
            i <= all@.len(),
            views(all@) == l,
            (total, used) == usage_in(l.take(i as int)),
        decreases all@.len() - i,
    {
        let line = all[i];
        proof {
            assert(views(all@)[i as int] == line@);
            assert(l.take(i + 1).drop_last() =~= l.take(i as int));
            assert(l.take(i + 1).last() == line@);
        }
        if contains(line, "Device allocated:") || contains(line, "Used:") {
            let parts = split_words(line);
            if parts.len() > 1 {
                assert(views(parts@)[1] == parts@[1]@);
                match parse_u64(parts[1]) {
                    Some(v) => {
                        if contains(line, "Device allocated") {
                            total = v;
                        } else {
                            used = v;
                        }
                    },
                    None => {},
                }
            }
        }
        i += 1;
    }
    assert(l.take(i as int) =~= l);
    (total, used)
}

/// The total and the used number of inodes, by the first line that states both in its second and
/// third word.
pub open spec fn inodes_in(l: Seq<Seq<char>>) -> (u64, u64)
    decreases l.len(),
{
    if l.len() == 0 {
        (0, 0)
    } else {
        let w = words(l[0]);
        if w.len() >= 4 && unsigned_value(w[1], u64::MAX as nat) is Some && unsigned_value(
            w[2],
            u64::MAX as nat,
        ) is Some {
            (
                unsigned_value(w[1], u64::MAX as nat)->0 as u64,
                unsigned_value(w[2], u64::MAX as nat)->0 as u64,
            )
        } else {
            inodes_in(l.skip(1))
        }
    }
}

/// The lines behind the heading.
pub open spec fn body_lines(l: Seq<Seq<char>>) -> Seq<Seq<char>> {
    if l.len() > 0 {
        l.skip(1)
    } else {
        l
    }
}

/// Reads the total and the used number of inodes from a table with a heading.
pub fn parse_inode_usage(output: &str) -> (r: (u64, u64))
    ensures
        r == inodes_in(body_lines(lines(output@))),
{
    let all = split_lines(output);
    let ghost l = lines(output@);
    let ghost body = body_lines(l);
    if all.len() == 0 {
        return (0, 0);
    }
    let mut i: usize = 1;
    while i < all.len()
        invariant
            1 <= i <= all@.len(),
            views(all@) == l,
            body == l.skip(1),
            inodes_in(l.skip(i as int)) == inodes_in(body),
            l == lines(output@),
            body == body_lines(lines(output@)),
        decreases all@.len() - i,
    {
        let line = all[i];
        proof {
            assert(views(all@)[i as int] == line@);
            assert(l.skip(i as int)[0] == line@);
            assert(l.skip(i as int).skip(1) =~= l.skip(i + 1));
        }
        let parts = split_words(line);
        if parts.len() >= 4 {
            assert(views(parts@)[1] == parts@[1]@);
            assert(views(parts@)[2] == parts@[2]@);
            match (parse_u64(parts[1]), parse_u64(parts[2])) {
                (Some(total), Some(used)) => {
                    return (total, used);
                },
                _ => {},
            }
        }
        i += 1;
    }
    (0, 0)
}

/// What a node does to publish a volume.
#[derive(Debug)]
pub struct NodePublish {
    /// The command that mounts the volume.
    pub mount: CommandLine,
    /// The owner and the group that the mount maps to, if it maps them.
    pub idmap: Option<(u32, u32)>,
    /// Whether the volume can only be read.
    pub readonly: bool,
}

/// Whether a context makes a volume read-only.
pub open spec fn context_readonly(context: Map<Seq<char>, Seq<char>>) -> bool {
    context.dom().contains("readonly"@) && (context["readonly"@] == "true"@ || context["readonly"@]
        == "True"@)
}

/// The number that a context gives for a key; zero where it gives none.
pub open spec fn context_id(context: Map<Seq<char>, Seq<char>>, key: Seq<char>) -> u32 {
    if context.dom().contains(key) {
        match unsigned_value(context[key], u32::MAX as nat) {
            Some(n) => n as u32,
            None => 0,
        }
    } else {
        0
    }
}

/// The owner and the group that a context maps a mount to.
pub open spec fn context_idmap(
    context: Map<Seq<char>, Seq<char>>,
    supported: bool,
) -> Option<(u32, u32)> {
    if supported && (context.dom().contains("uid_map"@) || context.dom().contains("gid_map"@)) {
        Some((context_id(context, "uid_map"@), context_id(context, "gid_map"@)))
    } else {
        None
    }
}

/// The error where a context does not tell where the volume is.
pub open spec fn no_path() -> CsiErrorView {
    CsiErrorView::InvalidArgument(
        "volume_context must contain 'path' or 'volume_name' for staging"@,
    )
}

/// The command that mounts a volume at a target.
pub open spec fn mount_call(path: Seq<char>, target: Seq<char>, readonly: bool) -> CommandView {
    CommandView {
        program: "mount"@,
        args: if readonly {
            seq!["--bind"@, "-o"@, "bind,ro"@, path, target]
        } else {
            seq!["--bind"@, path, target]
        },
    }
}

fn mount_command(path: &str, target: &str, readonly: bool) -> (r: CommandLine)
    ensures
        r@ == mount_call(path@, target@, readonly),
{
    let start = CommandLine::new("mount").arg("--bind");
    let r = if readonly {
        start.arg("-o").arg("bind,ro").arg(path).arg(target)
    } else {
        start.arg(path).arg(target)
    };
    assert(r@ =~= mount_call(path@, target@, readonly));
    r
}

fn read_id(context: &Table<String>, key: &str) -> (r: u32)
    requires
        context.wf(),
    ensures
        r == context_id(context@, key@),
{
    match context.get(key) {
        Some(v) => match parse_u32(v.as_str()) {
            Some(n) => n,
            None => 0,
        },
        None => 0,
    }
}

/// The usage of a filesystem as the service reports it.
#[derive(Debug)]
pub struct VolumeStats {
    pub available: i64,
    pub total: i64,
    pub used: i64,
    /// Total, used and available inodes, as text.
    pub attributes: Table<String>,
}

/// What the usage of a filesystem says.
#[verifier::ext_equal]
pub struct StatsView {
    pub available: int,
    pub total: int,
    pub used: int,
    pub attributes: Map<Seq<char>, Seq<char>>,
}

/// The usage of a filesystem, by its overview and its inodes. There is none where more is used than
/// there is.
pub open spec fn stats_of(usage: Seq<char>, inodes: Option<Seq<char>>) -> Option<StatsView> {
    let (total, used) = usage_in(lines(usage));
    let (all, taken) = match inodes {
        Some(t) => inodes_in(body_lines(lines(t))),
        None => (0u64, 0u64),
    };
    let free = if taken <= all {
        all - taken
    } else {
        0
    };
    if used <= total {
        Some(
            StatsView {
                available: from_twos((total - used) as nat),
                total: from_twos(total as nat),
                used: from_twos(used as nat),
                attributes: Map::empty().insert("inode_total"@, decimal(all as nat)).insert(
                    "inode_used"@,
                    decimal(taken as nat),
                ).insert("inode_available"@, decimal(free as nat)),
            },
        )
    } else {
        None
    }
}

impl CsiNode {
    /// The node service of a node, by the release of its kernel if that is known.
    pub fn new(node_id: String, zone: String, data_dir: String, kernel_release: &Option<String>) -> (r:
        CsiNode)
        ensures
            r@ == (NodeView {
                node_id: node_id@,
                zone: zone@,
                data_dir: data_dir@,
                supports_idmapped: match *kernel_release {
                    Some(release) => release_maps_ids(release@),
                    None => false,
                },
            }),
    {
        let supports_idmapped = match kernel_release {
            Some(release) => check_idmapped_support(release.as_str()),
            None => false,
        };
        CsiNode { node_id, zone, data_dir, supports_idmapped }
    }

    /// The command that stages a volume at a path.
    pub fn node_stage_volume(&self, volume_context: &Table<String>, staging_path: &str) -> (r: Result<
        CommandLine,
        CsiError,
    >)
        requires
            volume_context.wf(),
        ensures
            ({
                let path = context_path(volume_context@, self@.data_dir);
                match r {
                    Ok(c) => path.len() > 0 && c@ == mount_call(path, staging_path@, false),
                    Err(e) => path.len() == 0 && e@ == no_path(),
                }
            }),
    {
        let path = extract_volume_path(volume_context, self.data_dir.as_str());
        if path.as_str().unicode_len() == 0 {
            return Err(
                CsiError::InvalidArgument(
                    "volume_context must contain 'path' or 'volume_name' for staging".to_owned(),
                ),
            );
        }
        Ok(mount_command(path.as_str(), staging_path, false))
    }

    /// What is done to publish a volume at a path: it is mounted, to be read only if its context
    /// says so, and its owners are mapped if the context says so and the kernel can.
    pub fn node_publish_volume(&self, volume_context: &Table<String>, target_path: &str) -> (r: Result<
        NodePublish,
        CsiError,
    >)
        requires
            volume_context.wf(),
        ensures
            ({
                let path = context_path(volume_context@, self@.data_dir);
                match r {
                    Ok(p) => {
                        &&& path.len() > 0
                        &&& p.readonly == context_readonly(volume_context@)
                        &&& p.mount@ == mount_call(path, target_path@, p.readonly)
                        &&& p.idmap == context_idmap(volume_context@, self@.supports_idmapped)
                    },
                    Err(e) => path.len() == 0 && e@ == no_path(),
                }
            }),
    {
        let readonly = match volume_context.get("readonly") {
            Some(v) => same(v.as_str(), "true") || same(v.as_str(), "True"),
            None => false,
        };
        let path = extract_volume_path(volume_context, self.data_dir.as_str());
        if path.as_str().unicode_len() == 0 {
            return Err(
                CsiError::InvalidArgument(
                    "volume_context must contain 'path' or 'volume_name' for staging".to_owned(),
                ),
            );
        }
        let idmap = if self.supports_idmapped && (volume_context.contains("uid_map")
            || volume_context.contains("gid_map")) {
            Some((read_id(volume_context, "uid_map"), read_id(volume_context, "gid_map")))
        } else {
            None
        };
        Ok(
            NodePublish {
                mount: mount_command(path.as_str(), target_path, readonly),
                idmap,
                readonly,
            },
        )
    }

    /// The command that takes a mount away.
    pub fn unmount_command(&self, path: &str) -> (r: CommandLine)
        ensures
            r@ == (CommandView { program: "umount"@, args: seq![path@] }),
    {
        let r = CommandLine::new("umount").arg(path);
        assert(r@ =~= (CommandView { program: "umount"@, args: seq![path@] }));
        r
    }

    /// The commands that print the usage of the filesystem and of its inodes.
    pub fn stats_commands(&self) -> (r: (CommandLine, CommandLine))
        ensures
            r.0@ == btrfs_call("filesystem"@, seq!["usage"@, "-b"@, self@.data_dir]),
            r.1@ == (CommandView { program: "df"@, args: seq!["-i"@, self@.data_dir] }),
    {
        let first = CommandLine::new("btrfs").arg("filesystem").arg("usage").arg("-b").arg(
            self.data_dir.as_str(),
        );
        let second = CommandLine::new("df").arg("-i").arg(self.data_dir.as_str());
        assert(first@ =~= btrfs_call("filesystem"@, seq!["usage"@, "-b"@, self@.data_dir]));
        assert(second@ =~= (CommandView { program: "df"@, args: seq!["-i"@, self@.data_dir] }));
        (first, second)
    }

    /// The usage of the filesystem, by what the commands have printed. Without a table of inodes
    /// their numbers are zero. Gives nothing where more space is used than there is.
    pub fn node_get_volume_stats(&self, usage: &str, inodes: &Option<String>) -> (r: Option<
        VolumeStats,
    >)
        ensures
            match r {
                Some(s) => stats_of(usage@, opt_view(*inodes)) == Some(
                    StatsView {
                        available: s.available as int,
                        total: s.total as int,
                        used: s.used as int,
                        attributes: s.attributes@,
                    },
                ),
                None => stats_of(usage@, opt_view(*inodes)) is None,
            },
            ({
                let (total, used) = usage_in(lines(usage@));
                let (all, taken) = match *inodes {
                    Some(t) => inodes_in(body_lines(lines(t@))),
                    None => (0u64, 0u64),
                };
                &&& r is Some == (used <= total)
                &&& r matches Some(s) ==> {
                    &&& s.available == from_twos((total - used) as nat)
                    &&& s.total == from_twos(total as nat)
                    &&& s.used == from_twos(used as nat)
                    &&& s.attributes.wf()
                    &&& s.attributes@ == Map::empty().insert(
                        "inode_total"@,
                        decimal(all as nat),
                    ).insert("inode_used"@, decimal(taken as nat)).insert(
                        "inode_available"@,
                        decimal(
                            if taken <= all {
                                (all - taken) as nat
                            } else {
                                0
                            },
                        ),
                    )
                }
            }),
    {
        let (total, used) = parse_btrfs_usage(usage);
        let (all, taken) = match inodes {
            Some(t) => parse_inode_usage(t.as_str()),
            None => (0, 0),
        };
        if used > total {
            return None;
        }
        let free: u64 = if taken <= all {
            all - taken
        } else {
            0
        };
        let mut attributes: Table<String> = Table::new();
        attributes.insert("inode_total".to_owned(), u64_text(all));
        attributes.insert("inode_used".to_owned(), u64_text(taken));
        attributes.insert("inode_available".to_owned(), u64_text(free));
        Some(
            VolumeStats {
                available: as_signed(total - used),
                total: as_signed(total),
                used: as_signed(used),
                attributes,
            },
        )
    }

    /// The command that makes room in the filesystem, and the capacity to answer with.
    pub fn node_expand_volume(&self, required_bytes: Option<i64>) -> (r: (CommandLine, i64))
        ensures
            r.0@ == btrfs_call("filesystem"@, seq!["resize"@, "max"@, self@.data_dir]),
            r.1 == (match required_bytes {
                Some(b) => b,
                None => 0,
            }),
    {
        let c = CommandLine::new("btrfs").arg("filesystem").arg("resize").arg("max").arg(
            self.data_dir.as_str(),
        );
        assert(c@ =~= btrfs_call("filesystem"@, seq!["resize"@, "max"@, self@.data_dir]));
        let capacity: i64 = match required_bytes {
            Some(b) => b,
            None => 0,
        };
        (c, capacity)
    }

    /// The identifier of the node and its place in the topology.
    pub fn node_get_info(&self) -> (r: (String, Table<String>))
        ensures
            r.0@ == self@.node_id,
            r.1.wf(),
            r.1@ == Map::empty().insert(zone_segment(), self@.zone),
    {
        let mut segments: Table<String> = Table::new();
        segments.insert("topology.gocsi.io/zone".to_owned(), self.zone.clone());
        (self.node_id.clone(), segments)
    }
}

/// What the node service can do.
#[derive(Debug, Clone, Copy, PartialEq, Eq, Structural)]
pub enum NodeCapability {
    StageUnstageVolume,
}

/// What the node service can do.
pub fn node_get_capabilities() -> (r: Vec<NodeCapability>)
    ensures
        r@ == seq![NodeCapability::StageUnstageVolume],
{
    let mut r: Vec<NodeCapability> = Vec::new();
    r.push(NodeCapability::StageUnstageVolume);
    r
}

/// What a request for the idle I/O priority comes to on a node, by what the system call returned
/// and the text of the system's error.
pub fn set_io_priority_idle(returned: i64, error: &str) -> (r: Result<(), String>)
    ensures
        r is Ok == (returned >= 0),
        r matches Err(e) ==> e@ == "ioprio_set failed: "@ + error@,
{
    if returned < 0 {
        let mut e = "ioprio_set failed: ".to_owned();
        e.append(error);
        Err(e)
    } else {
        Ok(())
    }
}

/// A node offers the zone that the controller asks for: the topology of a node is not ruled out
/// by a request for its own zone.
pub proof fn own_zone_is_not_ruled_out(n: NodeView)
    ensures
        !zone_ruled_out(
            seq![Map::<Seq<char>, Seq<char>>::empty().insert(zone_segment(), n.zone)],
            n.zone,
        ),
{
    let t = seq![Map::<Seq<char>, Seq<char>>::empty().insert(zone_segment(), n.zone)];
    assert(t[0].dom().contains(zone_segment()));
    assert(t[0][zone_segment()] == n.zone);
}

} // verus!
