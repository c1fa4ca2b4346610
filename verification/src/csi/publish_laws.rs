//! What the publication of volumes on nodes promises.

use vstd::prelude::*;
use vstd::string::*;

use crate::csi::controller::{first_with, volume_ids, ControllerView, DirEntryView};
use crate::csi::error::CsiErrorView;
use crate::csi::node::{
    body_lines, context_idmap, context_path, context_readonly, inodes_in, mount_call, no_path,
    release_maps_ids, usage_in,
};
use crate::csi::publish::{
    json_text, publish_action, publish_next, published_reply, status_after, PublishActionView,
    PublishEventView, PublishStateView, PublishView,
};
use crate::csi::published::{is_listable, listed_nodes, stored_nodes_read_back, without_node};
use crate::csi::volume_laws::first_entry_is_found;
use crate::exchange::quorum::LeaseView;
use crate::exchange::replicator::list_without;
use crate::number::{decimal, decimal_reads_back};
use crate::ops::commands::CommandView;
use crate::text::{fields, has, joined, trimmed, words};

verus! {

broadcast use vstd::string::group_string_axioms;

/// A volume whose context says `true` or `True` under `readonly` is mounted read-only, and no
/// other is: the command carries the option then, and otherwise binds without options.
pub proof fn readonly_context_is_mounted_readonly(
    c: Map<Seq<char>, Seq<char>>,
    path: Seq<char>,
    target: Seq<char>,
    v: Seq<char>,
)
    ensures
        context_readonly(c.insert("readonly"@, "true"@)),
        context_readonly(c.insert("readonly"@, "True"@)),
        v != "true"@ && v != "True"@ ==> !context_readonly(c.insert("readonly"@, v)),
        !c.dom().contains("readonly"@) ==> !context_readonly(c),
        c.dom().contains("readonly"@) && (c["readonly"@] == "true"@ || c["readonly"@] == "True"@)
            ==> mount_call(path, target, context_readonly(c)) == (CommandView {
            program: "mount"@,
            args: seq!["--bind"@, "-o"@, "bind,ro"@, path, target],
        }),
        !c.dom().contains("readonly"@) || c["readonly"@] != "true"@ && c["readonly"@] != "True"@
            ==> mount_call(path, target, context_readonly(c)) == (CommandView {
            program: "mount"@,
            args: seq!["--bind"@, path, target],
        }),
        mount_call(path, target, true) == (CommandView {
            program: "mount"@,
            args: seq!["--bind"@, "-o"@, "bind,ro"@, path, target],
        }),
        mount_call(path, target, false) == (CommandView {
            program: "mount"@,
            args: seq!["--bind"@, path, target],
        }),
        mount_call(path, target, true).args.contains("bind,ro"@),
{
    assert(mount_call(path, target, true).args[2] == "bind,ro"@);
}

/// Where no lease is granted, the node is told that the volume is read-only, and a context that
/// says so makes the node mount it read-only. Where the lease is granted it is told the opposite,
/// and the volume can be written.
pub proof fn volume_without_lease_is_mounted_readonly(
    v: PublishView,
    name: Seq<char>,
    path: Seq<char>,
    q: LeaseView,
    c: ControllerView,
    published: Option<Seq<char>>,
    context: Map<Seq<char>, Seq<char>>,
    target: Seq<char>,
)
    requires
        v.state == (PublishStateView::Voting { name, path }),
        !q.conflict,
    ensures
        ({
            let w = PublishView { state: publish_next(v, PublishEventView::Lease(q)), ..v };
            let told = publish_action(w, PublishEventView::Published(published), c);
            &&& w.state == (PublishStateView::Listing { name, readonly: !q.granted })
            &&& told is Reply
            &&& told->publish_context == json_text(
                "path"@,
                c.data_dir + "/"@ + name,
                "node_id"@,
                c.node_id,
                "readonly"@,
                !q.granted,
            )
            &&& publish_action(v, PublishEventView::Lease(q), c) == (PublishActionView::Mark {
                path,
                status: if q.granted {
                    "active"@
                } else {
                    "readonly"@
                },
            })
            &&& !q.granted ==> mount_call(
                context_path(context.insert("readonly"@, "true"@), c.data_dir),
                target,
                context_readonly(context.insert("readonly"@, "true"@)),
            ).args.contains("bind,ro"@)
            &&& q.granted ==> mount_call(
                context_path(context.insert("readonly"@, "false"@), c.data_dir),
                target,
                context_readonly(context.insert("readonly"@, "false"@)),
            ).args.len() == 3
        }),
{
    reveal_strlit("true");
    reveal_strlit("True");
    reveal_strlit("false");
    assert("false"@.len() != "true"@.len() && "false"@.len() != "True"@.len());
    let p = context_path(context.insert("readonly"@, "true"@), c.data_dir);
    readonly_context_is_mounted_readonly(context, p, target, "false"@);
}

/// A volume in conflict is not published: neither where its stored status says so, which is not
/// even asked about, nor where the vote finds it, which is then stored.
pub proof fn volume_in_conflict_is_refused(
    v: PublishView,
    name: Seq<char>,
    path: Seq<char>,
    q: LeaseView,
    c: ControllerView,
    why: Seq<char>,
)
    ensures
        ({
            let w = PublishView { state: PublishStateView::Checking { name, path }, ..v };
            let a = publish_action(w, PublishEventView::Status("conflict"@), c);
            &&& publish_next(w, PublishEventView::Status("conflict"@)) is Finished
            &&& a == (PublishActionView::Refuse {
                mark: None,
                error: CsiErrorView::FailedPrecondition(
                    "Volume "@ + v.volume_id
                        + " is in CONFLICT state. Manual resolution required via btrfs send/receive."@,
                ),
            })
        }),
        ({
            let w = PublishView { state: PublishStateView::Voting { name, path }, ..v };
            let a = publish_action(w, PublishEventView::Lease(q), c);
            q.conflict ==> {
                &&& publish_next(w, PublishEventView::Lease(q)) is Finished
                &&& a == (PublishActionView::Refuse {
                    mark: Some((path, "conflict"@)),
                    error: CsiErrorView::FailedPrecondition(
                        "Volume "@ + v.volume_id + " is in CONFLICT state after quorum check ("@
                            + decimal(q.votes_received) + " "@ + decimal(q.votes_needed) + ")"@,
                    ),
                })
            }
        }),
        ({
            let w = PublishView { state: PublishStateView::Voting { name, path }, ..v };
            let a = publish_action(w, PublishEventView::NoVote(why), c);
            &&& publish_next(w, PublishEventView::NoVote(why)) is Finished
            &&& a == (PublishActionView::Refuse {
                mark: None,
                error: CsiErrorView::Internal("Quorum check failed: "@ + why),
            })
        }),
{
}

/// A volume that is in no conflict is voted on, whatever else its status is, and a volume is
/// looked for by its identifier.
pub proof fn every_other_volume_is_voted_on(
    v: PublishView,
    name: Seq<char>,
    path: Seq<char>,
    status: Seq<char>,
    e: Seq<DirEntryView>,
    c: ControllerView,
    i: int,
)
    requires
        status != "conflict"@,
        0 <= i < e.len(),
        e[i].volume_id == Some(v.volume_id),
        forall|j: int| 0 <= j < i ==> (#[trigger] e[j]).volume_id != Some(v.volume_id),
    ensures
        ({
            let w = PublishView { state: PublishStateView::Checking { name, path }, ..v };
            &&& publish_next(w, PublishEventView::Status(status)) == (PublishStateView::Voting {
                name,
                path,
            })
            &&& publish_action(w, PublishEventView::Status(status), c)
                == PublishActionView::RequestLease(path)
        }),
        ({
            let w = PublishView { state: PublishStateView::Finding, ..v };
            &&& publish_next(w, PublishEventView::Entries(e)) == (PublishStateView::Checking {
                name: e[i].name,
                path: e[i].path,
            })
            &&& publish_action(w, PublishEventView::Entries(e), c)
                == PublishActionView::ReadStatus(e[i].path)
        }),
{
    let ids = volume_ids(e);
    first_entry_is_found(ids, v.volume_id);
    assert(ids[i] == Some(v.volume_id));
    assert forall|j: int| 0 <= j < i implies #[trigger] ids[j] != Some(v.volume_id) by {
        assert(e[j].volume_id != Some(v.volume_id));
    }
}

/// A volume that is not there is refused as not found.
pub proof fn missing_volume_is_not_published(
    v: PublishView,
    e: Seq<DirEntryView>,
    c: ControllerView,
)
    requires
        v.state is Finding,
        forall|j: int| 0 <= j < e.len() ==> (#[trigger] e[j]).volume_id != Some(v.volume_id),
    ensures
        publish_next(v, PublishEventView::Entries(e)) is Finished,
        publish_action(v, PublishEventView::Entries(e), c) == (PublishActionView::Refuse {
            mark: None,
            error: CsiErrorView::NotFound("Volume "@ + v.volume_id + " not found"@),
        }),
{
    let ids = volume_ids(e);
    first_entry_is_found(ids, v.volume_id);
    match first_with(ids, v.volume_id) {
        Some(i) => {
            assert(e[i].volume_id != Some(v.volume_id));
        },
        None => {},
    }
}

/// Publishing adds the node at the end of the stored list, and stores nothing where it is listed.
pub proof fn publishing_stores_the_node(
    c: ControllerView,
    name: Seq<char>,
    readonly: bool,
    node: Seq<char>,
    nodes: Seq<Seq<char>>,
)
    requires
        nodes.len() > 0,
        forall|i: int| 0 <= i < nodes.len() ==> is_listable(#[trigger] nodes[i]),
    ensures
        ({
            let r = published_reply(c, name, readonly, node, Some(joined(nodes, ","@)));
            &&& nodes.contains(node) ==> r->published is None
            &&& !nodes.contains(node) ==> r->published == Some(joined(nodes.push(node), ","@))
        }),
        published_reply(c, name, readonly, node, None)->published == Some(node),
        is_listable(node) && !nodes.contains(node) ==> listed_nodes(
            Some(joined(nodes.push(node), ","@)),
        ) == nodes.push(node),
{
    stored_nodes_read_back(nodes);
    assert(Seq::<Seq<char>>::empty().push(node) =~= seq![node]);
    assert(seq![node].drop_last() =~= Seq::<Seq<char>>::empty());
    if is_listable(node) {
        let more = nodes.push(node);
        assert forall|i: int| 0 <= i < more.len() implies is_listable(#[trigger] more[i]) by {
            if i < nodes.len() {
                assert(more[i] == nodes[i]);
            }
        }
        stored_nodes_read_back(more);
    }
}

/// Unpublishing takes the node out wherever it stands and keeps the others in their order.
pub proof fn unpublishing_keeps_the_others(nodes: Seq<Seq<char>>, node: Seq<char>)
    ensures
        without_node(nodes, node) == nodes.filter(|x: Seq<char>| x != node),
    decreases nodes.len(),
{
    reveal(Seq::filter);
    if nodes.len() > 0 {
        unpublishing_keeps_the_others(nodes.drop_last(), node);
        assert(list_without(nodes.drop_last(), node) == without_node(nodes.drop_last(), node));
    }
}

/// A volume is mounted from the path in its context, or from its name's place in the directory of
/// the volumes where there is no path; without either it is refused.
pub proof fn volume_is_mounted_from_its_place(
    c: Map<Seq<char>, Seq<char>>,
    dir: Seq<char>,
    path: Seq<char>,
    name: Seq<char>,
)
    ensures
        context_path(c.insert("path"@, path), dir) == path,
        !c.dom().contains("path"@) ==> context_path(c.insert("volume_name"@, name), dir) == dir
            + "/"@ + name,
        !c.dom().contains("path"@) && !c.dom().contains("volume_name"@) ==> context_path(
            c,
            dir,
        ).len() == 0,
        no_path() is InvalidArgument,
{
    reveal_strlit("path");
    reveal_strlit("volume_name");
    assert("path"@.len() != "volume_name"@.len());
}

/// Owners are mapped where the kernel can and the context names an owner or a group; one that is
/// not named, or is no number, is the first.
pub proof fn owners_are_mapped_where_asked(
    c: Map<Seq<char>, Seq<char>>,
    u: nat,
    g: nat,
)
    requires
        u <= u32::MAX,
        g <= u32::MAX,
    ensures
        context_idmap(c, false) is None,
        !c.dom().contains("uid_map"@) && !c.dom().contains("gid_map"@) ==> context_idmap(
            c,
            true,
        ) is None,
        context_idmap(
            c.insert("uid_map"@, decimal(u)).insert("gid_map"@, decimal(g)),
            true,
        ) == Some((u as u32, g as u32)),
        !c.dom().contains("gid_map"@) ==> context_idmap(
            c.insert("uid_map"@, decimal(u)),
            true,
        ) == Some((u as u32, 0u32)),
        !c.dom().contains("uid_map"@) ==> context_idmap(
            c.insert("gid_map"@, decimal(g)),
            true,
        ) == Some((0u32, g as u32)),
{
    reveal_strlit("uid_map");
    reveal_strlit("gid_map");
    assert("uid_map"@[0] != "gid_map"@[0]);
    decimal_reads_back(u, u32::MAX as nat);
    decimal_reads_back(g, u32::MAX as nat);
}

/// Owners of mounts are mapped by kernels from 5.12 on, and by none before.
pub proof fn kernels_map_owners_from_5_12_on(release: Seq<char>, major: nat, minor: nat)
    requires
        major <= u32::MAX,
        minor <= u32::MAX,
        fields(trimmed(release), '.').len() >= 2,
        fields(trimmed(release), '.')[0] == decimal(major),
        fields(trimmed(release), '.')[1] == decimal(minor),
    ensures
        major > 5 ==> release_maps_ids(release),
        major == 5 ==> release_maps_ids(release) == (minor >= 12),
        major < 5 ==> !release_maps_ids(release),
{
    decimal_reads_back(major, u32::MAX as nat);
    decimal_reads_back(minor, u32::MAX as nat);
}

/// In an overview the line of the allocated space gives the total and that of the used space the
/// used size, each by its second word; other lines change neither.
pub proof fn overview_gives_total_and_used(l: Seq<Seq<char>>, line: Seq<char>, n: nat)
    requires
        n <= u64::MAX,
        words(line).len() > 1,
        words(line)[1] == decimal(n),
    ensures
        has(line, "Device allocated:"@) && has(line, "Device allocated"@) ==> usage_in(l.push(line))
            == (n as u64, usage_in(l).1),
        has(line, "Used:"@) && has(line, "Device allocated"@) == false ==> usage_in(l.push(line))
            == (usage_in(l).0, n as u64),
        has(line, "Device allocated:"@) == false && has(line, "Used:"@) == false ==> usage_in(
            l.push(line),
        ) == usage_in(l),
        usage_in(Seq::empty()) == (0u64, 0u64),
{
    decimal_reads_back(n, u64::MAX as nat);
    assert(l.push(line).drop_last() =~= l);
}

/// The inodes are those of the first line behind the heading: its second word is their number and
/// its third how many are used. Lines of less than four words are passed over.
pub proof fn inodes_are_read_behind_the_heading(
    heading: Seq<char>,
    line: Seq<char>,
    rest: Seq<Seq<char>>,
    n: nat,
    m: nat,
)
    requires
        n <= u64::MAX,
        m <= u64::MAX,
        words(line).len() >= 4,
        words(line)[1] == decimal(n),
        words(line)[2] == decimal(m),
    ensures
        inodes_in(body_lines(seq![heading, line] + rest)) == (n as u64, m as u64),
        inodes_in(body_lines(seq![heading])) == (0u64, 0u64),
        words(heading).len() < 4 ==> inodes_in(seq![heading] + rest) == inodes_in(rest),
{
    assert((seq![heading] + rest).skip(1) =~= rest);
    decimal_reads_back(n, u64::MAX as nat);
    decimal_reads_back(m, u64::MAX as nat);
    let l = seq![heading, line] + rest;
    assert(body_lines(l)[0] == line);
    assert(body_lines(seq![heading]) =~= Seq::<Seq<char>>::empty());
}

/// The status that a vote leaves behind: a conflict comes before everything, a lease makes the
/// volume writable, and without one it can only be read.
pub proof fn vote_decides_the_status(q: LeaseView)
    ensures
        q.conflict ==> status_after(q) == "conflict"@,
        !q.conflict && q.granted ==> status_after(q) == "active"@,
        !q.conflict && !q.granted ==> status_after(q) == "readonly"@,
{
}

} // verus!
