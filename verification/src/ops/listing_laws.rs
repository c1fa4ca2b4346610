//! What reading listings, descriptions and attributes promises, and which snapshots are kept.

use vstd::prelude::*;
use vstd::string::*;

use crate::number::{decimal, decimal_reads_back, signed_decimal, signed_decimal_reads_back};
use crate::ops::commands::{below, btrfs_call};
use crate::ops::io_priority::{file_name_in, mount_line, mounted_device, without_prefix};
use crate::ops::snapshot::{
    creation_format, expired_names, is_candidate, listed_snapshot, newest_candidate, retained,
    shown_snapshot, snapshot_lines, SnapshotShown, SnapshotView,
};
use crate::ops::subvolume::{
    field_number, field_text, last_part, listed_entry, listed_subvolumes, shown, spaced_size,
};
use crate::ops::xattr::{
    attr_in_line, attr_prefix, attrs_in, i64_attr, status_active, status_conflict, status_readonly,
    u64_attr,
};
use crate::text::{fields, has, joined, lines, parted, stands_at, trimmed, words};
use crate::text_laws::every_separator_parts;
use crate::time::{day_of_month, in_calendar, parsed_time, Moment};

verus! {

broadcast use vstd::string::group_string_axioms;

/// Commands of btrfs name their group first, and paths below a directory are parted from it by a
/// slash.
pub proof fn commands_name_their_group(group: Seq<char>, args: Seq<Seq<char>>, i: int)
    ensures
        btrfs_call(group, args).program == "btrfs"@,
        btrfs_call(group, args).args.len() == args.len() + 1,
        btrfs_call(group, args).args[0] == group,
        0 <= i < args.len() ==> btrfs_call(group, args).args[i + 1] == args[i],
{
}

/// A name below a directory.
pub proof fn names_stand_below_their_directory(dir: Seq<char>, name: Seq<char>)
    ensures
        below(dir, name) == dir + "/"@ + name,
{
}

/// A line of a listing gives the number behind the word `ID`, and as the path all words behind the
/// word `path`, or behind the sixth where that word does not stand in its place.
pub proof fn listed_line_gives_number_and_path(line: Seq<char>, n: nat)
    requires
        n <= u64::MAX,
    ensures
        ({
            let w = words(line);
            &&& w.len() >= 7 && w[0] == "ID"@ && w[1] == decimal(n) ==> {
                &&& w.len() > 8 && w[7] == "path"@ ==> listed_entry(line) == Some(
                    (n as u64, joined(w.skip(8), " "@)),
                )
                &&& w.len() <= 8 || w[7] != "path"@ ==> listed_entry(line) == Some(
                    (n as u64, joined(w.skip(6), " "@)),
                )
            }
            &&& w.len() < 7 || w[0] != "ID"@ ==> listed_entry(line) is None
        }),
{
    decimal_reads_back(n, u64::MAX as nat);
}

/// A path's name is what stands behind its last slash.
pub proof fn name_stands_behind_the_last_slash(a: Seq<char>, name: Seq<char>)
    requires
        !name.contains('/'),
    ensures
        last_part(name) == name,
        last_part(a + seq!['/'] + name) == name,
    decreases a.len(),
{
    every_separator_parts(name, '/', Seq::empty());
    lemma_last_field(a, name);
}

proof fn lemma_last_field(a: Seq<char>, name: Seq<char>)
    requires
        !name.contains('/'),
    ensures
        fields(a + seq!['/'] + name, '/').last() == name,
    decreases a.len(),
{
    let s = a + seq!['/'] + name;
    if !a.contains('/') {
        every_separator_parts(a, '/', name);
        every_separator_parts(name, '/', Seq::empty());
        assert((seq![a] + fields(name, '/')).last() == name);
    } else {
        let i = lemma_first(a);
        let front = a.take(i);
        let rest = a.skip(i + 1);
        assert(!front.contains('/')) by {
            if front.contains('/') {
                let k = choose|k: int| 0 <= k < front.len() && front[k] == '/';
                assert(a[k] == '/');
            }
        }
        let t = rest + seq!['/'] + name;
        assert(s =~= front + seq!['/'] + t);
        every_separator_parts(front, '/', t);
        lemma_last_field(rest, name);
        crate::text_laws::parts_make_up_the_text(t, '/');
        assert((seq![front] + fields(t, '/')).last() == fields(t, '/').last());
    }
}

proof fn lemma_first(a: Seq<char>) -> (i: int)
    requires
        a.contains('/'),
    ensures
        0 <= i < a.len(),
        a[i] == '/',
        forall|k: int| 0 <= k < i ==> #[trigger] a[k] != '/',
    decreases a.len(),
{
    if a[0] == '/' {
        0
    } else {
        let t = a.skip(1);
        let k = choose|k: int| 0 <= k < a.len() && a[k] == '/';
        assert(t[k - 1] == '/');
        let j = lemma_first(t);
        assert forall|k: int| 0 <= k < j + 1 implies #[trigger] a[k] != '/' by {
            if k > 0 {
                assert(t[k - 1] == a[k]);
            }
        }
        j + 1
    }
}

/// Every line that describes a subvolume counts, in its order: with its number and its path, named
/// by the last part of that, as a child of the top level.
pub proof fn every_listed_subvolume_counts(
    l: Seq<Seq<char>>,
    line: Seq<char>,
    id: u64,
    path: Seq<char>,
)
    ensures
        listed_subvolumes(Seq::empty()).len() == 0,
        listed_entry(line) is None ==> listed_subvolumes(l.push(line)) == listed_subvolumes(l),
        listed_entry(line) == Some((id, path)) ==> {
            &&& listed_subvolumes(l.push(line)).len() == listed_subvolumes(l).len() + 1
            &&& listed_subvolumes(l.push(line)).drop_last() == listed_subvolumes(l)
            &&& listed_subvolumes(l.push(line)).last().id == id
            &&& listed_subvolumes(l.push(line)).last().path == path
            &&& listed_subvolumes(l.push(line)).last().name == last_part(path)
            &&& listed_subvolumes(l.push(line)).last().parent_id == Some(5u64)
            &&& listed_subvolumes(l.push(line)).last().size == 0
        },
{
    assert(l.push(line).drop_last() =~= l);
    if listed_entry(line) == Some((id, path)) {
        assert(listed_subvolumes(l.push(line)).drop_last() =~= listed_subvolumes(l));
    }
}

/// Every line that describes a snapshot counts, in its order, with its number and its path, named
/// by the last part of that.
pub proof fn every_listed_snapshot_counts(
    l: Seq<Seq<char>>,
    line: Seq<char>,
    id: u64,
    path: Seq<char>,
    t: Moment,
)
    ensures
        snapshot_lines(Seq::empty()).len() == 0,
        listed_entry(line) is None ==> snapshot_lines(l.push(line)) == snapshot_lines(l),
        listed_entry(line) is None ==> listed_snapshot(line, t) is None,
        listed_entry(line) == Some((id, path)) ==> {
            &&& snapshot_lines(l.push(line)) == snapshot_lines(l).push(line)
            &&& listed_snapshot(line, t) == Some(
                SnapshotView {
                    id,
                    name: last_part(path),
                    path,
                    subvolume_id: 0,
                    created_at: t,
                    size: 0,
                },
            )
        },
{
    assert(l.push(line).drop_last() =~= l);
}

/// The value of a field stands behind the first colon, up to the next, without the spaces around
/// it; a number is read from its digits.
pub proof fn value_stands_behind_the_colon(
    a: Seq<char>,
    x: Seq<char>,
    more: Seq<char>,
    default: Seq<char>,
    n: nat,
)
    requires
        !a.contains(':'),
        !x.contains(':'),
        n <= u64::MAX,
    ensures
        field_text(a + seq![':'] + x, default) == trimmed(x),
        field_text(a + seq![':'] + x + seq![':'] + more, default) == trimmed(x),
        field_text(a, default) == trimmed(default),
        trimmed(x) == decimal(n) ==> field_number(a + seq![':'] + x) == n,
{
    every_separator_parts(a, ':', x);
    every_separator_parts(a, ':', x + seq![':'] + more);
    every_separator_parts(x, ':', more);
    crate::text_laws::parts_make_up_the_text(more, ':');
    assert(a + seq![':'] + x + seq![':'] + more =~= a + seq![':'] + (x + seq![':'] + more));
    let f = fields(a + seq![':'] + x, ':');
    assert(f[1] == x);
    let g = fields(a + seq![':'] + x + seq![':'] + more, ':');
    assert(g[1] == x);
    decimal_reads_back(n, u64::MAX as nat);
}

/// Each line of a description of a subvolume gives what it is about, and leaves the rest.
pub proof fn description_gives_each_field(l: Seq<Seq<char>>, x: Seq<char>)
    ensures
        shown(Seq::empty()).id == 0,
        shown(Seq::empty()).uuid.len() == 0,
        shown(Seq::empty()).size == 0,
        has(x, "Subvolume ID:"@) ==> shown(l.push(x)).id == field_number(x),
        has(x, "Subvolume ID:"@) == false ==> shown(l.push(x)).id == shown(l).id,
        has(x, "UUID:"@) ==> shown(l.push(x)).uuid == field_text(x, Seq::empty()),
        has(x, "UUID:"@) == false ==> shown(l.push(x)).uuid == shown(l).uuid,
        has(x, "Size:"@) ==> shown(l.push(x)).size == spaced_size(field_text(x, Seq::empty())),
        has(x, "Size:"@) == false ==> shown(l.push(x)).size == shown(l).size,
{
    assert(l.push(x).drop_last() =~= l);
}

/// Each line of a description of a snapshot gives what it is about, and leaves the rest. The time
/// of the creation stands behind the first colon; one that cannot be read counts as the present.
pub proof fn snapshot_description_gives_each_field(
    l: Seq<Seq<char>>,
    x: Seq<char>,
    a: Seq<char>,
    text: Seq<char>,
    now: Moment,
)
    ensures
        shown_snapshot(Seq::empty(), now) == (SnapshotShown {
            id: 0,
            subvolume_id: 0,
            created_at: now,
        }),
        has(x, "Subvolume ID:"@) ==> shown_snapshot(l.push(x), now).id == field_number(x),
        has(x, "Subvolume ID:"@) == false ==> shown_snapshot(l.push(x), now).id == shown_snapshot(
            l,
            now,
        ).id,
        has(x, "Parent ID:"@) ==> shown_snapshot(l.push(x), now).subvolume_id == field_number(x),
        has(x, "Parent ID:"@) == false ==> shown_snapshot(l.push(x), now).subvolume_id
            == shown_snapshot(l, now).subvolume_id,
        has(x, "Creation time:"@) == false ==> shown_snapshot(l.push(x), now).created_at
            == shown_snapshot(l, now).created_at,
        has(x, "Creation time:"@) && !a.contains(':') && x == a + seq![':'] + text ==> {
            let t = shown_snapshot(l.push(x), now).created_at;
            let p = parsed_time(trimmed(text), "%Y-%m-%d %H:%M:%S %z"@);
            &&& p is None ==> t == now
            &&& p matches Some((secs, nanos)) ==> t.secs == secs && t.nanos == nanos
        },
{
    assert(l.push(x).drop_last() =~= l);
    if !a.contains(':') {
        every_separator_parts(a, ':', text);
    }
}

/// A time is before another when fewer nanoseconds have passed.
pub proof fn time_is_ordered(a: Moment, b: Moment)
    requires
        a.nanos < 1_000_000_000,
        b.nanos < 1_000_000_000,
    ensures
        a.before(b) == (a.secs * 1_000_000_000 + a.nanos < b.secs * 1_000_000_000 + b.nanos),
{
}

/// Days go by every 86,400 seconds, and every seventh is a Sunday, the first of them on 4 January
/// 1970.
pub proof fn every_seventh_day_is_a_sunday(t: Moment)
    ensures
        t.on_sunday() == (((t.secs as int - 3 * 86_400) / 86_400) % 7 == 0),
        t.secs <= i64::MAX - 604_800 ==> t.on_sunday() == (Moment {
            secs: (t.secs + 604_800) as i64,
            nanos: t.nanos,
        }).on_sunday(),
        t.on_first_of_month() ==> day_of_month(t.secs as int / 86_400) == 1,
        in_calendar(t.secs) && day_of_month(t.secs as int / 86_400) == 1 ==> t.on_first_of_month(),
{
}

/// A snapshot is kept for so many days, one of a Sunday for so many weeks, and one of the first of a
/// month for so many times thirty days. Nothing else keeps it.
pub proof fn snapshots_are_kept_for_their_time(
    t: Moment,
    now: Moment,
    daily: u32,
    weekly: u32,
    monthly: u32,
)
    ensures
        ({
            let age = (now.secs * 1_000_000_000 + now.nanos) - (t.secs * 1_000_000_000 + t.nanos);
            let day = 24 * 60 * 60 * 1_000_000_000;
            age >= 0 ==> retained(t, now, daily, weekly, monthly) == (age < daily * day || (age
                < weekly * 7 * day && t.on_sunday()) || (age < monthly * 30 * day
                && t.on_first_of_month()))
        }),
        t.secs > now.secs && daily > 0 ==> retained(t, now, daily, weekly, monthly),
{
    let age = (now.secs * 1_000_000_000 + now.nanos) - (t.secs * 1_000_000_000 + t.nanos);
    assert(age == now.instant() - t.instant());
}

/// A policy that keeps more of any kind keeps whatever the other keeps.
pub proof fn longer_policies_keep_more(
    t: Moment,
    now: Moment,
    a: (u32, u32, u32),
    b: (u32, u32, u32),
)
    requires
        a.0 <= b.0,
        a.1 <= b.1,
        a.2 <= b.2,
        retained(t, now, a.0, a.1, a.2),
    ensures
        retained(t, now, b.0, b.1, b.2),
{
}

/// Every snapshot that is not kept is deleted, in its order, and no other.
pub proof fn what_is_not_kept_is_deleted(
    s: Seq<SnapshotView>,
    x: SnapshotView,
    now: Moment,
    d: u32,
    w: u32,
    m: u32,
)
    ensures
        expired_names(Seq::empty(), now, d, w, m).len() == 0,
        retained(x.created_at, now, d, w, m) ==> expired_names(s.push(x), now, d, w, m)
            == expired_names(s, now, d, w, m),
        !retained(x.created_at, now, d, w, m) ==> expired_names(s.push(x), now, d, w, m)
            == expired_names(s, now, d, w, m).push(x.name),
{
    assert(s.push(x).drop_last() =~= s);
}

/// The snapshot from which the next one is sent is the newest other one of the subvolume's own; a
/// subvolume's own are named by it, and of several equally new the last counts.
pub proof fn newest_other_snapshot_is_chosen(s: Seq<SnapshotView>, subvolume: Seq<char>, id: u64)
    ensures
        match newest_candidate(s, subvolume, id) {
            Some(x) => exists|i: int|
                {
                    &&& 0 <= i < s.len()
                    &&& #[trigger] s[i] == x
                    &&& x.id != id
                    &&& stands_at(x.name, subvolume + "_snap_"@, 0)
                    &&& forall|j: int|
                        0 <= j < s.len() && (#[trigger] s[j]).id != id && stands_at(
                            s[j].name,
                            subvolume + "_snap_"@,
                            0,
                        ) ==> !x.created_at.before(s[j].created_at) && (j > i
                            ==> s[j].created_at.before(x.created_at))
                },
            None => forall|j: int|
                0 <= j < s.len() ==> (#[trigger] s[j]).id == id || !stands_at(
                    s[j].name,
                    subvolume + "_snap_"@,
                    0,
                ),
        },
    decreases s.len(),
{
    if s.len() > 0 {
        let t = s.drop_last();
        let y = s.last();
        let n = s.len() - 1;
        newest_other_snapshot_is_chosen(t, subvolume, id);
        let old = newest_candidate(t, subvolume, id);
        match newest_candidate(s, subvolume, id) {
            Some(x) => {
                if old == Some(x) && (!is_candidate(y, subvolume, id) || y.created_at.before(
                    x.created_at,
                )) {
                    let i = choose|i: int|
                        {
                            &&& 0 <= i < t.len()
                            &&& #[trigger] t[i] == x
                            &&& x.id != id
                            &&& stands_at(x.name, subvolume + "_snap_"@, 0)
                            &&& forall|j: int|
                                0 <= j < t.len() && (#[trigger] t[j]).id != id && stands_at(
                                    t[j].name,
                                    subvolume + "_snap_"@,
                                    0,
                                ) ==> !x.created_at.before(t[j].created_at) && (j > i
                                    ==> t[j].created_at.before(x.created_at))
                        };
                    assert(s[i] == x);
                    assert forall|j: int|
                        0 <= j < s.len() && (#[trigger] s[j]).id != id && stands_at(
                            s[j].name,
                            subvolume + "_snap_"@,
                            0,
                        ) implies !x.created_at.before(s[j].created_at) && (j > i
                        ==> s[j].created_at.before(x.created_at)) by {
                        if j < n {
                            assert(t[j] == s[j]);
                        }
                    }
                } else {
                    assert(s[n] == x);
                    assert forall|j: int|
                        0 <= j < s.len() && (#[trigger] s[j]).id != id && stands_at(
                            s[j].name,
                            subvolume + "_snap_"@,
                            0,
                        ) implies !x.created_at.before(s[j].created_at) by {
                        if j < n {
                            assert(t[j] == s[j]);
                        }
                    }
                }
            },
            None => {
                assert forall|j: int| 0 <= j < s.len() implies (#[trigger] s[j]).id == id
                    || !stands_at(s[j].name, subvolume + "_snap_"@, 0) by {
                    if j < n {
                        assert(t[j] == s[j]);
                    }
                }
            },
        }
    }
}

/// An attribute stands in its line as its name, an equals sign and its value. The prefix of the
/// driver's own attributes is taken off, and spaces around name and value are dropped.
pub proof fn attribute_stands_in_its_line(k: Seq<char>, v: Seq<char>, short: Seq<char>)
    requires
        !k.contains('='),
    ensures
        attr_in_line(k) is None,
        trimmed(k) == "user.csi."@ + short ==> attr_in_line(k + seq!['='] + v) == Some(
            (short, trimmed(v)),
        ),
        !stands_at(trimmed(k), "user.csi."@, 0) ==> attr_in_line(k + seq!['='] + v) == Some(
            (trimmed(k), trimmed(v)),
        ),
{
    every_separator_parts(k, '=', v);
    crate::text_laws::what_stands_in_a_text_is_found(Seq::empty(), "user.csi."@, short);
}

/// Every line with an attribute counts, the last for each name.
pub proof fn every_attribute_counts(l: Seq<Seq<char>>, x: Seq<char>, k: Seq<char>, v: Seq<char>)
    ensures
        attrs_in(Seq::empty()) == Map::<Seq<char>, Seq<char>>::empty(),
        attr_in_line(x) is None ==> attrs_in(l.push(x)) == attrs_in(l),
        attr_in_line(x) == Some((k, v)) ==> attrs_in(l.push(x)) == attrs_in(l).insert(k, v),
{
    assert(l.push(x).drop_last() =~= l);
}

/// Numbers are stored as their digits, and what holds none counts as zero.
pub proof fn stored_numbers_read_back(n: nat, i: int, text: Seq<char>)
    ensures
        n <= u64::MAX ==> u64_attr(Some(decimal(n))) == n,
        i64::MIN <= i <= i64::MAX ==> i64_attr(Some(signed_decimal(i))) == i,
        u64_attr(None) == 0,
        i64_attr(None) == 0,
        text.len() == 0 ==> u64_attr(Some(text)) == 0 && i64_attr(Some(text)) == 0,
{
    if n <= u64::MAX {
        decimal_reads_back(n, u64::MAX as nat);
    }
    if i64::MIN <= i <= i64::MAX {
        signed_decimal_reads_back(i);
    }
}

/// The states of a volume have their names, and attributes their prefix.
pub proof fn stored_names_are_fixed()
    ensures
        attr_prefix() == "user.csi."@,
        status_active() == "active"@,
        status_readonly() == "readonly"@,
        status_conflict() == "conflict"@,
        creation_format() == "%Y-%m-%d %H:%M:%S %z"@,
{
}

/// The device of a mount point is named by the first word of the first line that has the mount
/// point.
pub proof fn first_line_with_the_mount_point_counts(
    l: Seq<Seq<char>>,
    mount_point: Seq<char>,
    i: int,
)
    requires
        0 <= i <= l.len(),
        forall|j: int| 0 <= j < i ==> has(#[trigger] l[j], mount_point) == false,
    ensures
        i < l.len() && has(l[i], mount_point) ==> mount_line(l, mount_point) == Some(l[i]),
        i == l.len() ==> mount_line(l, mount_point) is None,
    decreases i,
{
    if i > 0 {
        let t = l.skip(1);
        assert(has(l[0], mount_point) == false);
        assert forall|j: int| 0 <= j < i - 1 implies has(#[trigger] t[j], mount_point) == false by {
            assert(t[j] == l[j + 1]);
        }
        if i < l.len() {
            assert(t[i - 1] == l[i]);
        }
        first_line_with_the_mount_point_counts(t, mount_point, i - 1);
    }
}

/// A device is named by the last part of its path.
pub proof fn device_is_named_by_its_path(
    mounts: Seq<char>,
    mount_point: Seq<char>,
    line: Seq<char>,
    dir: Seq<char>,
    name: Seq<char>,
)
    requires
        !name.contains('/'),
        name.len() > 0,
        name != "."@,
        name != ".."@,
    ensures
        mount_line(lines(mounts), mount_point) == Some(line) && words(line).len() > 0 && words(
            line,
        )[0] == dir + seq!['/'] + name ==> mounted_device(mounts, mount_point) == Some(name),
        mount_line(lines(mounts), mount_point) is None ==> mounted_device(mounts, mount_point)
            is None,
        mount_line(lines(mounts), mount_point) == Some(line) && words(line).len() == 0
            ==> mounted_device(mounts, mount_point) is None,
{
    lemma_last_field(dir, name);
    let f = fields(dir + seq!['/'] + name, '/');
    crate::text_laws::parts_make_up_the_text(dir + seq!['/'] + name, '/');
    assert(file_name_in(f) == Some(name));
}

/// A prefix is taken off as often as it stands there.
pub proof fn prefixes_are_taken_off(s: Seq<char>, pat: Seq<char>)
    requires
        pat.len() > 0,
    ensures
        without_prefix(pat + s, pat) == without_prefix(s, pat),
        !stands_at(s, pat, 0) ==> without_prefix(s, pat) == s,
{
    let t = pat + s;
    assert(t.subrange(0, pat.len() as int) =~= pat);
    assert(t.skip(pat.len() as int) =~= s);
}

} // verus!
