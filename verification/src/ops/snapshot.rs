//! Snapshots.

use vstd::prelude::*;
use vstd::string::*;

use crate::ops::commands::{below, btrfs_call, path_below, CommandLine};
use crate::ops::subvolume::{
    base_name, field_number, last_part, listed_entry, read_field_number, read_listed_entry,
};
use crate::text::{
    contains, has, lines, parted, split_lines, split_once, stands_at, starts_with, string_views,
    trim, trimmed, views,
};
use crate::time::{
    days_between, now, now_formatted, parse_time, parsed_time, whole_days, Moment,
};

verus! {

broadcast use vstd::string::group_string_axioms;

/// Information about a btrfs snapshot.
#[derive(Debug)]
pub struct Snapshot {
    pub id: u64,
    pub name: String,
    pub path: String,
    pub subvolume_id: u64,
    pub created_at: Moment,
    pub size: u64,
}

/// What is known of a snapshot.
#[verifier::ext_equal]
pub struct SnapshotView {
    pub id: u64,
    pub name: Seq<char>,
    pub path: Seq<char>,
    pub subvolume_id: u64,
    pub created_at: Moment,
    pub size: u64,
}

impl View for Snapshot {
    type V = SnapshotView;

    open spec fn view(&self) -> SnapshotView {
        SnapshotView {
            id: self.id,
            name: self.name@,
            path: self.path@,
            subvolume_id: self.subvolume_id,
            created_at: self.created_at,
            size: self.size,
        }
    }
}

impl Clone for Snapshot {
    fn clone(&self) -> (r: Snapshot)
        ensures
            r@ == self@,
    {
        Snapshot {
            id: self.id,
            name: self.name.clone(),
            path: self.path.clone(),
            subvolume_id: self.subvolume_id,
            created_at: self.created_at,
            size: self.size,
        }
    }
}

/// What a list of snapshots says.
pub open spec fn snapshot_views(v: Seq<Snapshot>) -> Seq<SnapshotView> {
    v.map_values(|x: Snapshot| x@)
}

/// The snapshot in a line of a listing, which does not say when it was created.
pub open spec fn listed_snapshot(line: Seq<char>, created_at: Moment) -> Option<SnapshotView> {
    match listed_entry(line) {
        Some((id, path)) => Some(
            SnapshotView {
                id,
                name: last_part(path),
                path,
                subvolume_id: 0,
                created_at,
                size: 0,
            },
        ),
        None => None,
    }
}

/// Reads a line of a listing of snapshots. The time of creation is taken to be now.
pub fn parse_snapshot_line(line: &str) -> (r: Option<Snapshot>)
    ensures
        r is Some == listed_entry(line@) is Some,
        r matches Some(s) ==> listed_snapshot(line@, s.created_at) == Some(s@),
{
    match read_listed_entry(line) {
        Some((id, path)) => {
            let name = base_name(path.as_str());
            Some(Snapshot { id, name, path, subvolume_id: 0, created_at: now(), size: 0 })
        },
        None => None,
    }
}

/// The lines of a listing that describe a snapshot.
pub open spec fn snapshot_lines(l: Seq<Seq<char>>) -> Seq<Seq<char>>
    decreases l.len(),
{
    if l.len() == 0 {
        Seq::empty()
    } else if listed_entry(l.last()) is Some {
        snapshot_lines(l.drop_last()).push(l.last())
    } else {
        snapshot_lines(l.drop_last())
    }
}

/// What the description of a snapshot gives.
pub struct SnapshotShown {
    pub id: u64,
    pub subvolume_id: u64,
    pub created_at: Moment,
}

/// The format in which the time of creation is read.
pub open spec fn creation_format() -> Seq<char> {
    "%Y-%m-%d %H:%M:%S %z"@
}

/// The time of creation in the text behind the first colon of a line, or `now` where it is none
/// that can be read.
pub open spec fn creation_time(text: Seq<char>, now: Moment) -> Moment {
    match parsed_time(trimmed(text), creation_format()) {
        Some((secs, nanos)) => Moment { secs, nanos },
        None => now,
    }
}

/// What the lines of a description give, the later ones overriding the earlier.
pub open spec fn shown_snapshot(l: Seq<Seq<char>>, now: Moment) -> SnapshotShown
    decreases l.len(),
{
    if l.len() == 0 {
        SnapshotShown { id: 0, subvolume_id: 0, created_at: now }
    } else {
        let before = shown_snapshot(l.drop_last(), now);
        let line = l.last();
        SnapshotShown {
            id: if has(line, "Subvolume ID:"@) {
                field_number(line)
            } else {
                before.id
            },
            subvolume_id: if has(line, "Parent ID:"@) {
                field_number(line)
            } else {
                before.subvolume_id
            },
            created_at: match parted(line, ':') {
                Some((_, text)) if has(line, "Creation time:"@) => creation_time(text, now),
                _ => before.created_at,
            },
        }
    }
}

/// Whether the retention policy keeps a snapshot: recent ones, those of Sundays for some weeks,
/// and those of the first of a month for some months.
pub open spec fn retained(
    t: Moment,
    now: Moment,
    retain_daily: u32,
    retain_weekly: u32,
    retain_monthly: u32,
) -> bool {
    let age = days_between(now, t);
    ||| age < retain_daily
    ||| age < retain_weekly * 7 && t.on_sunday()
    ||| age < retain_monthly * 30 && t.on_first_of_month()
}

/// Where a snapshot belongs in a list in order of age: behind all that are not newer.
pub open spec fn place(s: Seq<SnapshotView>, x: SnapshotView) -> int
    decreases s.len(),
{
    if s.len() == 0 || !x.created_at.before(s.last().created_at) {
        s.len() as int
    } else {
        place(s.drop_last(), x)
    }
}

/// The snapshots in order of age, the oldest first, those of the same age in their old order.
pub open spec fn oldest_first(s: Seq<SnapshotView>) -> Seq<SnapshotView>
    decreases s.len(),
{
    if s.len() == 0 {
        s
    } else {
        let t = oldest_first(s.drop_last());
        t.insert(place(t, s.last()), s.last())
    }
}

/// The names of the snapshots that the retention policy does not keep, in the order of `s`.
pub open spec fn expired_names(
    s: Seq<SnapshotView>,
    now: Moment,
    retain_daily: u32,
    retain_weekly: u32,
    retain_monthly: u32,
) -> Seq<Seq<char>>
    decreases s.len(),
{
    if s.len() == 0 {
        Seq::empty()
    } else {
        let before = expired_names(s.drop_last(), now, retain_daily, retain_weekly, retain_monthly);
        if retained(s.last().created_at, now, retain_daily, retain_weekly, retain_monthly) {
            before
        } else {
            before.push(s.last().name)
        }
    }
}

/// The prefix of the snapshots that are made for the replication of a subvolume.
pub open spec fn replication_prefix(subvolume: Seq<char>) -> Seq<char> {
    subvolume + "_snap_"@
}

/// Whether a snapshot can be the parent of the one with number `id`: it was made for the same
/// subvolume and is another.
pub open spec fn is_candidate(s: SnapshotView, subvolume: Seq<char>, id: u64) -> bool {
    stands_at(s.name, replication_prefix(subvolume), 0) && s.id != id
}

/// The newest candidate, the last of those that are equally new.
pub open spec fn newest_candidate(
    s: Seq<SnapshotView>,
    subvolume: Seq<char>,
    id: u64,
) -> Option<SnapshotView>
    decreases s.len(),
{
    if s.len() == 0 {
        None
    } else {
        let before = newest_candidate(s.drop_last(), subvolume, id);
        let x = s.last();
        if !is_candidate(x, subvolume, id) {
            before
        } else {
            match before {
                Some(b) => if x.created_at.before(b.created_at) {
                    before
                } else {
                    Some(x)
                },
                None => Some(x),
            }
        }
    }
}

fn place_of(s: &Vec<Snapshot>, x: &Snapshot) -> (r: usize)
    ensures
        r <= s@.len(),
        r == place(snapshot_views(s@), x@),
{
    let ghost all = snapshot_views(s@);
    let mut i: usize = s.len();
    assert(all.take(i as int) =~= all);
    while i > 0
        invariant
            i <= s@.len(),
            all == snapshot_views(s@),
            place(all.take(i as int), x@) == place(all, x@),
        decreases i,
    {
        assert(all[i - 1] == s@[i - 1]@);
        assert(all.take(i as int).drop_last() =~= all.take(i - 1));
        if !x.created_at.is_before(&s[i - 1].created_at) {
            return i;
        }
        i -= 1;
    }
    0
}

/// Sorts snapshots by age, the oldest first.
pub fn sort_oldest_first(s: Vec<Snapshot>) -> (r: Vec<Snapshot>)
    ensures
        snapshot_views(r@) == oldest_first(snapshot_views(s@)),
{
    let ghost all = snapshot_views(s@);
    let mut r: Vec<Snapshot> = Vec::new();
    let mut i: usize = 0;
    assert(all.take(0) =~= Seq::<SnapshotView>::empty());
    assert(snapshot_views(r@) =~= Seq::<SnapshotView>::empty());
    while i < s.len()
        invariant
            i <= s@.len(),
            all == snapshot_views(s@),
            snapshot_views(r@) == oldest_first(all.take(i as int)),
        decreases s@.len() - i,
    {
        let x = s[i].clone();
        let k = place_of(&r, &x);
        let ghost before = r@;
        r.insert(k, x);
        proof {
            assert(all[i as int] == s@[i as int]@);
            assert(all.take(i + 1).drop_last() =~= all.take(i as int));
            assert(snapshot_views(r@) =~= snapshot_views(before).insert(k as int, x@));
        }
        i += 1;
    }
    assert(all.take(i as int) =~= all);
    r
}

/// Tells whether the retention policy keeps a snapshot.
pub fn is_retained(
    t: &Moment,
    now: &Moment,
    retain_daily: u32,
    retain_weekly: u32,
    retain_monthly: u32,
) -> (r: bool)
    ensures
        r == retained(*t, *now, retain_daily, retain_weekly, retain_monthly),
{
    let age: i128 = whole_days(now, t);
    if age < retain_daily as i128 {
        return true;
    }
    if age < retain_weekly as i128 * 7 && t.is_on_sunday() {
        return true;
    }
    age < retain_monthly as i128 * 30 && t.is_on_first_of_month()
}

/// Manager for btrfs snapshot operations.
#[derive(Debug)]
pub struct SnapshotManager {
    base_path: String,
}

impl View for SnapshotManager {
    type V = Seq<char>;

    /// The path that the snapshots are below.
    closed spec fn view(&self) -> Seq<char> {
        self.base_path@
    }
}

impl SnapshotManager {
    /// A manager of the snapshots below a path.
    pub fn new(base_path: &str) -> (r: SnapshotManager)
        ensures
            r@ == base_path@,
    {
        SnapshotManager { base_path: base_path.to_owned() }
    }

    /// The path of a snapshot or subvolume.
    pub fn path(&self, name: &str) -> (r: String)
        ensures
            r@ == below(self@, name@),
    {
        path_below(self.base_path.as_str(), name)
    }

    /// The command that makes a read-only snapshot of a subvolume.
    pub fn create(&self, subvolume_name: &str, snapshot_name: &str) -> (r: CommandLine)
        ensures
            r@ == btrfs_call(
                "subvolume"@,
                seq![
                    "snapshot"@,
                    "-r"@,
                    below(self@, subvolume_name@),
                    below(self@, snapshot_name@),
                ],
            ),
    {
        let from = self.path(subvolume_name);
        let to = self.path(snapshot_name);
        let r = CommandLine::new("btrfs").arg("subvolume").arg("snapshot").arg("-r").arg(
            from.as_str(),
        ).arg(to.as_str());
        assert(r@ =~= btrfs_call(
            "subvolume"@,
            seq![
                "snapshot"@,
                "-r"@,
                below(self@, subvolume_name@),
                below(self@, snapshot_name@),
            ],
        ));
        r
    }

    /// The command that makes a writable snapshot of a subvolume.
    pub fn create_writable(&self, subvolume_name: &str, snapshot_name: &str) -> (r: CommandLine)
        ensures
            r@ == btrfs_call(
                "subvolume"@,
                seq!["snapshot"@, below(self@, subvolume_name@), below(self@, snapshot_name@)],
            ),
    {
        let from = self.path(subvolume_name);
        let to = self.path(snapshot_name);
        let r = CommandLine::new("btrfs").arg("subvolume").arg("snapshot").arg(from.as_str()).arg(
            to.as_str(),
        );
        assert(r@ =~= btrfs_call(
            "subvolume"@,
            seq!["snapshot"@, below(self@, subvolume_name@), below(self@, snapshot_name@)],
        ));
        r
    }

    /// The command that deletes a snapshot.
    pub fn delete(&self, snapshot_name: &str) -> (r: CommandLine)
        ensures
            r@ == btrfs_call("subvolume"@, seq!["delete"@, below(self@, snapshot_name@)]),
    {
        let path = self.path(snapshot_name);
        let r = CommandLine::new("btrfs").arg("subvolume").arg("delete").arg(path.as_str());
        assert(r@ =~= btrfs_call("subvolume"@, seq!["delete"@, below(self@, snapshot_name@)]));
        r
    }

    /// The command that describes a snapshot.
    pub fn show(&self, snapshot_name: &str) -> (r: CommandLine)
        ensures
            r@ == btrfs_call("subvolume"@, seq!["show"@, below(self@, snapshot_name@)]),
    {
        let path = self.path(snapshot_name);
        let r = CommandLine::new("btrfs").arg("subvolume").arg("show").arg(path.as_str());
        assert(r@ =~= btrfs_call("subvolume"@, seq!["show"@, below(self@, snapshot_name@)]));
        r
    }

    /// Reads the description of a snapshot, now.
    pub fn get_info(&self, snapshot_name: &str, output: &str) -> (r: Snapshot)
        ensures
            exists|now: Moment| r@ == #[trigger] self.info(snapshot_name@, output@, now),
    {
        let t = now();
        let r = self.get_info_at(snapshot_name, output, t);
        assert(r@ == self.info(snapshot_name@, output@, t));
        r
    }

    /// What the description of a snapshot comes to at the time `now`.
    pub open spec fn info(
        &self,
        snapshot_name: Seq<char>,
        output: Seq<char>,
        now: Moment,
    ) -> SnapshotView {
        let d = shown_snapshot(lines(output), now);
        SnapshotView {
            id: d.id,
            name: snapshot_name,
            path: below(self@, snapshot_name),
            subvolume_id: d.subvolume_id,
            created_at: d.created_at,
            size: 0,
        }
    }

    /// Reads the description of a snapshot at the time `now`.
    pub fn get_info_at(&self, snapshot_name: &str, output: &str, now: Moment) -> (r: Snapshot)
        ensures
            r@ == self.info(snapshot_name@, output@, now),
    {
        let all = split_lines(output);
        let ghost l = lines(output@);
        let mut id: u64 = 0;
        let mut subvolume_id: u64 = 0;
        let mut created_at = now;
        let mut i: usize = 0;
        assert(l.take(0) =~= Seq::<Seq<char>>::empty());
        while i < all.len()
            invariant
                i <= all@.len(),
                views(all@) == l,
                shown_snapshot(l.take(i as int), now) == (SnapshotShown {
                    id,
                    subvolume_id,
                    created_at,
                }),
            decreases all@.len() - i,
        {
            let line = all[i];
            proof {
                assert(views(all@)[i as int] == line@);
                assert(l.take(i + 1).drop_last() =~= l.take(i as int));
                assert(l.take(i + 1).last() == line@);
            }
            if contains(line, "Subvolume ID:") {
                id = read_field_number(line);
            }
            if contains(line, "Parent ID:") {
                subvolume_id = read_field_number(line);
            }
            if contains(line, "Creation time:") {
                match split_once(line, ':') {
                    Some((_, text)) => {
                        created_at =
                        match parse_time(trim(text), "%Y-%m-%d %H:%M:%S %z") {
                            Some(t) => t,
                            None => now,
                        };
                    },
                    None => {},
                }
            }
            i += 1;
        }
        assert(l.take(i as int) =~= l);
        Snapshot {
            id,
            name: snapshot_name.to_owned(),
            path: self.path(snapshot_name),
            subvolume_id,
            created_at,
            size: 0,
        }
    }

    /// The command that lists the snapshots.
    pub fn list_command(&self) -> (r: CommandLine)
        ensures
            r@ == btrfs_call("subvolume"@, seq!["list"@, "-s"@, self@]),
    {
        let r = CommandLine::new("btrfs").arg("subvolume").arg("list").arg("-s").arg(
            self.base_path.as_str(),
        );
        assert(r@ =~= btrfs_call("subvolume"@, seq!["list"@, "-s"@, self@]));
        r
    }

    /// Reads a listing of snapshots. Lines that describe none are passed over.
    pub fn list(&self, output: &str) -> (r: Vec<Snapshot>)
        ensures
            r@.len() == snapshot_lines(lines(output@)).len(),
            forall|i: int|
                0 <= i < r@.len() ==> listed_snapshot(
                    snapshot_lines(lines(output@))[i],
                    (#[trigger] r@[i]).created_at,
                ) == Some(r@[i]@),
    {
        let all = split_lines(output);
        let ghost l = lines(output@);
        let mut r: Vec<Snapshot> = Vec::new();
        let mut i: usize = 0;
        assert(l.take(0) =~= Seq::<Seq<char>>::empty());
        while i < all.len()
            invariant
                i <= all@.len(),
                views(all@) == l,
                r@.len() == snapshot_lines(l.take(i as int)).len(),
                forall|k: int|
                    0 <= k < r@.len() ==> listed_snapshot(
                        snapshot_lines(l.take(i as int))[k],
                        (#[trigger] r@[k]).created_at,
                    ) == Some(r@[k]@),
            decreases all@.len() - i,
        {
            proof {
                assert(views(all@)[i as int] == all@[i as int]@);
                assert(l.take(i + 1).drop_last() =~= l.take(i as int));
                assert(l.take(i + 1).last() == all@[i as int]@);
            }
            match parse_snapshot_line(all[i]) {
                Some(s) => {
                    r.push(s);
                },
                None => {},
            }
            i += 1;
        }
        assert(l.take(i as int) =~= l);
        r
    }

    /// The names of the snapshots to delete, in the order in which they are deleted.
    pub fn cleanup(
        &self,
        snapshots: Vec<Snapshot>,
        now: Moment,
        retain_daily: u32,
        retain_weekly: u32,
        retain_monthly: u32,
    ) -> (r: Vec<String>)
        ensures
            string_views(r@) == expired_names(
                oldest_first(snapshot_views(snapshots@)),
                now,
                retain_daily,
                retain_weekly,
                retain_monthly,
            ),
    {
        let sorted = sort_oldest_first(snapshots);
        let ghost all = snapshot_views(sorted@);
        let mut r: Vec<String> = Vec::new();
        let mut i: usize = 0;
        assert(all.take(0) =~= Seq::<SnapshotView>::empty());
        assert(string_views(r@) =~= Seq::<Seq<char>>::empty());
        while i < sorted.len()
            invariant
                i <= sorted@.len(),
                all == snapshot_views(sorted@),
                string_views(r@) == expired_names(
                    all.take(i as int),
                    now,
                    retain_daily,
                    retain_weekly,
                    retain_monthly,
                ),
            decreases sorted@.len() - i,
        {
            let ghost before = r@;
            proof {
                assert(all[i as int] == sorted@[i as int]@);
                assert(all.take(i + 1).drop_last() =~= all.take(i as int));
            }
            if !is_retained(
                &sorted[i].created_at,
                &now,
                retain_daily,
                retain_weekly,
                retain_monthly,
            ) {
                r.push(sorted[i].name.clone());
                assert(string_views(r@) =~= string_views(before).push(
                    sorted@[i as int].name@,
                ));
            }
            i += 1;
        }
        assert(all.take(i as int) =~= all);
        r
    }

    /// A name for a snapshot of a subvolume that is made for replication, from the current
    /// time.
    pub fn replication_name(&self, subvolume_name: &str) -> (r: String)
        ensures
            stands_at(r@, replication_prefix(subvolume_name@), 0),
    {
        let stamp = now_formatted("%Y%m%d_%H%M%S");
        self.replication_name_at(subvolume_name, stamp.as_str())
    }

    /// The name of the snapshot of a subvolume that is made for replication at a time.
    pub fn replication_name_at(&self, subvolume_name: &str, stamp: &str) -> (r: String)
        ensures
            r@ == replication_prefix(subvolume_name@) + stamp@,
            stands_at(r@, replication_prefix(subvolume_name@), 0),
    {
        let mut r = subvolume_name.to_owned();
        r.append("_snap_");
        r.append(stamp);
        proof {
            let p = replication_prefix(subvolume_name@);
            assert(r@ =~= p + stamp@);
            assert(r@.subrange(0, p.len() as int) =~= p);
        }
        r
    }

    /// The newest snapshot that was made for the replication of a subvolume before the one with
    /// number `id`.
    pub fn previous_snapshot(
        &self,
        snapshots: &Vec<Snapshot>,
        subvolume_name: &str,
        id: u64,
    ) -> (r: Option<Snapshot>)
        ensures
            ({
                let found = newest_candidate(snapshot_views(snapshots@), subvolume_name@, id);
                match r {
                    Some(s) => found == Some(s@),
                    None => found is None,
                }
            }),
    {
        let mut prefix = subvolume_name.to_owned();
        prefix.append("_snap_");
        let ghost all = snapshot_views(snapshots@);
        let mut best: Option<usize> = None;
        let mut i: usize = 0;
        assert(all.take(0) =~= Seq::<SnapshotView>::empty());
        while i < snapshots.len()
            invariant
                i <= snapshots@.len(),
                all == snapshot_views(snapshots@),
                prefix@ == replication_prefix(subvolume_name@),
                match best {
                    Some(b) => b < i && newest_candidate(
                        all.take(i as int),
                        subvolume_name@,
                        id,
                    ) == Some(snapshots@[b as int]@),
                    None => newest_candidate(all.take(i as int), subvolume_name@, id) is None,
                },
            decreases snapshots@.len() - i,
        {
            proof {
                assert(all[i as int] == snapshots@[i as int]@);
                assert(all.take(i + 1).drop_last() =~= all.take(i as int));
            }
            let x = &snapshots[i];
            if starts_with(x.name.as_str(), prefix.as_str()) && x.id != id {
                let newer = match best {
                    Some(b) => !x.created_at.is_before(&snapshots[b].created_at),
                    None => true,
                };
                if newer {
                    best = Some(i);
                }
            }
            i += 1;
        }
        assert(all.take(i as int) =~= all);
        match best {
            Some(b) => Some(snapshots[b].clone()),
            None => None,
        }
    }
}

proof fn lemma_place(s: Seq<SnapshotView>, x: SnapshotView)
    ensures
        0 <= place(s, x) <= s.len(),
        place(s, x) > 0 ==> !x.created_at.before(s[place(s, x) - 1].created_at),
        forall|i: int|
            place(s, x) <= i < s.len() ==> x.created_at.before((#[trigger] s[i]).created_at),
    decreases s.len(),
{
    if s.len() > 0 && x.created_at.before(s.last().created_at) {
        lemma_place(s.drop_last(), x);
        assert forall|i: int| place(s, x) <= i < s.len() implies x.created_at.before(
            (#[trigger] s[i]).created_at,
        ) by {
            if i < s.len() - 1 {
                assert(s.drop_last()[i] == s[i]);
            }
        }
    }
}

/// Sorting keeps every snapshot and puts no newer one before an older one.
pub proof fn sorting_keeps_and_orders(s: Seq<SnapshotView>)
    ensures
        oldest_first(s).to_multiset() == s.to_multiset(),
        forall|i: int, j: int|
            0 <= i < j < oldest_first(s).len() ==> !(#[trigger] oldest_first(
                s,
            )[j]).created_at.before((#[trigger] oldest_first(s)[i]).created_at),
    decreases s.len(),
{
    if s.len() > 0 {
        let x = s.last();
        let t = oldest_first(s.drop_last());
        let k = place(t, x);
        sorting_keeps_and_orders(s.drop_last());
        lemma_place(t, x);
        assert(s =~= s.drop_last().push(x));
        vstd::seq_lib::lemma_multiset_commutative(t.take(k), t.skip(k));
        assert(t =~= t.take(k) + t.skip(k));
        let f = t.insert(k, x);
        assert(f =~= t.take(k).push(x) + t.skip(k));
        broadcast use vstd::seq_lib::group_to_multiset_ensures;

        vstd::seq_lib::lemma_multiset_commutative(t.take(k).push(x), t.skip(k));
        assert(f.to_multiset() =~= s.to_multiset());
        assert forall|i: int, j: int| 0 <= i < j < f.len() implies !(
        #[trigger] f[j]).created_at.before((#[trigger] f[i]).created_at) by {
            if i < k {
                assert(f[i] == t[i]);
            } else if i > k {
                assert(f[i] == t[i - 1]);
            }
            if j < k {
                assert(f[j] == t[j]);
            } else if j > k {
                assert(f[j] == t[j - 1]);
            }
            if j == k && i < k - 1 {
                assert(!t[k - 1].created_at.before(t[i].created_at));
            }
        }
    }
}

/// What the cleanup deletes, the policy does not keep, and what the policy does not keep, the
/// cleanup deletes.
pub proof fn cleanup_follows_the_policy(
    s: Seq<SnapshotView>,
    now: Moment,
    retain_daily: u32,
    retain_weekly: u32,
    retain_monthly: u32,
    name: Seq<char>,
)
    ensures
        expired_names(s, now, retain_daily, retain_weekly, retain_monthly).contains(name)
            == exists|i: int|
            0 <= i < s.len() && (#[trigger] s[i]).name == name && !retained(
                s[i].created_at,
                now,
                retain_daily,
                retain_weekly,
                retain_monthly,
            ),
    decreases s.len(),
{
    if s.len() > 0 {
        let t = s.drop_last();
        let x = s.last();
        cleanup_follows_the_policy(t, now, retain_daily, retain_weekly, retain_monthly, name);
        let before = expired_names(t, now, retain_daily, retain_weekly, retain_monthly);
        let all = expired_names(s, now, retain_daily, retain_weekly, retain_monthly);
        if before.contains(name) {
            let i = choose|i: int|
                0 <= i < t.len() && (#[trigger] t[i]).name == name && !retained(
                    t[i].created_at,
                    now,
                    retain_daily,
                    retain_weekly,
                    retain_monthly,
                );
            assert(s[i] == t[i]);
            let k = choose|k: int| 0 <= k < before.len() && before[k] == name;
            assert(all[k] == name);
        }
        if all.contains(name) && !before.contains(name) {
            let k = choose|k: int| 0 <= k < all.len() && all[k] == name;
            assert(k == all.len() - 1);
            assert(s[s.len() - 1] == x);
        }
        if exists|i: int|
            0 <= i < s.len() && (#[trigger] s[i]).name == name && !retained(
                s[i].created_at,
                now,
                retain_daily,
                retain_weekly,
                retain_monthly,
            ) {
            let i = choose|i: int|
                0 <= i < s.len() && (#[trigger] s[i]).name == name && !retained(
                    s[i].created_at,
                    now,
                    retain_daily,
                    retain_weekly,
                    retain_monthly,
                );
            if i < t.len() {
                assert(t[i] == s[i]);
            } else {
                assert(all.last() == name);
                assert(all[all.len() - 1] == name);
            }
        }
    }
}

} // verus!
