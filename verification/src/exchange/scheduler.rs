//! Maintenance: balance, scrub and cleanup of snapshots.

use vstd::prelude::*;
use vstd::string::*;

use crate::exchange::config::SnapshotRetention;
use crate::number::{decimal, is_digit, u64_text};
use crate::ops::commands::{below, btrfs_call, path_below, CommandLine};
use crate::ops::subvolume::{base_name, last_part, listed_path, read_listed_path};
use crate::text::{
    chars_of, contains, fields, has, lines, same, split_fields, split_lines, split_words,
    stands_at, starts_with, string_views, strip_prefix, tail, trim, trimmed, views, words,
};

verus! {

broadcast use vstd::string::group_string_axioms;

/// How often maintenance is put off when the machine is busy.
pub const MAX_DEFERRALS: u32 = 4;

/// How long maintenance is put off, in seconds.
pub const BUSY_RETRY_SECS: u64 = 900;

/// What follows a look at the machine's load.
#[derive(Debug, Clone, Copy, PartialEq, Eq, Structural)]
pub enum WindowStep {
    /// The machine is idle, or maintenance has been put off often enough.
    Proceed,
    /// Wait, then look again with the number of deferrals.
    Defer(u32),
}

/// What follows a look at the machine's load, after a number of deferrals.
pub open spec fn window_step(deferrals: u32, busy: bool) -> WindowStep {
    if deferrals >= MAX_DEFERRALS || !busy {
        WindowStep::Proceed
    } else {
        WindowStep::Defer((deferrals + 1) as u32)
    }
}

/// Decides whether maintenance begins, after a number of deferrals. The load is looked at only
/// while there are deferrals left.
pub fn maintenance_window(deferrals: u32, cpu_busy: bool, disk_busy: bool) -> (r: WindowStep)
    ensures
        r == if deferrals >= MAX_DEFERRALS || !(cpu_busy || disk_busy) {
            WindowStep::Proceed
        } else {
            WindowStep::Defer((deferrals + 1) as u32)
        },
        r == window_step(deferrals, cpu_busy || disk_busy),
{
    if deferrals >= MAX_DEFERRALS {
        WindowStep::Proceed
    } else if !cpu_busy && !disk_busy {
        WindowStep::Proceed
    } else {
        WindowStep::Defer(deferrals + 1)
    }
}

/// The usage that a line of an overview states, as it is written: the used size and the total
/// size, each a number and a unit.
#[derive(Debug)]
pub struct DfUsage {
    pub used: String,
    pub used_unit: String,
    pub total: String,
    pub total_unit: String,
}

/// What the usage that a line states says.
#[verifier::ext_equal]
pub struct DfUsageView {
    pub used: Seq<char>,
    pub used_unit: Seq<char>,
    pub total: Seq<char>,
    pub total_unit: Seq<char>,
}

impl View for DfUsage {
    type V = DfUsageView;

    open spec fn view(&self) -> DfUsageView {
        DfUsageView {
            used: self.used@,
            used_unit: self.used_unit@,
            total: self.total@,
            total_unit: self.total_unit@,
        }
    }
}

/// How many characters of a text stand before the end of its last digit.
pub open spec fn number_len(s: Seq<char>) -> int
    decreases s.len(),
{
    if s.len() == 0 {
        0
    } else if is_digit(s.last()) {
        s.len() as int
    } else {
        number_len(s.drop_last())
    }
}

/// A size parted into its number and its unit, which is bytes where none is written.
pub open spec fn number_and_unit(raw: Seq<char>) -> (Seq<char>, Seq<char>) {
    let s = trimmed(raw);
    let n = number_len(s);
    if n >= s.len() {
        (s, "B"@)
    } else {
        (s.take(n), s.skip(n))
    }
}

/// Parts a size into its number and its unit.
pub fn split_number_unit(raw: &str) -> (r: (String, String))
    ensures
        (r.0@, r.1@) == number_and_unit(raw@),
{
    let s = trim(raw);
    let cs = chars_of(s);
    let mut n: usize = cs.len();
    assert(s@.take(n as int) =~= s@);
    while n > 0 && !('0' <= cs[n - 1] && cs[n - 1] <= '9')
        invariant
            n <= cs@.len(),
            cs@ == s@,
            number_len(s@.take(n as int)) == number_len(s@),
        decreases n,
    {
        assert(s@.take(n as int).drop_last() =~= s@.take(n - 1));
        n -= 1;
    }
    proof {
        if n > 0 {
            assert(s@.take(n as int).last() == s@[n - 1]);
        }
        assert(number_len(s@) == n);
    }
    if n >= cs.len() {
        return (s.to_owned(), "B".to_owned());
    }
    let number = s.substring_char(0, n);
    assert(number@ =~= s@.take(n as int));
    (number.to_owned(), tail(s, n).to_owned())
}

/// The place of the part of a line that states the used size.
pub open spec fn used_part(parts: Seq<Seq<char>>) -> int
    decreases parts.len(),
{
    if parts.len() == 0 || stands_at(trimmed(parts[0]), "used="@, 0) {
        0
    } else {
        1 + used_part(parts.skip(1))
    }
}

/// The usage that a line such as `Data, single: total=1.00GiB, used=256.00MiB` states. The used
/// size stands in the first part behind a comma that begins with `used=`, and the total size
/// behind the first `=` of the part before it.
pub open spec fn usage_in_line(line: Seq<char>) -> Option<DfUsageView> {
    let parts = fields(line, ',');
    let i = 1 + used_part(parts.skip(1));
    if i >= parts.len() {
        None
    } else {
        let before = fields(parts[i - 1], '=');
        if before.len() < 2 {
            None
        } else {
            let used = number_and_unit(trimmed(parts[i]).skip(5));
            let total = number_and_unit(before[1]);
            Some(
                DfUsageView {
                    used: used.0,
                    used_unit: used.1,
                    total: total.0,
                    total_unit: total.1,
                },
            )
        }
    }
}

/// Whether a line of an overview states the usage of data or metadata.
pub open spec fn is_usage_line(line: Seq<char>) -> bool {
    ||| stands_at(line, "Data,"@, 0)
    ||| stands_at(line, "Data."@, 0)
    ||| stands_at(line, "Metadata,"@, 0)
    ||| stands_at(line, "Metadata."@, 0)
}

/// Reads the usage that a line states.
pub fn extract_usage(line: &str) -> (r: Option<DfUsage>)
    ensures
        r is Some == usage_in_line(line@) is Some,
        r matches Some(u) ==> usage_in_line(line@) == Some(u@),
{
    let parts = split_fields(line, ',');
    let ghost all = fields(line@, ',');
    let mut i: usize = 1;
    proof {
        reveal_strlit("used=");
    }
    while i < parts.len()
        invariant
            1 <= i <= parts@.len(),
            views(parts@) == all,
            all == fields(line@, ','),
            "used="@.len() == 5,
            i + used_part(all.skip(i as int)) == 1 + used_part(all.skip(1)),
        decreases parts@.len() - i,
    {
        let part = trim(parts[i]);
        proof {
            assert(views(parts@)[i as int] == parts@[i as int]@);
            assert(all.skip(i as int)[0] == parts@[i as int]@);
            assert(all.skip(i as int).skip(1) =~= all.skip(i + 1));
        }
        match strip_prefix(part, "used=") {
            Some(used) => {
                assert(views(parts@)[i - 1] == parts@[i - 1]@);
                let before = split_fields(parts[i - 1], '=');
                if before.len() < 2 {
                    return None;
                }
                assert(views(before@)[1] == before@[1]@);
                let (used_number, used_unit) = split_number_unit(used);
                let (total_number, total_unit) = split_number_unit(before[1]);
                return Some(
                    DfUsage {
                        used: used_number,
                        used_unit,
                        total: total_number,
                        total_unit,
                    },
                );
            },
            None => {},
        }
        i += 1;
    }
    assert(all.skip(i as int) =~= Seq::<Seq<char>>::empty());
    None
}

/// The usages that the lines of an overview state.
pub open spec fn usages_in(l: Seq<Seq<char>>) -> Seq<DfUsageView>
    decreases l.len(),
{
    if l.len() == 0 {
        Seq::empty()
    } else {
        let before = usages_in(l.drop_last());
        if is_usage_line(l.last()) && usage_in_line(l.last()) is Some {
            before.push(usage_in_line(l.last())->0)
        } else {
            before
        }
    }
}

/// Reads the usages of data and metadata from an overview.
pub fn read_usages(output: &str) -> (r: Vec<DfUsage>)
    ensures
        r@.map_values(|u: DfUsage| u@) == usages_in(lines(output@)),
{
    let all = split_lines(output);
    let ghost l = lines(output@);
    let ghost view = |u: DfUsage| u@;
    let mut r: Vec<DfUsage> = Vec::new();
    let mut i: usize = 0;
    assert(l.take(0) =~= Seq::<Seq<char>>::empty());
    assert(r@.map_values(view) =~= Seq::<DfUsageView>::empty());
    while i < all.len()
        invariant
            i <= all@.len(),
            views(all@) == l,
            view == (|u: DfUsage| u@),
            r@.map_values(view) == usages_in(l.take(i as int)),
        decreases all@.len() - i,
    {
        let line = all[i];
        proof {
            assert(views(all@)[i as int] == line@);
            assert(l.take(i + 1).drop_last() =~= l.take(i as int));
            assert(l.take(i + 1).last() == line@);
        }
        if starts_with(line, "Data,") || starts_with(line, "Data.") || starts_with(
            line,
            "Metadata,",
        ) || starts_with(line, "Metadata.") {
            match extract_usage(line) {
                Some(u) => {
                    let ghost before = r@;
                    r.push(u);
                    assert(r@.map_values(view) =~= before.map_values(view).push(u@));
                },
                None => {},
            }
        }
        i += 1;
    }
    assert(l.take(i as int) =~= l);
    r
}

/// Where a pair belongs in an ascending list: behind all that are not greater.
pub open spec fn pair_place(s: Seq<(u32, u32)>, x: (u32, u32)) -> int
    decreases s.len(),
{
    if s.len() == 0 || s.last().0 < x.0 || (s.last().0 == x.0 && s.last().1 <= x.1) {
        s.len() as int
    } else {
        pair_place(s.drop_last(), x)
    }
}

/// The thresholds for block groups that are used by less than half, in ascending order.
pub open spec fn low_usages(pcts: Seq<u64>) -> Seq<(u32, u32)>
    decreases pcts.len(),
{
    if pcts.len() == 0 {
        Seq::empty()
    } else {
        let before = low_usages(pcts.drop_last());
        if pcts.last() < 50 {
            let x = (pcts.last() as u32, 0u32);
            before.insert(pair_place(before, x), x)
        } else {
            before
        }
    }
}

/// The thresholds of data and metadata usage for balancing, in the order in which they are
/// used: those of block groups used by less than half, or cautious ones if there are none.
pub open spec fn balance_thresholds(pcts: Seq<u64>) -> Seq<(u32, u32)> {
    if low_usages(pcts).len() == 0 {
        seq![(25u32, 25u32), (50u32, 50u32)]
    } else {
        low_usages(pcts)
    }
}

fn pair_place_of(s: &Vec<(u32, u32)>, x: (u32, u32)) -> (r: usize)
    ensures
        r <= s@.len(),
        r == pair_place(s@, x),
{
    let mut i: usize = s.len();
    assert(s@.take(i as int) =~= s@);
    while i > 0
        invariant
            i <= s@.len(),
            pair_place(s@.take(i as int), x) == pair_place(s@, x),
        decreases i,
    {
        assert(s@.take(i as int).drop_last() =~= s@.take(i - 1));
        if s[i - 1].0 < x.0 || (s[i - 1].0 == x.0 && s[i - 1].1 <= x.1) {
            return i;
        }
        i -= 1;
    }
    0
}

/// The thresholds for balancing, by the percentages of usage. Without percentages, as where the
/// overview cannot be had, they are the cautious ones.
pub fn find_fragmented_block_groups(pcts: &Vec<u64>) -> (r: Vec<(u32, u32)>)
    ensures
        r@ == balance_thresholds(pcts@),
{
    let mut r: Vec<(u32, u32)> = Vec::new();
    let mut i: usize = 0;
    assert(pcts@.take(0) =~= Seq::<u64>::empty());
    while i < pcts.len()
        invariant
            i <= pcts@.len(),
            r@ == low_usages(pcts@.take(i as int)),
        decreases pcts@.len() - i,
    {
        assert(pcts@.take(i + 1).drop_last() =~= pcts@.take(i as int));
        if pcts[i] < 50 {
            let x: (u32, u32) = (pcts[i] as u32, 0);
            let k = pair_place_of(&r, x);
            r.insert(k, x);
        }
        i += 1;
    }
    assert(pcts@.take(i as int) =~= pcts@);
    if r.len() == 0 {
        r.push((25, 25));
        r.push((50, 50));
        assert(r@ =~= seq![(25u32, 25u32), (50u32, 50u32)]);
    }
    r
}

/// The command that shows the usage of data and metadata.
pub fn df_command(data_dir: &str) -> (r: CommandLine)
    ensures
        r@ == btrfs_call("filesystem"@, seq!["df"@, data_dir@]),
{
    let r = CommandLine::new("btrfs").arg("filesystem").arg("df").arg(data_dir);
    assert(r@ =~= btrfs_call("filesystem"@, seq!["df"@, data_dir@]));
    r
}

/// The command that balances block groups up to a threshold.
pub fn balance_command(threshold: (u32, u32), data_dir: &str) -> (r: CommandLine)
    ensures
        r@ == btrfs_call(
            "balance"@,
            seq![
                "start"@,
                "-dusage="@ + decimal(threshold.0 as nat),
                "-musage="@ + decimal(threshold.1 as nat),
                data_dir@,
            ],
        ),
{
    let mut d = "-dusage=".to_owned();
    d.append(u64_text(threshold.0 as u64).as_str());
    let mut m = "-musage=".to_owned();
    m.append(u64_text(threshold.1 as u64).as_str());
    let r = CommandLine::new("btrfs").arg("balance").arg("start").arg(d.as_str()).arg(
        m.as_str(),
    ).arg(data_dir);
    assert(r@ =~= btrfs_call(
        "balance"@,
        seq![
            "start"@,
            "-dusage="@ + decimal(threshold.0 as nat),
            "-musage="@ + decimal(threshold.1 as nat),
            data_dir@,
        ],
    ));
    r
}

/// Tells whether balancing goes on with the next threshold after a run of the command.
pub fn balance_continues(success: bool, stderr: &str) -> (r: bool)
    ensures
        r == (success || !(has(stderr@, "no balance found"@) || has(stderr@, "Nothing to do"@))),
{
    success || !(contains(stderr, "no balance found") || contains(stderr, "Nothing to do"))
}

/// The command that scrubs a filesystem.
pub fn scrub_command(data_dir: &str) -> (r: CommandLine)
    ensures
        r@ == btrfs_call("scrub"@, seq!["start"@, "-Bd"@, data_dir@]),
{
    let r = CommandLine::new("btrfs").arg("scrub").arg("start").arg("-Bd").arg(data_dir);
    assert(r@ =~= btrfs_call("scrub"@, seq!["start"@, "-Bd"@, data_dir@]));
    r
}

/// The command that lists the snapshots of a directory.
pub fn list_snapshots_command(snapshot_dir: &str) -> (r: CommandLine)
    ensures
        r@ == btrfs_call("subvolume"@, seq!["list"@, "-s"@, snapshot_dir@]),
{
    let r = CommandLine::new("btrfs").arg("subvolume").arg("list").arg("-s").arg(snapshot_dir);
    assert(r@ =~= btrfs_call("subvolume"@, seq!["list"@, "-s"@, snapshot_dir@]));
    r
}

/// Whether a text stands before another in a dictionary.
pub open spec fn text_before(a: Seq<char>, b: Seq<char>) -> bool
    decreases a.len(),
{
    if b.len() == 0 {
        false
    } else if a.len() == 0 {
        true
    } else if a[0] != b[0] {
        a[0] < b[0]
    } else {
        text_before(a.skip(1), b.skip(1))
    }
}

/// Tells whether a text stands before another in a dictionary.
pub fn is_text_before(a: &str, b: &str) -> (r: bool)
    ensures
        r == text_before(a@, b@),
{
    let x = chars_of(a);
    let y = chars_of(b);
    let mut i: usize = 0;
    assert(a@.skip(0) =~= a@);
    assert(b@.skip(0) =~= b@);
    while i < x.len() && i < y.len() && x[i] == y[i]
        invariant
            x@ == a@,
            y@ == b@,
            i <= x@.len(),
            i <= y@.len(),
            text_before(a@.skip(i as int), b@.skip(i as int)) == text_before(a@, b@),
        decreases x@.len() - i,
    {
        assert(a@.skip(i as int).skip(1) =~= a@.skip(i + 1));
        assert(b@.skip(i as int).skip(1) =~= b@.skip(i + 1));
        i += 1;
    }
    if i >= y.len() {
        false
    } else if i >= x.len() {
        true
    } else {
        x[i] < y[i]
    }
}

/// The name of the snapshot in a line of a listing: at least seven words of which the first is
/// `ID`, and the last part of the path in the line.
pub open spec fn snapshot_name_in(line: Seq<char>) -> Option<Seq<char>> {
    let w = words(line);
    if w.len() >= 7 && w[0] == "ID"@ {
        Some(last_part(listed_path(w)))
    } else {
        None
    }
}

/// Where a name belongs in a list in the order of a dictionary: behind all that do not stand
/// after it.
pub open spec fn name_place(s: Seq<Seq<char>>, x: Seq<char>) -> int
    decreases s.len(),
{
    if s.len() == 0 || !text_before(x, s.last()) {
        s.len() as int
    } else {
        name_place(s.drop_last(), x)
    }
}

/// The names of the snapshots in the lines of a listing, in the order of a dictionary.
pub open spec fn names_in_order(l: Seq<Seq<char>>) -> Seq<Seq<char>>
    decreases l.len(),
{
    if l.len() == 0 {
        Seq::empty()
    } else {
        let before = names_in_order(l.drop_last());
        match snapshot_name_in(l.last()) {
            Some(n) => before.insert(name_place(before, n), n),
            None => before,
        }
    }
}

/// How many snapshots a retention policy keeps.
pub open spec fn kept_snapshots(r: SnapshotRetention) -> nat {
    (r.daily + r.weekly + r.monthly) as nat
}

/// The names of the snapshots to delete: nothing while the listing has no more lines than are
/// kept, and otherwise the first names of the dictionary, as many as there are too many.
pub open spec fn surplus_names(l: Seq<Seq<char>>, r: SnapshotRetention) -> Seq<Seq<char>> {
    let names = names_in_order(l);
    let keep = kept_snapshots(r);
    if l.len() > keep && names.len() > keep {
        names.take(names.len() - keep)
    } else {
        Seq::empty()
    }
}

fn name_place_of(s: &Vec<String>, x: &str) -> (r: usize)
    ensures
        r <= s@.len(),
        r == name_place(string_views(s@), x@),
{
    let ghost all = string_views(s@);
    let mut i: usize = s.len();
    assert(all.take(i as int) =~= all);
    while i > 0
        invariant
            i <= s@.len(),
            all == string_views(s@),
            name_place(all.take(i as int), x@) == name_place(all, x@),
        decreases i,
    {
        assert(all[i - 1] == s@[i - 1]@);
        assert(all.take(i as int).drop_last() =~= all.take(i - 1));
        if !is_text_before(x, s[i - 1].as_str()) {
            return i;
        }
        i -= 1;
    }
    0
}

fn read_snapshot_name(line: &str) -> (r: Option<String>)
    ensures
        r is Some == snapshot_name_in(line@) is Some,
        r matches Some(n) ==> snapshot_name_in(line@) == Some(n@),
{
    let parts = split_words(line);
    if parts.len() < 7 {
        return None;
    }
    assert(views(parts@)[0] == parts@[0]@);
    if !same(parts[0], "ID") {
        return None;
    }
    let path = read_listed_path(&parts);
    Some(base_name(path.as_str()))
}

/// The paths of the snapshots to delete, by a listing of the snapshots of a directory.
pub fn snapshot_cleanup(listing: &str, snapshot_dir: &str, retention: &SnapshotRetention) -> (r: Vec<
    String,
>)
    ensures
        string_views(r@) == surplus_names(lines(listing@), *retention).map_values(
            |n: Seq<char>| below(snapshot_dir@, n),
        ),
{
    let all = split_lines(listing);
    let ghost l = lines(listing@);
    let keep: u64 = retention.daily as u64 + retention.weekly as u64 + retention.monthly as u64;
    let ghost to_path = |n: Seq<char>| below(snapshot_dir@, n);
    let mut r: Vec<String> = Vec::new();
    if all.len() as u64 <= keep {
        assert(string_views(r@) =~= surplus_names(l, *retention).map_values(to_path));
        return r;
    }
    let mut names: Vec<String> = Vec::new();
    let mut i: usize = 0;
    assert(l.take(0) =~= Seq::<Seq<char>>::empty());
    assert(string_views(names@) =~= Seq::<Seq<char>>::empty());
    while i < all.len()
        invariant
            i <= all@.len(),
            views(all@) == l,
            string_views(names@) == names_in_order(l.take(i as int)),
        decreases all@.len() - i,
    {
        proof {
            assert(views(all@)[i as int] == all@[i as int]@);
            assert(l.take(i + 1).drop_last() =~= l.take(i as int));
            assert(l.take(i + 1).last() == all@[i as int]@);
        }
        match read_snapshot_name(all[i]) {
            Some(n) => {
                let k = name_place_of(&names, n.as_str());
                let ghost before = names@;
                names.insert(k, n);
                assert(string_views(names@) =~= string_views(before).insert(k as int, n@));
            },
            None => {},
        }
        i += 1;
    }
    assert(l.take(i as int) =~= l);
    if names.len() as u64 <= keep {
        assert(string_views(r@) =~= surplus_names(l, *retention).map_values(to_path));
        return r;
    }
    let count: usize = names.len() - keep as usize;
    let ghost sorted = names_in_order(l);
    let mut j: usize = 0;
    assert(string_views(r@) =~= sorted.take(0).map_values(to_path));
    while j < count
        invariant
            j <= count <= names@.len(),
            string_views(names@) == sorted,
            to_path == (|n: Seq<char>| below(snapshot_dir@, n)),
            string_views(r@) == sorted.take(j as int).map_values(to_path),
        decreases count - j,
    {
        let ghost before = r@;
        assert(sorted[j as int] == names@[j as int]@);
        let path = path_below(snapshot_dir, names[j].as_str());
        r.push(path);
        proof {
            assert(string_views(r@) =~= string_views(before).push(path@));
            assert(sorted.take(j + 1).map_values(to_path) =~= sorted.take(j as int).map_values(
                to_path,
            ).push(path@));
        }
        j += 1;
    }
    r
}

/// The cleanup leaves as many snapshots as are kept, or all if there are fewer.
pub proof fn cleanup_keeps_enough(l: Seq<Seq<char>>, r: SnapshotRetention)
    ensures
        names_in_order(l).len() <= l.len(),
        names_in_order(l).len() - surplus_names(l, r).len() == if names_in_order(l).len()
            <= kept_snapshots(r) {
            names_in_order(l).len() as int
        } else {
            kept_snapshots(r) as int
        },
{
    lemma_names_len(l);
}

proof fn lemma_names_len(l: Seq<Seq<char>>)
    ensures
        names_in_order(l).len() <= l.len(),
    decreases l.len(),
{
    if l.len() > 0 {
        lemma_names_len(l.drop_last());
        lemma_name_place(names_in_order(l.drop_last()), match snapshot_name_in(l.last()) {
            Some(n) => n,
            None => Seq::empty(),
        });
    }
}

proof fn lemma_name_place(s: Seq<Seq<char>>, x: Seq<char>)
    ensures
        0 <= name_place(s, x) <= s.len(),
    decreases s.len(),
{
    if s.len() > 0 {
        lemma_name_place(s.drop_last(), x);
    }
}

proof fn lemma_not_before_transitive(a: Seq<char>, b: Seq<char>, c: Seq<char>)
    requires
        !text_before(a, b),
        !text_before(b, c),
    ensures
        !text_before(a, c),
    decreases a.len(),
{
    if c.len() > 0 && a.len() > 0 && b.len() > 0 && a[0] == b[0] && b[0] == c[0] {
        lemma_not_before_transitive(a.skip(1), b.skip(1), c.skip(1));
    }
}

proof fn lemma_before_is_strict(a: Seq<char>, b: Seq<char>)
    requires
        text_before(a, b),
    ensures
        !text_before(b, a),
    decreases a.len(),
{
    if a.len() > 0 && b.len() > 0 && a[0] == b[0] {
        lemma_before_is_strict(a.skip(1), b.skip(1));
    }
}

proof fn lemma_name_place_splits(s: Seq<Seq<char>>, x: Seq<char>)
    ensures
        0 <= name_place(s, x) <= s.len(),
        name_place(s, x) > 0 ==> !text_before(x, s[name_place(s, x) - 1]),
        forall|i: int| name_place(s, x) <= i < s.len() ==> text_before(x, #[trigger] s[i]),
    decreases s.len(),
{
    if s.len() > 0 && text_before(x, s.last()) {
        lemma_name_place_splits(s.drop_last(), x);
        assert forall|i: int| name_place(s, x) <= i < s.len() implies text_before(
            x,
            #[trigger] s[i],
        ) by {
            if i < s.len() - 1 {
                assert(s.drop_last()[i] == s[i]);
            }
        }
    }
}

/// The snapshots that are deleted stand first in the dictionary: no snapshot that is kept stands
/// before one that is deleted.
pub proof fn names_stand_in_order(l: Seq<Seq<char>>)
    ensures
        forall|i: int, j: int|
            0 <= i < j < names_in_order(l).len() ==> !text_before(
                #[trigger] names_in_order(l)[j],
                #[trigger] names_in_order(l)[i],
            ),
    decreases l.len(),
{
    if l.len() > 0 {
        names_stand_in_order(l.drop_last());
        let t = names_in_order(l.drop_last());
        match snapshot_name_in(l.last()) {
            Some(x) => {
                let k = name_place(t, x);
                lemma_name_place_splits(t, x);
                let f = t.insert(k, x);
                assert forall|i: int, j: int| 0 <= i < j < f.len() implies !text_before(
                    #[trigger] f[j],
                    #[trigger] f[i],
                ) by {
                    if i < k {
                        assert(f[i] == t[i]);
                    } else if i > k {
                        assert(f[i] == t[i - 1]);
                    }
                    if j < k {
                        assert(f[j] == t[j]);
                    } else if j > k {
                        assert(f[j] == t[j - 1]);
                    }
                    if j == k && i < k - 1 {
                        assert(!text_before(t[k - 1], t[i]));
                        lemma_not_before_transitive(x, t[k - 1], t[i]);
                    }
                    if i == k {
                        lemma_before_is_strict(x, t[j - 1]);
                    }
                }
            },
            None => {},
        }
    }
}

} // verus!
