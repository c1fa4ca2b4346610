//! What the scheduled maintenance promises.

use vstd::prelude::*;
use vstd::string::*;

use crate::csi::names::lemma_last_part;
use crate::exchange::config::SnapshotRetention;
use crate::exchange::scheduler::{
    balance_thresholds, is_usage_line, low_usages, name_place, names_in_order, names_stand_in_order,
    number_and_unit, number_len, pair_place, snapshot_name_in, surplus_names, text_before,
    usage_in_line, usages_in, used_part, window_step, DfUsageView, WindowStep,
};
use crate::number::is_digit;
use crate::ops::subvolume::last_part;
use crate::text::{fields, joined, lemma_index_where_is, only, stands_at, trimmed, words};
use crate::text_laws::what_stands_in_a_text_is_found;

verus! {

broadcast use vstd::string::group_string_axioms;

proof fn lemma_name_place_bounds(s: Seq<Seq<char>>, x: Seq<char>)
    ensures
        0 <= name_place(s, x) <= s.len(),
    decreases s.len(),
{
    if s.len() > 0 {
        lemma_name_place_bounds(s.drop_last(), x);
    }
}

/// The snapshots of a listing are those that its lines name: as many as there are lines that name
/// one, and no others.
pub proof fn every_listed_snapshot_is_considered(l: Seq<Seq<char>>, x: Seq<char>)
    ensures
        names_in_order(l).len() == l.filter(
            |line: Seq<char>| snapshot_name_in(line) is Some,
        ).len(),
        names_in_order(l).contains(x) == (exists|i: int|
            0 <= i < l.len() && snapshot_name_in(#[trigger] l[i]) == Some(x)),
    decreases l.len(),
{
    reveal(Seq::filter);
    if l.len() > 0 {
        let t = l.drop_last();
        every_listed_snapshot_is_considered(t, x);
        let before = names_in_order(t);
        let after = names_in_order(l);
        assert(l[l.len() - 1] == l.last());
        match snapshot_name_in(l.last()) {
            Some(n) => {
                let k = name_place(before, n);
                lemma_name_place_bounds(before, n);
                assert(after[k] == n);
                if before.contains(x) {
                    let i = choose|i: int| 0 <= i < before.len() && before[i] == x;
                    assert(after[if i < k {
                        i
                    } else {
                        i + 1
                    }] == x);
                }
                if after.contains(x) && x != n {
                    let i = choose|i: int| 0 <= i < after.len() && after[i] == x;
                    assert(before[if i < k {
                        i
                    } else {
                        i - 1
                    }] == x);
                }
            },
            None => {},
        }
        if exists|i: int| 0 <= i < t.len() && snapshot_name_in(#[trigger] t[i]) == Some(x) {
            let i = choose|i: int|
                0 <= i < t.len() && snapshot_name_in(#[trigger] t[i]) == Some(x);
            assert(l[i] == t[i]);
        }
        if exists|i: int| 0 <= i < l.len() && snapshot_name_in(#[trigger] l[i]) == Some(x) {
            let i = choose|i: int|
                0 <= i < l.len() && snapshot_name_in(#[trigger] l[i]) == Some(x);
            if i < t.len() {
                assert(t[i] == l[i]);
            }
        }
    }
}

/// The cleanup keeps as many snapshots as the daily, weekly and monthly ones of the policy make
/// together, and deletes the others; while there are no more than these, it deletes none.
pub proof fn cleanup_keeps_what_the_policy_counts(l: Seq<Seq<char>>, r: SnapshotRetention)
    ensures
        ({
            let n = l.filter(|line: Seq<char>| snapshot_name_in(line) is Some).len();
            let keep = r.daily + r.weekly + r.monthly;
            &&& n <= keep ==> surplus_names(l, r).len() == 0
            &&& n > keep ==> surplus_names(l, r).len() == n - keep
            &&& surplus_names(l, r) == names_in_order(l).take(surplus_names(l, r).len() as int)
        }),
{
    every_listed_snapshot_is_considered(l, Seq::empty());
    lemma_filter_len(l);
    let s = surplus_names(l, r);
    assert(s =~= names_in_order(l).take(s.len() as int));
}

proof fn lemma_filter_len(l: Seq<Seq<char>>)
    ensures
        l.filter(|line: Seq<char>| snapshot_name_in(line) is Some).len() <= l.len(),
    decreases l.len(),
{
    reveal(Seq::filter);
    if l.len() > 0 {
        lemma_filter_len(l.drop_last());
    }
}

/// A policy that keeps one more snapshot, of whichever kind, saves one from being deleted if any
/// would be.
pub proof fn one_more_kept_is_one_less_deleted(
    l: Seq<Seq<char>>,
    r: SnapshotRetention,
    more: SnapshotRetention,
)
    requires
        more.daily + more.weekly + more.monthly == r.daily + r.weekly + r.monthly + 1,
    ensures
        surplus_names(l, r).len() > 0 ==> surplus_names(l, more).len() + 1 == surplus_names(
            l,
            r,
        ).len(),
        surplus_names(l, r).len() == 0 ==> surplus_names(l, more).len() == 0,
{
    cleanup_keeps_what_the_policy_counts(l, r);
    cleanup_keeps_what_the_policy_counts(l, more);
}

/// What is deleted is a snapshot of the listing, and none that is kept stands before it in the
/// dictionary.
pub proof fn first_in_the_dictionary_are_deleted(
    l: Seq<Seq<char>>,
    r: SnapshotRetention,
    i: int,
    j: int,
)
    requires
        0 <= i < surplus_names(l, r).len() <= j < names_in_order(l).len(),
    ensures
        !text_before(names_in_order(l)[j], surplus_names(l, r)[i]),
        exists|k: int|
            0 <= k < l.len() && snapshot_name_in(#[trigger] l[k]) == Some(surplus_names(l, r)[i]),
{
    names_stand_in_order(l);
    cleanup_keeps_what_the_policy_counts(l, r);
    let x = surplus_names(l, r)[i];
    assert(x == names_in_order(l)[i]);
    every_listed_snapshot_is_considered(l, x);
}

/// Behind what two texts have in common, the smaller character decides which stands first; a text
/// stands before those that it begins, and no text stands before itself.
pub proof fn dictionary_goes_by_the_first_difference(
    p: Seq<char>,
    a: Seq<char>,
    b: Seq<char>,
)
    ensures
        a.len() > 0 && b.len() > 0 && a[0] != b[0] ==> text_before(p + a, p + b) == (a[0] < b[0]),
        b.len() > 0 ==> text_before(p, p + b) && !text_before(p + b, p),
        !text_before(p, p),
    decreases p.len(),
{
    if p.len() > 0 {
        let q = p.skip(1);
        dictionary_goes_by_the_first_difference(q, a, b);
        assert((p + a).skip(1) =~= q + a);
        assert((p + b).skip(1) =~= q + b);
        assert((p + a)[0] == p[0] && (p + b)[0] == p[0]);
    } else {
        assert(p + a =~= a);
        assert(p + b =~= b);
    }
}

/// In a line `ID <id> gen <gen> top level <parent> path <path>` the snapshot's name is what
/// follows the last slash of the path, or the whole path where there is none. A line that does
/// not begin with `ID` names no snapshot, and neither does one with fewer than seven words.
pub proof fn snapshot_is_named_by_its_path(
    line: Seq<char>,
    dir: Seq<char>,
    name: Seq<char>,
)
    requires
        !name.contains('/'),
    ensures
        ({
            let w = words(line);
            &&& w.len() == 9 && w[0] == "ID"@ && w[7] == "path"@ && w[8] == dir + seq!['/'] + name
                ==> snapshot_name_in(line) == Some(name)
            &&& w.len() == 9 && w[0] == "ID"@ && w[7] == "path"@ && w[8] == name
                ==> snapshot_name_in(line) == Some(name)
            &&& w.len() < 7 ==> snapshot_name_in(line) is None
            &&& w.len() > 0 && w[0] != "ID"@ ==> snapshot_name_in(line) is None
            &&& w.len() >= 7 && w[0] == "ID"@ ==> snapshot_name_in(line) is Some
        }),
{
    let w = words(line);
    if w.len() == 9 {
        let rest = w.skip(8);
        assert(rest =~= seq![w[8]]);
        lemma_one_joined(w[8], " "@);
    }
    lemma_last_part(dir, name);
    lemma_no_slash(name);
}

proof fn lemma_one_joined(x: Seq<char>, sep: Seq<char>)
    ensures
        joined(seq![x], sep) == x,
{
    assert(seq![x].drop_last() =~= Seq::<Seq<char>>::empty());
}

proof fn lemma_no_slash(name: Seq<char>)
    requires
        !name.contains('/'),
    ensures
        last_part(name) == name,
{
    let p = only('/');
    assert forall|k: int| 0 <= k < name.len() implies !p(#[trigger] name[k]) by {
        if name[k] == '/' {
            assert(name.contains('/'));
        }
    }
    lemma_index_where_is(name, p, name.len() as int);
    assert(fields(name, '/') == seq![name]);
}

proof fn lemma_pair_place(s: Seq<(u32, u32)>, x: (u32, u32))
    ensures
        0 <= pair_place(s, x) <= s.len(),
        pair_place(s, x) > 0 ==> s[pair_place(s, x) - 1].0 <= x.0,
        forall|i: int| pair_place(s, x) <= i < s.len() ==> (#[trigger] s[i]).0 >= x.0,
    decreases s.len(),
{
    if s.len() > 0 && !(s.last().0 < x.0 || (s.last().0 == x.0 && s.last().1 <= x.1)) {
        lemma_pair_place(s.drop_last(), x);
        assert forall|i: int| pair_place(s, x) <= i < s.len() implies (#[trigger] s[i]).0
            >= x.0 by {
            if i < s.len() - 1 {
                assert(s.drop_last()[i] == s[i]);
            }
        }
    }
}

proof fn lemma_low_usages(pcts: Seq<u64>, n: u32)
    ensures
        low_usages(pcts).len() == pcts.filter(|p: u64| p < 50).len(),
        low_usages(pcts).contains((n, 0)) == (n < 50 && pcts.contains(n as u64)),
        forall|i: int|
            0 <= i < low_usages(pcts).len() ==> (#[trigger] low_usages(pcts)[i]).1 == 0
                && low_usages(pcts)[i].0 < 50,
        forall|i: int, j: int|
            0 <= i < j < low_usages(pcts).len() ==> (#[trigger] low_usages(pcts)[i]).0 <= (
            #[trigger] low_usages(pcts)[j]).0,
    decreases pcts.len(),
{
    reveal(Seq::filter);
    if pcts.len() > 0 {
        let t = pcts.drop_last();
        lemma_low_usages(t, n);
        let s = low_usages(t);
        let f = low_usages(pcts);
        assert(pcts[pcts.len() - 1] == pcts.last());
        if pcts.last() < 50 {
            let x = (pcts.last() as u32, 0u32);
            let k = pair_place(s, x);
            lemma_pair_place(s, x);
            assert(f[k] == x);
            assert forall|i: int, j: int| 0 <= i < j < f.len() implies (#[trigger] f[i]).0 <= (
            #[trigger] f[j]).0 by {
                if i < k {
                    assert(f[i] == s[i]);
                } else if i > k {
                    assert(f[i] == s[i - 1]);
                }
                if j < k {
                    assert(f[j] == s[j]);
                } else if j > k {
                    assert(f[j] == s[j - 1]);
                }
                if j == k && i < k - 1 {
                    assert(s[i].0 <= s[k - 1].0);
                }
            }
            assert forall|i: int| 0 <= i < f.len() implies (#[trigger] f[i]).1 == 0 && f[i].0
                < 50 by {
                if i < k {
                    assert(f[i] == s[i]);
                } else if i > k {
                    assert(f[i] == s[i - 1]);
                }
            }
            if s.contains((n, 0)) {
                let i = choose|i: int| 0 <= i < s.len() && s[i] == (n, 0u32);
                assert(f[if i < k {
                    i
                } else {
                    i + 1
                }] == (n, 0u32));
            }
            if f.contains((n, 0)) && x != (n, 0u32) {
                let i = choose|i: int| 0 <= i < f.len() && f[i] == (n, 0u32);
                assert(s[if i < k {
                    i
                } else {
                    i - 1
                }] == (n, 0u32));
            }
        }
        if t.contains(n as u64) {
            let i = choose|i: int| 0 <= i < t.len() && t[i] == n as u64;
            assert(pcts[i] == n as u64);
        }
        if pcts.contains(n as u64) {
            let i = choose|i: int| 0 <= i < pcts.len() && pcts[i] == n as u64;
            if i < t.len() {
                assert(t[i] == n as u64);
            }
        }
    }
}

/// Balancing goes by every usage below one half, in ascending order, for data alone. Where there
/// is none it goes by a quarter and then by one half, for data and metadata.
pub proof fn low_usage_is_balanced(pcts: Seq<u64>, n: u32)
    ensures
        ({
            let b = balance_thresholds(pcts);
            let low = pcts.filter(|p: u64| p < 50).len();
            &&& low == 0 ==> b == seq![(25u32, 25u32), (50u32, 50u32)]
            &&& low > 0 ==> {
                &&& b.len() == low
                &&& b.contains((n, 0)) == (n < 50 && pcts.contains(n as u64))
                &&& forall|i: int| 0 <= i < b.len() ==> (#[trigger] b[i]).1 == 0 && b[i].0 < 50
                &&& forall|i: int, j: int|
                    0 <= i < j < b.len() ==> (#[trigger] b[i]).0 <= (#[trigger] b[j]).0
            }
        }),
{
    lemma_low_usages(pcts, n);
}

/// Maintenance waits while the machine is busy, but not more often than four times.
pub proof fn maintenance_is_put_off_four_times(n: u32)
    ensures
        window_step(n, false) is Proceed,
        n < 4 ==> window_step(n, true) == WindowStep::Defer((n + 1) as u32),
        n >= 4 ==> window_step(n, true) is Proceed,
{
}

/// In a line such as `Data, single: total=1.00GiB, used=256.00MiB` the used size is what follows
/// `used=` in the third part, and the total what follows the `=` in the second. A line of two
/// parts states them in the second and the first.
pub proof fn usage_line_states_used_and_total(
    line: Seq<char>,
    head: Seq<char>,
    middle: Seq<char>,
    tail: Seq<char>,
    label: Seq<char>,
    total: Seq<char>,
    used: Seq<char>,
)
    requires
        trimmed(tail) == "used="@ + used,
        fields(middle, '=') == seq![label, total],
    ensures
        fields(line, ',') == seq![head, middle, tail] && !stands_at(
            trimmed(middle),
            "used="@,
            0,
        ) || fields(line, ',') == seq![middle, tail] ==> usage_in_line(line) == Some(
            DfUsageView {
                used: number_and_unit(used).0,
                used_unit: number_and_unit(used).1,
                total: number_and_unit(total).0,
                total_unit: number_and_unit(total).1,
            },
        ),
{
    reveal_strlit("used=");
    reveal_with_fuel(used_part, 3);
    let t = trimmed(tail);
    assert(t.subrange(0, 5) =~= "used="@);
    assert(stands_at(t, "used="@, 0));
    assert(t.skip(5) =~= used);
    let f = fields(line, ',');
    if f == seq![head, middle, tail] {
        assert(f.skip(1) =~= seq![middle, tail]);
        assert(f.skip(1).skip(1) =~= seq![tail]);
    }
    if f == seq![middle, tail] {
        assert(f.skip(1) =~= seq![tail]);
    }
}

/// A size is parted behind its last digit; one that ends in a digit is in bytes.
pub proof fn size_is_parted_behind_its_last_digit(n: Seq<char>, u: Seq<char>)
    requires
        n.len() > 0,
        is_digit(n.last()),
        trimmed(n + u) == n + u,
        trimmed(n) == n,
        forall|i: int| 0 <= i < u.len() ==> !is_digit(#[trigger] u[i]),
    ensures
        u.len() > 0 ==> number_and_unit(n + u) == (n, u),
        number_and_unit(n) == (n, "B"@),
{
    lemma_number_len(n, u);
    let none = Seq::<char>::empty();
    lemma_number_len(n, none);
    assert(n + none =~= n);
    assert((n + u).take(n.len() as int) =~= n);
    assert((n + u).skip(n.len() as int) =~= u);
}

proof fn lemma_number_len(n: Seq<char>, u: Seq<char>)
    requires
        n.len() > 0,
        is_digit(n.last()),
        forall|i: int| 0 <= i < u.len() ==> !is_digit(#[trigger] u[i]),
    ensures
        number_len(n + u) == n.len(),
    decreases u.len(),
{
    if u.len() > 0 {
        let v = u.drop_last();
        assert(u[u.len() - 1] == u.last());
        assert((n + u).last() == u.last());
        assert((n + u).drop_last() =~= n + v);
        assert forall|i: int| 0 <= i < v.len() implies !is_digit(#[trigger] v[i]) by {
            assert(v[i] == u[i]);
        }
        lemma_number_len(n, v);
    } else {
        assert(n + u =~= n);
    }
}

/// The usages of an overview are those of its lines for data and for metadata, in their order;
/// other lines state none.
pub proof fn data_and_metadata_are_looked_at(l: Seq<Seq<char>>, line: Seq<char>, rest: Seq<char>)
    ensures
        line == "Data,"@ + rest || line == "Data."@ + rest || line == "Metadata,"@ + rest || line
            == "Metadata."@ + rest ==> usages_in(l.push(line)) == (match usage_in_line(line) {
            Some(u) => usages_in(l).push(u),
            None => usages_in(l),
        }),
        !stands_at(line, "Data,"@, 0) && !stands_at(line, "Data."@, 0) && !stands_at(
            line,
            "Metadata,"@,
            0,
        ) && !stands_at(line, "Metadata."@, 0) ==> usages_in(l.push(line)) == usages_in(l),
{
    assert(l.push(line).drop_last() =~= l);
    let none = Seq::<char>::empty();
    what_stands_in_a_text_is_found(none, "Data,"@, rest);
    what_stands_in_a_text_is_found(none, "Data."@, rest);
    what_stands_in_a_text_is_found(none, "Metadata,"@, rest);
    what_stands_in_a_text_is_found(none, "Metadata."@, rest);
}

} // verus!
