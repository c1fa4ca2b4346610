//! What reading sizes and usage figures promises.

use vstd::prelude::*;
use vstd::string::*;

use crate::number::{all_digits, digits_value, is_digit};
use crate::numeral::{ascii_lowered, is_exponent_mark, numeral, scaled, Numeral};
use crate::ops::subvolume::{spaced_size, unit_power};
use crate::ops::usage::{
    device_of, devices_of, digits_and_points, figures_after, figures_of, lowered, scrub_due,
    size_behind, size_in_words, size_value, suffix_gives_the_power, usage_from, DeviceUsageView,
    UsageFigures,
};
use crate::quantity::{
    exact_numbers_are_read_exactly, pw10, pw2, scaled_floor, units_are_powers_of_1024,
};
use crate::text::{has, index_where, lemma_index_where_is, only, parted, trimmed, words};

verus! {

broadcast use vstd::string::group_string_axioms;

proof fn lemma_no_word(d: Seq<char>)
    requires
        d.len() > 0,
        digits_and_points(d),
    ensures
        ascii_lowered(d) == d,
        d != "inf"@,
        d != "infinity"@,
        d != "nan"@,
        index_where(d, |c: char| is_exponent_mark(c)) == d.len(),
{
    reveal_strlit("inf");
    reveal_strlit("infinity");
    reveal_strlit("nan");
    assert(is_digit(d[0]) || d[0] == '.');
    assert("inf"@[0] == 'i' && "infinity"@[0] == 'i' && "nan"@[0] == 'n');
    assert forall|i: int| 0 <= i < d.len() implies ascii_lowered(d)[i] == #[trigger] d[i] by {
        assert(is_digit(d[i]) || d[i] == '.');
    }
    assert(ascii_lowered(d) =~= d);
    let p = |c: char| is_exponent_mark(c);
    assert forall|i: int| 0 <= i < d.len() implies !p(#[trigger] d[i]) by {
        assert(is_digit(d[i]) || d[i] == '.');
    }
    lemma_index_where_is(d, p, d.len() as int);
}

proof fn lemma_whole(d: Seq<char>, k: nat)
    requires
        d.len() > 0,
        all_digits(d),
    ensures
        scaled(d, k) == scaled_floor(digits_value(d), 0, k),
{
    assert(digits_and_points(d));
    lemma_no_word(d);
    assert(is_digit(d[0]));
    assert forall|i: int| 0 <= i < d.len() implies !only('.')(#[trigger] d[i]) by {
        assert(is_digit(d[i]));
    }
    lemma_index_where_is(d, only('.'), d.len() as int);
    assert(d.take(d.len() as int) =~= d);
    assert(d + Seq::<char>::empty() =~= d);
    assert(numeral(d) == Some(Numeral::Finite { negative: false, digits: d, exponent: 0 }));
}

proof fn lemma_pointed(d: Seq<char>, f: Seq<char>, k: nat)
    requires
        d.len() > 0,
        all_digits(d),
        all_digits(f),
    ensures
        scaled(d + seq!['.'] + f, k) == scaled_floor(digits_value(d + f), -(f.len() as int), k),
        digits_and_points(d + seq!['.'] + f),
{
    let s = d + seq!['.'] + f;
    assert forall|i: int| 0 <= i < s.len() implies is_digit(#[trigger] s[i]) || s[i] == '.' by {
        if i < d.len() {
            assert(s[i] == d[i]);
        } else if i > d.len() {
            assert(s[i] == f[i - d.len() - 1]);
        }
    }
    lemma_no_word(s);
    assert(s[0] == d[0] && is_digit(d[0]));
    assert forall|i: int| 0 <= i < d.len() implies !only('.')(#[trigger] s[i]) by {
        assert(s[i] == d[i]);
    }
    assert(s[d.len() as int] == '.');
    lemma_index_where_is(s, only('.'), d.len() as int);
    assert(s.take(d.len() as int) =~= d);
    assert(s.skip(d.len() as int + 1) =~= f);
    assert(numeral(s) == Some(
        Numeral::Finite { negative: false, digits: d + f, exponent: -(f.len() as int) },
    ));
}

proof fn lemma_multiples(n: nat)
    ensures
        n * pw2(0) == n,
        n * pw2(10) == n * 1024,
        n * pw2(20) == n * 1024 * 1024,
        n * pw2(30) == n * 1024 * 1024 * 1024,
        n * pw2(40) == n * 1024 * 1024 * 1024 * 1024,
{
    units_are_powers_of_1024();
    let (a, b, c, d, e) = (pw2(0), pw2(10), pw2(20), pw2(30), pw2(40));
    assert(n * a == n) by (nonlinear_arith)
        requires
            a == 1,
    ;
    assert(n * b == n * 1024) by (nonlinear_arith)
        requires
            b == 1024,
    ;
    assert(n * c == n * 1024 * 1024) by (nonlinear_arith)
        requires
            c == 1024 * 1024,
    ;
    assert(n * d == n * 1024 * 1024 * 1024) by (nonlinear_arith)
        requires
            d == 1024 * 1024 * 1024,
    ;
    assert(n * e == n * 1024 * 1024 * 1024 * 1024) by (nonlinear_arith)
        requires
            e == 1024 * 1024 * 1024 * 1024,
    ;
}

/// A whole number with a unit behind it is that many units: a kilobyte has 1024 bytes, a megabyte
/// 1024 of those, and so on, whether or not the unit is written with an `i`.
pub proof fn whole_sizes_count_units(d: Seq<char>, u: Seq<char>)
    requires
        d.len() > 0,
        all_digits(d),
        digits_value(d) < 0x20_0000_0000_0000,
    ensures
        ({
            let n = digits_value(d);
            let w = ascii_lowered(u);
            &&& w == "kb"@ || w == "kib"@ ==> size_value(d + u) == n * 1024
            &&& (w == "mb"@ || w == "mib"@) && n * 1024 * 1024 <= u64::MAX ==> size_value(d + u)
                == n * 1024 * 1024
            &&& (w == "gb"@ || w == "gib"@) && n * 1024 * 1024 * 1024 <= u64::MAX ==> size_value(
                d + u,
            ) == n * 1024 * 1024 * 1024
            &&& (w == "tb"@ || w == "tib"@) && n * 1024 * 1024 * 1024 * 1024 <= u64::MAX
                ==> size_value(d + u) == n * 1024 * 1024 * 1024 * 1024
            &&& (w == "tb"@ || w == "tib"@) && n * 1024 * 1024 * 1024 * 1024 > u64::MAX
                ==> size_value(d + u) == u64::MAX
        }),
{
    let n = digits_value(d);
    let w = ascii_lowered(u);
    assert(digits_and_points(d));
    lemma_multiples(n);
    exact_numbers_are_read_exactly(n, 10, 0, 0);
    exact_numbers_are_read_exactly(n, 20, 0, 0);
    exact_numbers_are_read_exactly(n, 30, 0, 0);
    exact_numbers_are_read_exactly(n, 40, 0, 0);
    lemma_whole(d, 10);
    lemma_whole(d, 20);
    lemma_whole(d, 30);
    lemma_whole(d, 40);
    if w == "kb"@ || w == "kib"@ {
        suffix_gives_the_power(d, u, "kib"@, "kb"@, 10);
    }
    if w == "mb"@ || w == "mib"@ {
        suffix_gives_the_power(d, u, "mib"@, "mb"@, 20);
    }
    if w == "gb"@ || w == "gib"@ {
        suffix_gives_the_power(d, u, "gib"@, "gb"@, 30);
    }
    if w == "tb"@ || w == "tib"@ {
        suffix_gives_the_power(d, u, "tib"@, "tb"@, 40);
    }
}

/// A number with a point, and a unit behind it, is that part of the unit, as 1.5 GiB is 1536 MiB:
/// where the number of bytes is whole, it is read exactly.
pub proof fn parts_of_units_count(d: Seq<char>, f: Seq<char>, u: Seq<char>, m: nat)
    requires
        d.len() > 0,
        all_digits(d),
        f.len() > 0,
        all_digits(f),
        m < 0x20_0000_0000_0000,
    ensures
        ({
            let n = digits_value(d + f);
            let w = ascii_lowered(u);
            let s = d + seq!['.'] + f + u;
            let tens = pw10(f.len());
            &&& (w == "kb"@ || w == "kib"@) && n * 1024 == m * tens ==> size_value(s) == m
            &&& (w == "mb"@ || w == "mib"@) && n * (1024 * 1024) == m * tens ==> size_value(s) == m
            &&& (w == "gb"@ || w == "gib"@) && n * (1024 * 1024 * 1024) == m * tens ==> size_value(
                s,
            ) == m
            &&& (w == "tb"@ || w == "tib"@) && n * (1024 * 1024 * 1024 * 1024) == m * tens
                ==> size_value(s) == m
        }),
{
    let n = digits_value(d + f);
    let w = ascii_lowered(u);
    let t = d + seq!['.'] + f;
    units_are_powers_of_1024();
    exact_numbers_are_read_exactly(n, 10, f.len(), m);
    exact_numbers_are_read_exactly(n, 20, f.len(), m);
    exact_numbers_are_read_exactly(n, 30, f.len(), m);
    exact_numbers_are_read_exactly(n, 40, f.len(), m);
    lemma_pointed(d, f, 10);
    lemma_pointed(d, f, 20);
    lemma_pointed(d, f, 30);
    lemma_pointed(d, f, 40);
    if w == "kb"@ || w == "kib"@ {
        suffix_gives_the_power(t, u, "kib"@, "kb"@, 10);
    }
    if w == "mb"@ || w == "mib"@ {
        suffix_gives_the_power(t, u, "mib"@, "mb"@, 20);
    }
    if w == "gb"@ || w == "gib"@ {
        suffix_gives_the_power(t, u, "gib"@, "gb"@, 30);
    }
    if w == "tb"@ || w == "tib"@ {
        suffix_gives_the_power(t, u, "tib"@, "tb"@, 40);
    }
}

/// Where a space stands before the unit, a whole number is that many units too, and bytes count as
/// well; a unit that is not known makes no size, and neither does an empty text.
pub proof fn spaced_sizes_count_units(s: Seq<char>)
    ensures
        words(s).len() == 0 ==> spaced_size(s) == 0,
        words(s).len() == 1 ==> spaced_size(s) == size_value(words(s)[0]),
        words(s).len() >= 2 && all_digits(words(s)[0]) && words(s)[0].len() > 0 && digits_value(
            words(s)[0],
        ) < 0x20_0000_0000_0000 ==> {
            let n = digits_value(words(s)[0]);
            let u = lowered(words(s)[1]);
            &&& u == "b"@ || u == "bytes"@ ==> spaced_size(s) == n
            &&& u == "kb"@ || u == "kib"@ ==> spaced_size(s) == n * 1024
            &&& (u == "mb"@ || u == "mib"@) && n * 1024 * 1024 <= u64::MAX ==> spaced_size(s) == n
                * 1024 * 1024
            &&& (u == "gb"@ || u == "gib"@) && n * 1024 * 1024 * 1024 <= u64::MAX ==> spaced_size(s)
                == n * 1024 * 1024 * 1024
            &&& (u == "tb"@ || u == "tib"@) && n * 1024 * 1024 * 1024 * 1024 <= u64::MAX
                ==> spaced_size(s) == n * 1024 * 1024 * 1024 * 1024
        },
        words(s).len() >= 2 && unit_power(lowered(words(s)[1])) is None ==> spaced_size(s) == 0,
{
    if words(s).len() >= 2 && all_digits(words(s)[0]) && words(s)[0].len() > 0 && digits_value(
        words(s)[0],
    ) < 0x20_0000_0000_0000 {
        let d = words(s)[0];
        let n = digits_value(d);
        lemma_multiples(n);
        exact_numbers_are_read_exactly(n, 0, 0, 0);
        exact_numbers_are_read_exactly(n, 10, 0, 0);
        exact_numbers_are_read_exactly(n, 20, 0, 0);
        exact_numbers_are_read_exactly(n, 30, 0, 0);
        exact_numbers_are_read_exactly(n, 40, 0, 0);
        lemma_whole(d, 0);
        lemma_whole(d, 10);
        lemma_whole(d, 20);
        lemma_whole(d, 30);
        lemma_whole(d, 40);
        reveal_strlit("b");
        reveal_strlit("bytes");
        reveal_strlit("kb");
        reveal_strlit("kib");
        reveal_strlit("mb");
        reveal_strlit("mib");
        reveal_strlit("gb");
        reveal_strlit("gib");
        reveal_strlit("tb");
        reveal_strlit("tib");
        assert("b"@.len() == 1 && "bytes"@.len() == 5);
        assert("kb"@[0] == 'k' && "kib"@[0] == 'k' && "mb"@[0] == 'm' && "mib"@[0] == 'm');
        assert("gb"@[0] == 'g' && "gib"@[0] == 'g' && "tb"@[0] == 't' && "tib"@[0] == 't');
        assert("kb"@.len() == 2 && "kib"@.len() == 3 && "mb"@.len() == 2 && "mib"@.len() == 3);
        assert("gb"@.len() == 2 && "gib"@.len() == 3 && "tb"@.len() == 2 && "tib"@.len() == 3);
    }
}

/// The size that a line gives is the one behind its first word `size`.
pub proof fn size_follows_its_word(w: Seq<Seq<char>>, i: int)
    requires
        0 <= i,
        i + 1 < w.len(),
        w[i] == "size"@,
        forall|j: int| 0 <= j < i ==> #[trigger] w[j] != "size"@,
    ensures
        size_in_words(w) == size_value(w[i + 1]),
    decreases i,
{
    if i > 0 {
        assert(w[0] != "size"@);
        let t = w.skip(1);
        assert forall|j: int| 0 <= j < i - 1 implies #[trigger] t[j] != "size"@ by {
            assert(t[j] == w[j + 1]);
        }
        assert(t[i - 1] == w[i] && t[i] == w[i + 1]);
        size_follows_its_word(t, i - 1);
    }
}

/// A line without the word `size` gives no size.
pub proof fn no_size_without_its_word(w: Seq<Seq<char>>)
    requires
        forall|j: int| 0 <= j < w.len() ==> #[trigger] w[j] != "size"@,
    ensures
        size_in_words(w) == 0,
    decreases w.len(),
{
    if w.len() >= 2 {
        assert(w[0] != "size"@);
        let t = w.skip(1);
        assert forall|j: int| 0 <= j < t.len() implies #[trigger] t[j] != "size"@ by {
            assert(t[j] == w[j + 1]);
        }
        no_size_without_its_word(t);
    }
}

/// The size behind a name is the one behind the first word that is the name, with or without its
/// colon; without such a word, the size stays what it was.
pub proof fn named_size_follows_its_name(
    w: Seq<Seq<char>>,
    name: Seq<char>,
    label: Seq<char>,
    was: u64,
    i: int,
)
    requires
        0 <= i <= w.len(),
        forall|j: int| 0 <= j < i ==> #[trigger] w[j] != name && w[j] != label,
    ensures
        i + 1 < w.len() && (w[i] == name || w[i] == label) ==> size_behind(w, name, label, was)
            == size_value(w[i + 1]),
        i == w.len() ==> size_behind(w, name, label, was) == was,
    decreases i,
{
    if i > 0 {
        assert(w[0] != name && w[0] != label);
        let t = w.skip(1);
        assert forall|j: int| 0 <= j < i - 1 implies #[trigger] t[j] != name && t[j] != label by {
            assert(t[j] == w[j + 1]);
        }
        if i < w.len() {
            assert(t[i - 1] == w[i]);
        }
        if i + 1 < w.len() {
            assert(t[i] == w[i + 1]);
        }
        named_size_follows_its_name(t, name, label, was, i - 1);
    }
}

/// The overview gives the total and the used size, and the lines of data, metadata and system give
/// theirs. Other lines give nothing.
pub proof fn lines_give_their_figures(f: UsageFigures, raw: Seq<char>)
    ensures
        ({
            let line = trimmed(raw);
            let r = figures_after(f, raw);
            &&& has(line, "Data:"@) ==> r.data_size == size_in_words(words(line))
            &&& has(line, "Data:"@) == false ==> r.data_size == f.data_size
            &&& has(line, "Metadata:"@) ==> r.metadata_size == size_in_words(words(line))
            &&& has(line, "Metadata:"@) == false ==> r.metadata_size == f.metadata_size
            &&& has(line, "System:"@) ==> r.system_size == size_in_words(words(line))
            &&& has(line, "System:"@) == false ==> r.system_size == f.system_size
            &&& has(line, "Overall:"@) == false ==> r.total == f.total && r.used == f.used
            &&& has(line, "Overall:"@) ==> (parted(line, ':') matches Some((a, b)) ==> r.total
                == size_behind(words(b), "size"@, "size:"@, f.total) && r.used == size_behind(
                words(b),
                "used"@,
                "used:"@,
                f.used,
            ))
        }),
{
}

/// Figures start at zero, and each line adds to them in its order. What is used and what is free
/// make up the total.
pub proof fn figures_add_up(l: Seq<Seq<char>>, x: Seq<char>, f: UsageFigures)
    ensures
        figures_of(Seq::empty()) == (UsageFigures {
            total: 0,
            used: 0,
            data_size: 0,
            metadata_size: 0,
            system_size: 0,
        }),
        figures_of(l.push(x)) == figures_after(figures_of(l), x),
        f.used <= f.total ==> {
            let u = usage_from(f);
            &&& u.used + u.free == u.total
            &&& u.total == f.total
            &&& u.used == f.used
            &&& u.data_size == f.data_size
            &&& u.metadata_size == f.metadata_size
            &&& u.system_size == f.system_size
            &&& u.device_count == 1
        },
{
    assert(l.push(x).drop_last() =~= l);
}

/// A line with a device's path and three more words describes it: the path, the size and the used
/// size come first, and what is free is the difference. Every such line counts, in its order.
pub proof fn every_device_is_listed(l: Seq<Seq<char>>, x: Seq<char>)
    ensures
        devices_of(Seq::empty()).len() == 0,
        has(x, "/dev/"@) && words(x).len() >= 4 ==> {
            let d = DeviceUsageView {
                path: words(x)[0],
                size: size_value(words(x)[1]),
                used: size_value(words(x)[2]),
                free: size_value(words(x)[1]) - size_value(words(x)[2]),
                imbalance: 0,
            };
            &&& device_of(x) == Some(d)
            &&& devices_of(l.push(x)) == devices_of(l).push(d)
        },
        has(x, "/dev/"@) == false || words(x).len() < 4 ==> devices_of(l.push(x)) == devices_of(l),
{
    assert(l.push(x).drop_last() =~= l);
}

/// A scrub is due when there was none, and from a week after the last on.
pub proof fn scrubs_are_due_weekly(last: i64, now: int)
    ensures
        scrub_due(None, now),
        scrub_due(Some(last), now) == (now >= last + 7 * 24 * 60 * 60 * 1000),
{
}

} // verus!
