//! What taking texts apart and reading numbers promises.

use vstd::prelude::*;
use vstd::string::*;

use crate::number::{
    all_digits, decimal, digits_value, is_digit, lemma_decimal, signed_value, unsigned_value,
};
use crate::text::{
    after_prefix, ends_in, fields, has, index_where, is_space, joined, lemma_index_where,
    lemma_index_where_is, lemma_trim_start_end, lines, only, parted, stands_at, trim_end,
    trim_start, trimmed, words,
};

verus! {

broadcast use vstd::string::group_string_axioms;

/// Blanks, tabs and the ends of lines are spaces; what can be printed in ASCII is none.
pub proof fn spaces_are_those_of_unicode(c: char)
    ensures
        c == ' ' || c == '\t' || c == '\n' || c == '\r' ==> is_space(c),
        '!' <= c <= '~' ==> !is_space(c),
        c as u32 == 0xa0 || c as u32 == 0x3000 || c as u32 == 0x2028 ==> is_space(c),
        is_space(c) ==> c as u32 <= 0x20 || c as u32 >= 0x85,
{
}

/// A text is parted at every separator, and what stands between two of them is one part, though it
/// is empty.
pub proof fn every_separator_parts(a: Seq<char>, sep: char, b: Seq<char>)
    requires
        !a.contains(sep),
    ensures
        fields(a, sep) == seq![a],
        fields(a + seq![sep] + b, sep) == seq![a] + fields(b, sep),
        parted(a, sep) is None,
        parted(a + seq![sep] + b, sep) == Some((a, b)),
{
    let s = a + seq![sep] + b;
    assert forall|k: int| 0 <= k < a.len() implies !only(sep)(#[trigger] a[k]) by {
        assert(a.contains(a[k]));
    }
    assert forall|k: int| 0 <= k < a.len() implies !only(sep)(#[trigger] s[k]) by {
        assert(s[k] == a[k]);
    }
    lemma_index_where_is(a, only(sep), a.len() as int);
    lemma_index_where_is(s, only(sep), a.len() as int);
    assert(s.take(a.len() as int) =~= a);
    assert(s.skip(a.len() as int + 1) =~= b);
}

/// The parts of a text, put together again with the separator, are the text.
pub proof fn parts_make_up_the_text(s: Seq<char>, sep: char)
    ensures
        fields(s, sep).len() >= 1,
        joined(fields(s, sep), seq![sep]) == s,
    decreases s.len(),
{
    let i = index_where(s, only(sep));
    lemma_index_where(s, only(sep));
    if i < s.len() {
        let t = s.skip(i + 1);
        parts_make_up_the_text(t, sep);
        lemma_joined_front(s.take(i), fields(t, sep), seq![sep]);
        assert(s =~= s.take(i) + seq![sep] + t);
    }
}

proof fn lemma_joined_front(a: Seq<char>, p: Seq<Seq<char>>, sep: Seq<char>)
    requires
        p.len() >= 1,
    ensures
        joined(seq![a] + p, sep) == a + sep + joined(p, sep),
    decreases p.len(),
{
    let q = seq![a] + p;
    assert(q.last() == p.last());
    if p.len() == 1 {
        assert(q.drop_last() =~= seq![a]);
        assert(joined(seq![a], sep) == a);
    } else {
        lemma_joined_front(a, p.drop_last(), sep);
        assert(q.drop_last() =~= seq![a] + p.drop_last());
        assert(a + sep + joined(p.drop_last(), sep) + sep + p.last() =~= a + sep + (joined(
            p.drop_last(),
            sep,
        ) + sep + p.last()));
    }
}

/// Joined texts have the separator between them, and nowhere else.
pub proof fn separators_stand_between(a: Seq<char>, p: Seq<Seq<char>>, b: Seq<char>, sep: Seq<char>)
    ensures
        joined(Seq::empty(), sep) == Seq::<char>::empty(),
        joined(seq![a], sep) == a,
        joined(seq![a, b], sep) == a + sep + b,
        p.len() > 0 ==> joined(p.push(b), sep) == joined(p, sep) + sep + b,
        p.len() > 0 ==> joined(seq![a] + p, sep) == a + sep + joined(p, sep),
{
    assert(seq![a, b].drop_last() =~= seq![a]);
    assert(joined(seq![a], sep) == a);
    assert(p.push(b).drop_last() =~= p);
    if p.len() > 0 {
        lemma_joined_front(a, p, sep);
    }
}

/// Every line ends at its line feed, and a carriage return before that is dropped. What stands
/// behind the last line feed is a line unless it is empty.
pub proof fn every_line_feed_ends_a_line(a: Seq<char>, b: Seq<char>)
    requires
        !a.contains('\n'),
    ensures
        lines(Seq::empty()).len() == 0,
        a.len() > 0 ==> lines(a) == seq![a],
        a.len() == 0 || a.last() != '\r' ==> lines(a + seq!['\n'] + b) == seq![a] + lines(b),
        a.len() > 0 && a.last() == '\r' ==> lines(a + seq!['\n'] + b) == seq![a.drop_last()]
            + lines(b),
{
    let s = a + seq!['\n'] + b;
    assert forall|k: int| 0 <= k < a.len() implies !only('\n')(#[trigger] a[k]) by {
        assert(a.contains(a[k]));
    }
    assert forall|k: int| 0 <= k < a.len() implies !only('\n')(#[trigger] s[k]) by {
        assert(s[k] == a[k]);
    }
    lemma_index_where_is(a, only('\n'), a.len() as int);
    lemma_index_where_is(s, only('\n'), a.len() as int);
    assert(s.take(a.len() as int) =~= a);
    assert(s.skip(a.len() as int + 1) =~= b);
}

/// Words are what stands between spaces, however many those are.
pub proof fn spaces_part_words(a: Seq<char>, c: char, b: Seq<char>)
    requires
        is_space(c),
        a.len() > 0,
        forall|k: int| 0 <= k < a.len() ==> !is_space(#[trigger] a[k]),
    ensures
        words(Seq::empty()).len() == 0,
        words(seq![c] + b) == words(b),
        words(a) == seq![a],
        words(a + seq![c] + b) == seq![a] + words(b),
{
    let p = |x: char| is_space(x);
    let t = seq![c] + b;
    assert(t.skip(1) =~= b);
    assert(t[0] == c);
    assert(trim_start(t) == trim_start(b));
    lemma_words_after_space(c, b);
    assert(trim_start(a) == a);
    lemma_index_where_is(a, p, a.len() as int);
    assert(a.take(a.len() as int) =~= a);
    assert(a.skip(a.len() as int) =~= Seq::<char>::empty());
    assert(words(Seq::<char>::empty()) =~= Seq::<Seq<char>>::empty());
    assert(words(a) =~= seq![a] + words(a.skip(a.len() as int)));
    let s = a + seq![c] + b;
    assert(s[0] == a[0]);
    assert(trim_start(s) == s);
    assert forall|k: int| 0 <= k < a.len() implies !p(#[trigger] s[k]) by {
        assert(s[k] == a[k]);
    }
    assert(s[a.len() as int] == c);
    lemma_index_where_is(s, p, a.len() as int);
    assert(s.take(a.len() as int) =~= a);
    assert(s.skip(a.len() as int) =~= t);
}

proof fn lemma_words_after_space(c: char, b: Seq<char>)
    requires
        is_space(c),
    ensures
        words(seq![c] + b) == words(b),
{
    let t = seq![c] + b;
    assert(t.skip(1) =~= b);
    assert(t[0] == c);
    assert(trim_start(t) == trim_start(b));
    lemma_trim_start_end(b);
    lemma_trim_start_shrinks(b);
}

proof fn lemma_trim_start_shrinks(s: Seq<char>)
    ensures
        trim_start(s).len() <= s.len(),
    decreases s.len(),
{
    if s.len() > 0 && is_space(s[0]) {
        lemma_trim_start_shrinks(s.skip(1));
    }
}

/// Trimming takes the spaces off both ends, and nothing else.
pub proof fn only_outer_spaces_are_trimmed(x: Seq<char>, s: Seq<char>, y: Seq<char>)
    requires
        forall|k: int| 0 <= k < x.len() ==> is_space(#[trigger] x[k]),
        forall|k: int| 0 <= k < y.len() ==> is_space(#[trigger] y[k]),
        s.len() > 0 ==> !is_space(s[0]) && !is_space(s.last()),
    ensures
        trimmed(x + s + y) == s,
{
    lemma_leading(x, s + y);
    assert(x + (s + y) =~= x + s + y);
    if s.len() > 0 {
        assert((s + y)[0] == s[0]);
        assert(trim_start(s + y) == s + y);
        lemma_trailing(s, y);
    } else {
        assert(s + y =~= y);
        lemma_all_spaces(y);
        assert(s =~= Seq::<char>::empty());
    }
}

proof fn lemma_leading(x: Seq<char>, s: Seq<char>)
    requires
        forall|k: int| 0 <= k < x.len() ==> is_space(#[trigger] x[k]),
    ensures
        trim_start(x + s) == trim_start(s),
    decreases x.len(),
{
    if x.len() == 0 {
        assert(x + s =~= s);
    } else {
        assert((x + s)[0] == x[0]);
        assert((x + s).skip(1) =~= x.skip(1) + s);
        assert forall|k: int| 0 <= k < x.skip(1).len() implies is_space(#[trigger] x.skip(1)[k]) by {
            assert(x.skip(1)[k] == x[k + 1]);
        }
        lemma_leading(x.skip(1), s);
    }
}

proof fn lemma_trailing(s: Seq<char>, y: Seq<char>)
    requires
        s.len() > 0,
        !is_space(s.last()),
        forall|k: int| 0 <= k < y.len() ==> is_space(#[trigger] y[k]),
    ensures
        trim_end(s + y) == s,
    decreases y.len(),
{
    if y.len() == 0 {
        assert(s + y =~= s);
    } else {
        assert((s + y).last() == y.last());
        assert((s + y).drop_last() =~= s + y.drop_last());
        assert forall|k: int| 0 <= k < y.drop_last().len() implies is_space(
            #[trigger] y.drop_last()[k],
        ) by {
            assert(y.drop_last()[k] == y[k]);
        }
        lemma_trailing(s, y.drop_last());
    }
}

proof fn lemma_all_spaces(y: Seq<char>)
    requires
        forall|k: int| 0 <= k < y.len() ==> is_space(#[trigger] y[k]),
    ensures
        trimmed(y) == Seq::<char>::empty(),
    decreases y.len(),
{
    if y.len() > 0 {
        assert(is_space(y[0]));
        assert forall|k: int| 0 <= k < y.skip(1).len() implies is_space(#[trigger] y.skip(1)[k]) by {
            assert(y.skip(1)[k] == y[k + 1]);
        }
        lemma_all_spaces(y.skip(1));
    } else {
        assert(y =~= Seq::<char>::empty());
    }
}

/// A text has what stands anywhere in it; it begins with its beginning, and ends in its end.
pub proof fn what_stands_in_a_text_is_found(a: Seq<char>, pat: Seq<char>, b: Seq<char>)
    ensures
        has(a + pat + b, pat),
        stands_at(a + pat + b, pat, a.len() as int),
        after_prefix(pat + b, pat) == Some(b),
        ends_in(a + pat, pat),
{
    let s = a + pat + b;
    assert(s.subrange(a.len() as int, a.len() as int + pat.len()) =~= pat);
    assert(stands_at(s, pat, a.len() as int));
    let t = pat + b;
    assert(t.subrange(0, pat.len() as int) =~= pat);
    assert(t.skip(pat.len() as int) =~= b);
    let u = a + pat;
    assert(u.subrange(u.len() - pat.len(), u.len() as int) =~= pat);
}

/// A text that is found stands there: the text around it makes up the rest.
pub proof fn what_is_found_stands_in_the_text(s: Seq<char>, pat: Seq<char>)
    requires
        has(s, pat),
    ensures
        exists|a: Seq<char>, b: Seq<char>| s == #[trigger] (a + pat + b),
{
    let i = choose|i: int| stands_at(s, pat, i);
    let a = s.take(i);
    let b = s.skip(i + pat.len());
    assert(s =~= a + pat + b) by {
        assert(s.subrange(i, i + pat.len()) == pat);
        assert forall|k: int| i <= k < i + pat.len() implies s[k] == pat[k - i] by {
            assert(s.subrange(i, i + pat.len())[k - i] == s[k]);
        }
    }
}

/// Numbers are written in decimal digits: one digit more makes ten times as much and the digit.
/// A sign may stand before a number, and nothing else but digits belongs to one.
pub proof fn numbers_are_decimal(d: Seq<char>, c: char, max: nat)
    ensures
        digits_value(Seq::empty()) == 0,
        is_digit(c) == ('0' <= c && c <= '9'),
        is_digit(c) ==> digits_value(d.push(c)) == 10 * digits_value(d) + (c as int - '0' as int),
        unsigned_value(Seq::empty(), max) is None,
        d.len() > 0 && all_digits(d) && digits_value(d) <= max ==> unsigned_value(d, max) == Some(
            digits_value(d),
        ) && unsigned_value(seq!['+'] + d, max) == Some(digits_value(d)),
        all_digits(d) && digits_value(d) > max ==> unsigned_value(d, max) is None,
        d.len() > 0 && all_digits(d) && digits_value(d) <= 0x8000_0000_0000_0000
            ==> signed_value(seq!['-'] + d) == Some(-(digits_value(d) as int)),
        d.len() > 0 && all_digits(d) && digits_value(d) < 0x8000_0000_0000_0000 ==> signed_value(d)
            == Some(digits_value(d) as int),
        all_digits(d) && digits_value(d) > 0x8000_0000_0000_0000 ==> signed_value(seq!['-'] + d)
            is None,
        all_digits(d) && digits_value(d) >= 0x8000_0000_0000_0000 ==> signed_value(d) is None,
{
    assert(d.push(c).drop_last() =~= d);
    assert((seq!['+'] + d).skip(1) =~= d);
    assert((seq!['-'] + d).skip(1) =~= d);
    if d.len() > 0 && all_digits(d) {
        assert(is_digit(d[0]));
    }
}

/// A text with anything but digits behind its first character is no number.
pub proof fn no_number_has_other_characters(s: Seq<char>, i: int, max: nat)
    requires
        0 < i < s.len(),
        !('0' <= s[i] && s[i] <= '9'),
    ensures
        unsigned_value(s, max) is None,
        signed_value(s) is None,
{
    assert(s.skip(1)[i - 1] == s[i]);
    assert(!is_digit(s[i]));
    assert(!is_digit(s.skip(1)[i - 1]));
}

/// A number is written with its digits from the highest to the lowest, without leading zeros.
pub proof fn numbers_are_written_without_leading_zeros(n: nat)
    ensures
        n < 10 ==> decimal(n) == seq![('0' as int + n) as char],
        decimal(10 * n) == if n == 0 {
            seq!['0']
        } else {
            decimal(n).push('0')
        },
        decimal(n).len() > 0,
        n > 0 ==> decimal(n)[0] != '0',
    decreases n,
{
    lemma_decimal(n);
    if n >= 10 {
        numbers_are_written_without_leading_zeros(n / 10);
        lemma_decimal(n / 10);
        assert(decimal(n)[0] == decimal(n / 10)[0]);
    }
    assert((10 * n) / 10 == n && (10 * n) % 10 == 0);
}

} // verus!
