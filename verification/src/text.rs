//! Text primitives over sequences of characters: lines, words, fields and decimal numbers.

use vstd::prelude::*;
use vstd::string::*;

verus! {

broadcast use vstd::string::group_string_axioms;

/// The characters that separate words.
pub open spec fn is_space(c: char) -> bool {
    ||| '\u{9}' <= c <= '\u{d}'
    ||| c == '\u{20}'
    ||| c == '\u{85}'
    ||| c == '\u{a0}'
    ||| c == '\u{1680}'
    ||| '\u{2000}' <= c <= '\u{200a}'
    ||| c == '\u{2028}'
    ||| c == '\u{2029}'
    ||| c == '\u{202f}'
    ||| c == '\u{205f}'
    ||| c == '\u{3000}'
}

/// Tells whether `c` separates words.
pub fn is_space_char(c: char) -> (r: bool)
    ensures
        r == is_space(c),
{
    ('\u{9}' <= c && c <= '\u{d}') || c == '\u{20}' || c == '\u{85}' || c == '\u{a0}' || c
        == '\u{1680}' || ('\u{2000}' <= c && c <= '\u{200a}') || c == '\u{2028}' || c
        == '\u{2029}' || c == '\u{202f}' || c == '\u{205f}' || c == '\u{3000}'
}

/// The characters of a list of string slices.
pub open spec fn views(v: Seq<&str>) -> Seq<Seq<char>> {
    v.map_values(|x: &str| x@)
}

/// The characters of a list of strings.
pub open spec fn string_views(v: Seq<String>) -> Seq<Seq<char>> {
    v.map_values(|x: String| x@)
}

/// The characters of a string that may be missing.
pub open spec fn opt_view(v: Option<String>) -> Option<Seq<char>> {
    match v {
        Some(x) => Some(x@),
        None => None,
    }
}

/// Copies a string that may be missing.
pub fn opt_clone(v: &Option<String>) -> (r: Option<String>)
    ensures
        r == *v,
{
    match v {
        Some(x) => Some(x.clone()),
        None => None,
    }
}

/// Copies a list of strings.
pub fn list_clone(v: &Vec<String>) -> (r: Vec<String>)
    ensures
        r@ == v@,
{
    let mut r: Vec<String> = Vec::new();
    let mut i: usize = 0;
    while i < v.len()
        invariant
            i <= v.len(),
            r@ == v@.take(i as int),
        decreases v.len() - i,
    {
        r.push(v[i].clone());
        i += 1;
    }
    r
}

/// Collects the characters of `s`.
pub fn chars_of(s: &str) -> (r: Vec<char>)
    ensures
        r@ == s@,
{
    let mut r: Vec<char> = Vec::new();
    for c in it: s.chars()
        invariant
            it.seq() == s@,
            r@ == it.seq().take(it.index() as int),
    {
        r.push(c);
    }
    r
}

/// Compares two strings.
pub fn same(a: &str, b: &str) -> (r: bool)
    ensures
        r == (a@ == b@),
{
    let x = chars_of(a);
    let y = chars_of(b);
    same_chars(&x, &y)
}

fn same_chars(x: &Vec<char>, y: &Vec<char>) -> (r: bool)
    ensures
        r == (x@ == y@),
{
    if x.len() != y.len() {
        return false;
    }
    let mut i: usize = 0;
    while i < x.len()
        invariant
            x.len() == y.len(),
            i <= x.len(),
            forall|k: int| 0 <= k < i ==> x@[k] == y@[k],
        decreases x.len() - i,
    {
        if x[i] != y[i] {
            return false;
        }
        i += 1;
    }
    assert(x@ =~= y@);
    true
}

/// The predicate that holds of `sep` alone.
pub open spec fn only(sep: char) -> spec_fn(char) -> bool {
    |c: char| c == sep
}

/// The first position whose character satisfies `p`, or the length if there is none.
pub open spec fn index_where(s: Seq<char>, p: spec_fn(char) -> bool) -> int
    decreases s.len(),
{
    if s.len() == 0 || p(s[0]) {
        0
    } else {
        1 + index_where(s.skip(1), p)
    }
}

pub proof fn lemma_index_where(s: Seq<char>, p: spec_fn(char) -> bool)
    ensures
        0 <= index_where(s, p) <= s.len(),
        forall|k: int| 0 <= k < index_where(s, p) ==> !p(#[trigger] s[k]),
        index_where(s, p) < s.len() ==> p(s[index_where(s, p)]),
    decreases s.len(),
{
    if s.len() == 0 || p(s[0]) {
    } else {
        lemma_index_where(s.skip(1), p);
        assert forall|k: int| 0 <= k < index_where(s, p) implies !p(#[trigger] s[k]) by {
            if k > 0 {
                assert(s[k] == s.skip(1)[k - 1]);
            }
        }
    }
}

pub proof fn lemma_index_where_is(s: Seq<char>, p: spec_fn(char) -> bool, i: int)
    requires
        0 <= i <= s.len(),
        forall|k: int| 0 <= k < i ==> !p(#[trigger] s[k]),
        i < s.len() ==> p(s[i]),
    ensures
        index_where(s, p) == i,
{
    lemma_index_where(s, p);
    let j = index_where(s, p);
    if i < j {
        assert(!p(s[i]));
    }
    if j < i {
        assert(!p(s[j]));
    }
}

/// A line without the carriage return that its line feed follows.
pub open spec fn without_cr(s: Seq<char>) -> Seq<char> {
    if s.len() > 0 && s.last() == '\r' {
        s.drop_last()
    } else {
        s
    }
}

/// The lines of a text. A line feed, or a carriage return and a line feed, ends a line;
/// the last line need not be ended.
pub open spec fn lines(s: Seq<char>) -> Seq<Seq<char>>
    decreases s.len(),
{
    let i = index_where(s, only('\n'));
    if s.len() == 0 {
        Seq::empty()
    } else if i < 0 || i >= s.len() {
        seq![s]
    } else {
        seq![without_cr(s.take(i))] + lines(s.skip(i + 1))
    }
}

/// The pieces of a text between the characters `sep`; at least one.
pub open spec fn fields(s: Seq<char>, sep: char) -> Seq<Seq<char>>
    decreases s.len(),
{
    let i = index_where(s, only(sep));
    if i < 0 || i >= s.len() {
        seq![s]
    } else {
        seq![s.take(i)] + fields(s.skip(i + 1), sep)
    }
}

/// The maximal runs of characters that are no spaces.
pub open spec fn words(s: Seq<char>) -> Seq<Seq<char>>
    decreases s.len(),
{
    let t = trim_start(s);
    let k = index_where(t, |c: char| is_space(c));
    if t.len() == 0 || k <= 0 || t.len() > s.len() || k > t.len() {
        Seq::empty()
    } else {
        seq![t.take(k)] + words(t.skip(k))
    }
}

/// A text without its leading spaces.
pub open spec fn trim_start(s: Seq<char>) -> Seq<char>
    decreases s.len(),
{
    if s.len() > 0 && is_space(s[0]) {
        trim_start(s.skip(1))
    } else {
        s
    }
}

/// A text without its trailing spaces.
pub open spec fn trim_end(s: Seq<char>) -> Seq<char>
    decreases s.len(),
{
    if s.len() > 0 && is_space(s.last()) {
        trim_end(s.drop_last())
    } else {
        s
    }
}

/// A text without the spaces around it.
pub open spec fn trimmed(s: Seq<char>) -> Seq<char> {
    trim_end(trim_start(s))
}

proof fn lemma_trim_start_is(s: Seq<char>, i: int)
    requires
        0 <= i <= s.len(),
        forall|k: int| 0 <= k < i ==> is_space(#[trigger] s[k]),
        i < s.len() ==> !is_space(s[i]),
    ensures
        trim_start(s) == s.skip(i),
    decreases s.len(),
{
    if i > 0 {
        let t = s.skip(1);
        assert(is_space(s[0]));
        assert forall|k: int| 0 <= k < i - 1 implies is_space(#[trigger] t[k]) by {
            assert(t[k] == s[k + 1]);
        }
        lemma_trim_start_is(t, i - 1);
        assert(t.skip(i - 1) =~= s.skip(i));
    } else {
        assert(s.skip(0) =~= s);
    }
}

proof fn lemma_trim_end_is(s: Seq<char>, i: int)
    requires
        0 <= i <= s.len(),
        forall|k: int| i <= k < s.len() ==> is_space(#[trigger] s[k]),
        i > 0 ==> !is_space(s[i - 1]),
    ensures
        trim_end(s) == s.take(i),
    decreases s.len(),
{
    if i < s.len() {
        let t = s.drop_last();
        assert forall|k: int| i <= k < t.len() implies is_space(#[trigger] t[k]) by {
            assert(t[k] == s[k]);
        }
        lemma_trim_end_is(t, i);
        assert(t.take(i) =~= s.take(i));
    } else {
        assert(s.take(i) =~= s);
    }
}

/// A text that neither begins nor ends with a space has none around it.
pub proof fn lemma_trimmed_same(s: Seq<char>)
    requires
        s.len() > 0,
        !is_space(s[0]),
        !is_space(s.last()),
    ensures
        trimmed(s) == s,
{
}

/// Where a text without spaces at its ends follows, only the spaces before it all are removed.
pub proof fn lemma_trimmed_before(s: Seq<char>, t: Seq<char>)
    requires
        t.len() > 0,
        !is_space(t[0]),
        !is_space(t.last()),
    ensures
        trimmed(s + t) == trim_start(s) + t,
    decreases s.len(),
{
    if s.len() > 0 && is_space(s[0]) {
        assert((s + t).skip(1) =~= s.skip(1) + t);
        lemma_trimmed_before(s.skip(1), t);
    } else {
        assert((s + t)[0] == if s.len() > 0 {
            s[0]
        } else {
            t[0]
        });
        assert((s + t).last() == t.last());
    }
}

/// A text without its leading spaces is the end of the text.
pub proof fn lemma_trim_start_end(s: Seq<char>)
    ensures
        trim_start(s).len() <= s.len(),
        trim_start(s) == s.skip(s.len() - trim_start(s).len()),
    decreases s.len(),
{
    if s.len() > 0 && is_space(s[0]) {
        lemma_trim_start_end(s.skip(1));
        let n = trim_start(s).len();
        assert(s.skip(1).skip(s.skip(1).len() - n) =~= s.skip(s.len() - n));
    } else {
        assert(s.skip(0) =~= s);
    }
}

/// Removes the spaces around `s`.
pub fn trim<'a>(s: &'a str) -> (r: &'a str)
    ensures
        r@ == trimmed(s@),
{
    let cs = chars_of(s);
    let n: usize = cs.len();
    let mut i: usize = 0;
    while i < n && is_space_char(cs[i])
        invariant
            n == cs.len(),
            i <= n,
            forall|k: int| 0 <= k < i ==> is_space(#[trigger] cs@[k]),
        decreases n - i,
    {
        i += 1;
    }
    let mut j: usize = n;
    while j > i && is_space_char(cs[j - 1])
        invariant
            n == cs.len(),
            i <= j <= n,
            forall|k: int| j <= k < n ==> is_space(#[trigger] cs@[k]),
        decreases j,
    {
        j -= 1;
    }
    proof {
        lemma_trim_start_is(s@, i as int);
        let t = s@.skip(i as int);
        assert forall|k: int| j - i <= k < t.len() implies is_space(#[trigger] t[k]) by {
            assert(t[k] == s@[k + i]);
        }
        lemma_trim_end_is(t, j - i);
        assert(t.take(j - i) =~= s@.subrange(i as int, j as int));
    }
    s.substring_char(i, j)
}

/// The position of the first `sep` at or after `from`, or the length.
fn find_from(cs: &Vec<char>, from: usize, sep: char) -> (r: usize)
    requires
        from <= cs.len(),
    ensures
        from <= r <= cs.len(),
        r - from == index_where(cs@.skip(from as int), only(sep)),
{
    let mut i: usize = from;
    while i < cs.len() && cs[i] != sep
        invariant
            from <= i <= cs.len(),
            forall|k: int| from <= k < i ==> cs@[k] != sep,
        decreases cs.len() - i,
    {
        i += 1;
    }
    proof {
        let t = cs@.skip(from as int);
        let p = only(sep);
        assert forall|k: int| 0 <= k < i - from implies !p(#[trigger] t[k]) by {
            assert(t[k] == cs@[k + from]);
        }
        lemma_index_where_is(t, p, i - from);
    }
    i
}

/// Splits `s` into its lines.
pub fn split_lines<'a>(s: &'a str) -> (r: Vec<&'a str>)
    ensures
        views(r@) == lines(s@),
{
    let cs = chars_of(s);
    let n: usize = cs.len();
    let mut r: Vec<&'a str> = Vec::new();
    let mut from: usize = 0;
    assert(s@.skip(0) =~= s@);
    assert(views(r@) + lines(s@) =~= lines(s@));
    while from < n
        invariant
            n == cs.len(),
            cs@ == s@,
            from <= n,
            views(r@) + lines(s@.skip(from as int)) == lines(s@),
        decreases n - from,
    {
        let ghost before = r@;
        let ghost rest = s@.skip(from as int);
        let j = find_from(&cs, from, '\n');
        if j == n {
            r.push(s.substring_char(from, n));
            proof {
                assert(s@.subrange(from as int, n as int) =~= rest);
                assert(views(r@) =~= views(before).push(rest));
                assert(lines(rest) =~= seq![rest]);
                assert(s@.skip(n as int) =~= Seq::<char>::empty());
                assert(lines(s@.skip(n as int)) =~= Seq::<Seq<char>>::empty());
                assert(views(r@) + lines(s@.skip(n as int)) =~= views(before) + lines(rest));
            }
            from = n;
        } else {
            let mut end: usize = j;
            if end > from && cs[end - 1] == '\r' {
                end -= 1;
            }
            r.push(s.substring_char(from, end));
            proof {
                let line = rest.take(j - from);
                assert(without_cr(line) =~= s@.subrange(from as int, end as int));
                assert(views(r@) =~= views(before).push(without_cr(line)));
                assert(rest.skip(j - from + 1) =~= s@.skip(j + 1));
                assert(lines(rest) == seq![without_cr(line)] + lines(s@.skip(j + 1)));
                assert(views(r@) + lines(s@.skip(j + 1)) =~= views(before) + lines(rest));
            }
            from = j + 1;
        }
    }
    proof {
        assert(s@.skip(from as int) =~= Seq::<char>::empty());
        assert(views(r@) + lines(s@.skip(from as int)) =~= views(r@));
    }
    r
}

/// Splits `s` at every `sep`.
pub fn split_fields<'a>(s: &'a str, sep: char) -> (r: Vec<&'a str>)
    ensures
        views(r@) == fields(s@, sep),
        r@.len() > 0,
{
    let cs = chars_of(s);
    let n: usize = cs.len();
    let mut r: Vec<&'a str> = Vec::new();
    let mut from: usize = 0;
    assert(s@.skip(0) =~= s@);
    assert(views(r@) + fields(s@, sep) =~= fields(s@, sep));
    loop
        invariant
            n == cs.len(),
            cs@ == s@,
            from <= n,
            views(r@) + fields(s@.skip(from as int), sep) == fields(s@, sep),
        decreases n - from,
    {
        let ghost before = r@;
        let ghost rest = s@.skip(from as int);
        let j = find_from(&cs, from, sep);
        r.push(s.substring_char(from, j));
        if j == n {
            proof {
                assert(s@.subrange(from as int, n as int) =~= rest);
                assert(views(r@) =~= views(before).push(rest));
                assert(fields(rest, sep) =~= seq![rest]);
                assert(views(r@) =~= views(before) + fields(rest, sep));
            }
            return r;
        }
        proof {
            let piece = rest.take(j - from);
            assert(piece =~= s@.subrange(from as int, j as int));
            assert(views(r@) =~= views(before).push(piece));
            assert(rest.skip(j - from + 1) =~= s@.skip(j + 1));
            assert(fields(rest, sep) == seq![piece] + fields(s@.skip(j + 1), sep));
            assert(views(r@) + fields(s@.skip(j + 1), sep) =~= views(before) + fields(rest, sep));
        }
        from = j + 1;
    }
}

/// Splits `s` into its words.
pub fn split_words<'a>(s: &'a str) -> (r: Vec<&'a str>)
    ensures
        views(r@) == words(s@),
{
    let cs = chars_of(s);
    let n: usize = cs.len();
    let mut r: Vec<&'a str> = Vec::new();
    let mut from: usize = 0;
    assert(s@.skip(0) =~= s@);
    assert(views(r@) + words(s@) =~= words(s@));
    loop
        invariant
            n == cs.len(),
            cs@ == s@,
            from <= n,
            views(r@) + words(s@.skip(from as int)) == words(s@),
        decreases n - from,
    {
        let ghost before = r@;
        let ghost rest = s@.skip(from as int);
        let mut i: usize = from;
        while i < n && is_space_char(cs[i])
            invariant
                n == cs.len(),
                from <= i <= n,
                forall|k: int| from <= k < i ==> is_space(#[trigger] cs@[k]),
            decreases n - i,
        {
            i += 1;
        }
        proof {
            assert forall|k: int| 0 <= k < i - from implies is_space(#[trigger] rest[k]) by {
                assert(rest[k] == cs@[k + from]);
            }
            lemma_trim_start_is(rest, i - from);
            assert(rest.skip(i - from) =~= s@.skip(i as int));
        }
        if i == n {
            assert(words(rest) =~= Seq::<Seq<char>>::empty());
            assert(views(r@) + words(rest) =~= views(r@));
            return r;
        }
        let mut j: usize = i;
        while j < n && !is_space_char(cs[j])
            invariant
                n == cs.len(),
                i <= j <= n,
                forall|k: int| i <= k < j ==> !is_space(#[trigger] cs@[k]),
            decreases n - j,
        {
            j += 1;
        }
        r.push(s.substring_char(i, j));
        proof {
            let t = s@.skip(i as int);
            let p = |c: char| is_space(c);
            assert forall|k: int| 0 <= k < j - i implies !p(#[trigger] t[k]) by {
                assert(t[k] == cs@[k + i]);
            }
            lemma_index_where_is(t, p, j - i);
            assert(t.take(j - i) =~= s@.subrange(i as int, j as int));
            assert(t.skip(j - i) =~= s@.skip(j as int));
            assert(!is_space(cs@[i as int]));
            assert(words(rest) == seq![t.take(j - i)] + words(s@.skip(j as int)));
            assert(views(r@) =~= views(before).push(t.take(j - i)));
            assert(views(r@) + words(s@.skip(j as int)) =~= views(before) + words(rest));
        }
        from = j;
    }
}

/// Whether `pat` stands in `s` at position `i`.
pub open spec fn stands_at(s: Seq<char>, pat: Seq<char>, i: int) -> bool {
    &&& 0 <= i
    &&& i + pat.len() <= s.len()
    &&& s.subrange(i, i + pat.len()) == pat
}

/// Whether `pat` occurs in `s`.
pub open spec fn has(s: Seq<char>, pat: Seq<char>) -> bool {
    exists|i: int| stands_at(s, pat, i)
}

fn stands_at_chars(cs: &Vec<char>, pat: &Vec<char>, i: usize) -> (r: bool)
    requires
        i + pat.len() <= cs.len(),
    ensures
        r == stands_at(cs@, pat@, i as int),
{
    let mut k: usize = 0;
    while k < pat.len()
        invariant
            k <= pat.len(),
            i + pat.len() <= cs.len(),
            forall|j: int| 0 <= j < k ==> cs@[i + j] == pat@[j],
        decreases pat.len() - k,
    {
        if cs[i + k] != pat[k] {
            assert(cs@.subrange(i as int, i + pat.len())[k as int] != pat@[k as int]);
            return false;
        }
        k += 1;
    }
    assert(cs@.subrange(i as int, i + pat.len()) =~= pat@);
    true
}

/// Tells whether `pat` occurs in `s`.
pub fn contains(s: &str, pat: &str) -> (r: bool)
    ensures
        r == has(s@, pat@),
{
    let cs = chars_of(s);
    let ps = chars_of(pat);
    if ps.len() > cs.len() {
        assert forall|i: int| !stands_at(s@, pat@, i) by {}
        return false;
    }
    let last: usize = cs.len() - ps.len();
    let mut i: usize = 0;
    while i <= last
        invariant
            last == cs.len() - ps.len(),
            i <= last + 1,
            cs@ == s@,
            ps@ == pat@,
            forall|k: int| 0 <= k < i ==> !stands_at(s@, pat@, k),
        decreases last + 1 - i,
    {
        if stands_at_chars(&cs, &ps, i) {
            return true;
        }
        if i == last {
            assert forall|k: int| !stands_at(s@, pat@, k) by {}
            return false;
        }
        i += 1;
    }
    false
}

/// Tells whether `s` begins with `pat`.
pub fn starts_with(s: &str, pat: &str) -> (r: bool)
    ensures
        r == stands_at(s@, pat@, 0),
{
    let cs = chars_of(s);
    let ps = chars_of(pat);
    ps.len() <= cs.len() && stands_at_chars(&cs, &ps, 0)
}

/// Whether `s` ends with `pat`.
pub open spec fn ends_in(s: Seq<char>, pat: Seq<char>) -> bool {
    stands_at(s, pat, s.len() - pat.len())
}

/// Tells whether `s` ends with `pat`.
pub fn ends_with(s: &str, pat: &str) -> (r: bool)
    ensures
        r == ends_in(s@, pat@),
{
    let cs = chars_of(s);
    let ps = chars_of(pat);
    ps.len() <= cs.len() && stands_at_chars(&cs, &ps, cs.len() - ps.len())
}

/// The part of `s` from position `from` on.
pub fn tail<'a>(s: &'a str, from: usize) -> (r: &'a str)
    requires
        from <= s@.len(),
    ensures
        r@ == s@.skip(from as int),
{
    let n: usize = s.unicode_len();
    let r = s.substring_char(from, n);
    assert(r@ =~= s@.skip(from as int));
    r
}

/// What follows `pat` in `s`, if `s` begins with it.
pub open spec fn after_prefix(s: Seq<char>, pat: Seq<char>) -> Option<Seq<char>> {
    if stands_at(s, pat, 0) {
        Some(s.skip(pat.len() as int))
    } else {
        None
    }
}

/// Removes the prefix `pat`, if `s` begins with it.
pub fn strip_prefix<'a>(s: &'a str, pat: &str) -> (r: Option<&'a str>)
    ensures
        r is Some == after_prefix(s@, pat@) is Some,
        r matches Some(t) ==> Some(t@) == after_prefix(s@, pat@),
{
    if starts_with(s, pat) {
        let n: usize = pat.unicode_len();
        Some(tail(s, n))
    } else {
        None
    }
}

/// The text before the first `sep` and the text after it.
pub open spec fn parted(s: Seq<char>, sep: char) -> Option<(Seq<char>, Seq<char>)> {
    let i = index_where(s, only(sep));
    if i < s.len() {
        Some((s.take(i), s.skip(i + 1)))
    } else {
        None
    }
}

/// Parts `s` at its first `sep`.
pub fn split_once<'a>(s: &'a str, sep: char) -> (r: Option<(&'a str, &'a str)>)
    ensures
        r is Some == parted(s@, sep) is Some,
        r matches Some((a, b)) ==> Some((a@, b@)) == parted(s@, sep),
{
    let cs = chars_of(s);
    assert(cs@.skip(0) =~= s@);
    let i = find_from(&cs, 0, sep);
    if i < cs.len() {
        let a = s.substring_char(0, i);
        let b = tail(s, i + 1);
        assert(a@ =~= s@.take(i as int));
        Some((a, b))
    } else {
        None
    }
}

/// The texts of a list, with `sep` between them.
pub open spec fn joined(parts: Seq<Seq<char>>, sep: Seq<char>) -> Seq<char>
    decreases parts.len(),
{
    if parts.len() == 0 {
        Seq::empty()
    } else if parts.len() == 1 {
        parts[0]
    } else {
        joined(parts.drop_last(), sep) + sep + parts.last()
    }
}

/// Joins `parts[from..]` with `sep` between them.
pub fn join_from(parts: &Vec<&str>, from: usize, sep: &str) -> (r: String)
    requires
        from <= parts@.len(),
    ensures
        r@ == joined(views(parts@).skip(from as int), sep@),
{
    let mut r: String = String::new();
    let ghost all = views(parts@).skip(from as int);
    let mut i: usize = from;
    assert(all.take(0) =~= Seq::<Seq<char>>::empty());
    while i < parts.len()
        invariant
            from <= i <= parts.len(),
            all == views(parts@).skip(from as int),
            r@ == joined(all.take(i - from), sep@),
        decreases parts.len() - i,
    {
        let ghost before = r@;
        if i > from {
            r.append(sep);
        }
        r.append(parts[i]);
        proof {
            let t = all.take(i - from + 1);
            assert(t.drop_last() =~= all.take(i - from));
            assert(t.last() == parts@[i as int]@);
            if i == from {
                assert(r@ =~= t[0]);
            } else {
                assert(r@ =~= joined(t.drop_last(), sep@) + sep@ + t.last());
            }
        }
        i += 1;
    }
    assert(all.take(i - from) =~= all);
    r
}

/// Joins `parts` with `sep` between them.
pub fn join_strings(parts: &Vec<String>, sep: &str) -> (r: String)
    ensures
        r@ == joined(string_views(parts@), sep@),
{
    let mut r: String = String::new();
    let ghost all = string_views(parts@);
    let mut i: usize = 0;
    assert(all.take(0) =~= Seq::<Seq<char>>::empty());
    while i < parts.len()
        invariant
            0 <= i <= parts.len(),
            all == string_views(parts@),
            r@ == joined(all.take(i as int), sep@),
        decreases parts.len() - i,
    {
        if i > 0 {
            r.append(sep);
        }
        r.append(parts[i].as_str());
        proof {
            let t = all.take(i + 1);
            assert(t.drop_last() =~= all.take(i as int));
            assert(t.last() == parts@[i as int]@);
            if i == 0 {
                assert(r@ =~= t[0]);
            } else {
                assert(r@ =~= joined(t.drop_last(), sep@) + sep@ + t.last());
            }
        }
        i += 1;
    }
    assert(all.take(i as int) =~= all);
    r
}

/// Tells whether `x` stands in a list.
pub fn list_contains(list: &Vec<String>, x: &str) -> (r: bool)
    ensures
        r == string_views(list@).contains(x@),
{
    let mut i: usize = 0;
    while i < list.len()
        invariant
            i <= list@.len(),
            forall|k: int| 0 <= k < i ==> (#[trigger] list@[k])@ != x@,
        decreases list@.len() - i,
    {
        if same(list[i].as_str(), x) {
            assert(string_views(list@)[i as int] == x@);
            return true;
        }
        i += 1;
    }
    proof {
        if string_views(list@).contains(x@) {
            let k = choose|k: int|
                0 <= k < string_views(list@).len() && string_views(list@)[k] == x@;
            assert(list@[k]@ == x@);
        }
    }
    false
}

} // verus!
