//! Usage of the filesystem.

use vstd::prelude::*;
use vstd::string::*;

use crate::number::is_digit;
use crate::numeral::{ascii_lower, ascii_lowered, is_ascii, numeral, scale_text, scaled};
use crate::ops::commands::{btrfs_call, CommandLine};
use crate::protocol::clock::now_millis;
use crate::text::{
    contains, ends_in, ends_with, has, is_space, lemma_trim_start_end, lemma_trimmed_before,
    lemma_trimmed_same, lines, parted, same, split_lines, split_once, split_words, trim,
    trim_start, trimmed, views, words,
};

verus! {

broadcast use vstd::string::group_string_axioms;

/// A text that is not all ASCII, in lower case.
pub uninterp spec fn lowercase(s: Seq<char>) -> Seq<char>;

/// `str::to_lowercase` of the standard library. In a text of ASCII the letters map to their lower
/// case and all else stays; of other texts only that the result depends on the text alone.
#[verifier::external_body]
pub(crate) fn to_lowercase(s: &str) -> (r: String)
    ensures
        r@ == (if is_ascii(s@) {
            ascii_lowered(s@)
        } else {
            lowercase(s@)
        }),
{
    s.to_lowercase()
}

/// A text in lower case: letter by letter where all of it is ASCII.
pub open spec fn lowered(s: Seq<char>) -> Seq<char> {
    if is_ascii(s) {
        ascii_lowered(s)
    } else {
        lowercase(s)
    }
}

/// A text without the suffix `pat`, however often it stands at the end.
pub open spec fn without_suffix(s: Seq<char>, pat: Seq<char>) -> Seq<char>
    decreases s.len(),
{
    if pat.len() > 0 && ends_in(s, pat) {
        without_suffix(s.take(s.len() - pat.len()), pat)
    } else {
        s
    }
}

/// Removes the suffix `pat`, however often it stands at the end.
pub fn strip_suffix<'a>(s: &'a str, pat: &str) -> (r: &'a str)
    ensures
        r@ == without_suffix(s@, pat@),
{
    let n: usize = pat.unicode_len();
    if n == 0 {
        return s;
    }
    let mut r = s;
    while ends_with(r, pat)
        invariant
            n == pat@.len(),
            n > 0,
            without_suffix(r@, pat@) == without_suffix(s@, pat@),
        decreases r@.len(),
    {
        let len: usize = r.unicode_len();
        let t = r.substring_char(0, len - n);
        assert(t@ =~= r@.take(r@.len() - n));
        r = t;
    }
    r
}

/// The size that `s` stands for in units of two suffixes, each of which may be repeated.
pub open spec fn in_unit(s: Seq<char>, long: Seq<char>, short: Seq<char>, k: nat) -> u64 {
    scaled(trimmed(without_suffix(without_suffix(s, long), short)), k)
}

/// The size in bytes that a text in lower case stands for: a number and a unit of 1024 bytes or
/// more. A size without such a unit counts as zero.
pub open spec fn lower_size(s: Seq<char>) -> u64 {
    if ends_in(s, "tib"@) || ends_in(s, "tb"@) {
        in_unit(s, "tib"@, "tb"@, 40)
    } else if ends_in(s, "gib"@) || ends_in(s, "gb"@) {
        in_unit(s, "gib"@, "gb"@, 30)
    } else if ends_in(s, "mib"@) || ends_in(s, "mb"@) {
        in_unit(s, "mib"@, "mb"@, 20)
    } else if ends_in(s, "kib"@) || ends_in(s, "kb"@) {
        in_unit(s, "kib"@, "kb"@, 10)
    } else {
        0
    }
}

/// The size in bytes that a text stands for, such as `10.00GiB`, whatever the case of the unit.
pub open spec fn size_value(s: Seq<char>) -> u64 {
    lower_size(lowered(trimmed(s)))
}

fn scale_unit(s: &str, long: &str, short: &str, k: usize) -> (r: u64)
    requires
        k <= 40,
    ensures
        r == in_unit(s@, long@, short@, k as nat),
{
    scale_text(trim(strip_suffix(strip_suffix(s, long), short)), k)
}

/// Reads a size that is written in lower case.
pub fn parse_lower_size(s: &str) -> (r: u64)
    ensures
        r == lower_size(s@),
{
    if ends_with(s, "tib") || ends_with(s, "tb") {
        scale_unit(s, "tib", "tb", 40)
    } else if ends_with(s, "gib") || ends_with(s, "gb") {
        scale_unit(s, "gib", "gb", 30)
    } else if ends_with(s, "mib") || ends_with(s, "mb") {
        scale_unit(s, "mib", "mb", 20)
    } else if ends_with(s, "kib") || ends_with(s, "kb") {
        scale_unit(s, "kib", "kb", 10)
    } else {
        0
    }
}

/// Reads a size such as `10.00GiB`.
pub fn parse_size_value(s: &str) -> (r: u64)
    ensures
        r == size_value(s@),
{
    let text = to_lowercase(trim(s));
    parse_lower_size(text.as_str())
}

/// Whether the two suffixes stand for the unit of `2^k` bytes.
pub open spec fn size_unit(long: Seq<char>, short: Seq<char>, k: nat) -> bool {
    ||| long == "tib"@ && short == "tb"@ && k == 40
    ||| long == "gib"@ && short == "gb"@ && k == 30
    ||| long == "mib"@ && short == "mb"@ && k == 20
    ||| long == "kib"@ && short == "kb"@ && k == 10
}

/// Whether `s` ends in the suffix of a unit.
pub open spec fn ends_in_unit(s: Seq<char>) -> bool {
    ||| ends_in(s, "tib"@) || ends_in(s, "tb"@)
    ||| ends_in(s, "gib"@) || ends_in(s, "gb"@)
    ||| ends_in(s, "mib"@) || ends_in(s, "mb"@)
    ||| ends_in(s, "kib"@) || ends_in(s, "kb"@)
}

/// Whether `s` is made of digits and points.
pub open spec fn digits_and_points(s: Seq<char>) -> bool {
    forall|i: int| 0 <= i < s.len() ==> is_digit(#[trigger] s[i]) || s[i] == '.'
}

/// Whatever stands before a unit, in lower case and without the spaces at its front.
spec fn front(d: Seq<char>) -> Seq<char> {
    ascii_lowered(trim_start(d))
}

proof fn lemma_size_in_unit(
    d: Seq<char>,
    u: Seq<char>,
    long: Seq<char>,
    short: Seq<char>,
    k: nat,
)
    requires
        is_ascii(d),
        size_unit(long, short, k),
        ascii_lowered(u) == long || ascii_lowered(u) == short,
        !ends_in(ascii_lowered(d), long),
    ensures
        size_value(d + u) == scaled(trimmed(without_suffix(front(d), short)), k),
{
    let w = ascii_lowered(u);
    lemma_suffixes(front(d) + w);
    assert forall|i: int| 0 <= i < u.len() implies (#[trigger] u[i] as int) < 128 && !is_space(
        u[i],
    ) by {
        assert(w[i] == ascii_lower(u[i]));
    }
    lemma_trimmed_before(d, u);
    lemma_trim_start_end(d);
    let t = trim_start(d);
    let s = t + u;
    assert(is_ascii(s));
    let f = front(d);
    assert(ascii_lowered(s) =~= f + w);
    assert(!ends_in(f, long)) by {
        let m = d.len() - t.len();
        assert(ascii_lowered(d).skip(m) =~= f);
        if ends_in(f, long) {
            assert(ascii_lowered(d).subrange(d.len() - long.len(), d.len() as int) =~= f.subrange(
                f.len() - long.len(),
                f.len() as int,
            ));
        }
    }
    lemma_lower_size_in_unit(f, w, long, short, k);
}

proof fn lemma_lower_size_in_unit(
    f: Seq<char>,
    w: Seq<char>,
    long: Seq<char>,
    short: Seq<char>,
    k: nat,
)
    requires
        size_unit(long, short, k),
        w == long || w == short,
        !ends_in(f, long),
    ensures
        lower_size(f + w) == scaled(trimmed(without_suffix(f, short)), k),
{
    let z = f + w;
    let n = z.len() as int;
    lemma_suffixes(z);
    lemma_without_suffix_once(f, short);
    lemma_without_suffix_once(f, long);
    assert(z[n - 1] == w[w.len() - 1] && z[n - 2] == w[w.len() - 2]);
    if w == long {
        assert(z[n - 3] == w[0]);
        assert(without_suffix(z, long) == f);
    } else {
        assert(without_suffix(z, long) == z);
        assert(without_suffix(z, short) == without_suffix(f, short));
    }
}

proof fn lemma_without_suffix_once(s: Seq<char>, pat: Seq<char>)
    requires
        pat.len() > 0,
    ensures
        without_suffix(s + pat, pat) == without_suffix(s, pat),
{
    let z = s + pat;
    assert(z.subrange(z.len() - pat.len(), z.len() as int) =~= pat);
    assert(z.take(z.len() - pat.len()) =~= s);
}

/// The suffixes of the units differ in their last three letters.
proof fn lemma_suffixes(s: Seq<char>)
    ensures
        ({
            let n = s.len() as int;
            let b = n >= 2 && s[n - 1] == 'b';
            let ib = n >= 3 && s[n - 2] == 'i' && b;
            &&& ends_in(s, "tib"@) == (ib && s[n - 3] == 't')
            &&& ends_in(s, "gib"@) == (ib && s[n - 3] == 'g')
            &&& ends_in(s, "mib"@) == (ib && s[n - 3] == 'm')
            &&& ends_in(s, "kib"@) == (ib && s[n - 3] == 'k')
            &&& ends_in(s, "tb"@) == (b && s[n - 2] == 't')
            &&& ends_in(s, "gb"@) == (b && s[n - 2] == 'g')
            &&& ends_in(s, "mb"@) == (b && s[n - 2] == 'm')
            &&& ends_in(s, "kb"@) == (b && s[n - 2] == 'k')
        }),
        "tib"@ == seq!['t', 'i', 'b'] && "tb"@ == seq!['t', 'b'],
        "gib"@ == seq!['g', 'i', 'b'] && "gb"@ == seq!['g', 'b'],
        "mib"@ == seq!['m', 'i', 'b'] && "mb"@ == seq!['m', 'b'],
        "kib"@ == seq!['k', 'i', 'b'] && "kb"@ == seq!['k', 'b'],
{
    reveal_strlit("tib");
    reveal_strlit("tb");
    reveal_strlit("gib");
    reveal_strlit("gb");
    reveal_strlit("mib");
    reveal_strlit("mb");
    reveal_strlit("kib");
    reveal_strlit("kb");
    let n = s.len() as int;
    if n >= 2 {
        let e = s.subrange(n - 2, n);
        assert(e =~= seq![s[n - 2], s[n - 1]]);
        assert(e[0] == s[n - 2] && e[1] == s[n - 1]);
        assert("tb"@ =~= seq!['t', 'b'] && "gb"@ =~= seq!['g', 'b']);
        assert("mb"@ =~= seq!['m', 'b'] && "kb"@ =~= seq!['k', 'b']);
    }
    if n >= 3 {
        let e = s.subrange(n - 3, n);
        assert(e =~= seq![s[n - 3], s[n - 2], s[n - 1]]);
        assert(e[0] == s[n - 3] && e[1] == s[n - 2] && e[2] == s[n - 1]);
        assert("tib"@ =~= seq!['t', 'i', 'b'] && "gib"@ =~= seq!['g', 'i', 'b']);
        assert("mib"@ =~= seq!['m', 'i', 'b'] && "kib"@ =~= seq!['k', 'i', 'b']);
    }
}

/// The two suffixes of a unit scale alike behind every text that does not itself end in the longer
/// one, once the spaces around are gone and the letters are in lower case.
pub proof fn suffixes_scale_alike(d: Seq<char>, long: Seq<char>, short: Seq<char>, k: nat)
    requires
        size_unit(long, short, k),
        !ends_in(d, long),
    ensures
        lower_size(d + long) == lower_size(d + short),
        forall|s: Seq<char>, t: Seq<char>|
            lowered(trimmed(s)) == d + long && lowered(trimmed(t)) == d + short ==> #[trigger]
                size_value(s) == #[trigger] size_value(t),
{
    lemma_lower_size_in_unit(d, long, long, short, k);
    lemma_lower_size_in_unit(d, short, long, short, k);
}

/// The two suffixes of a unit scale alike in whatever case they are written, as in `1.5GB`,
/// `1.5GiB` and `1.5gib`. What stands before the suffix is ASCII and does not itself end in the
/// longer one.
pub proof fn cases_of_suffixes_scale_alike(
    d: Seq<char>,
    u: Seq<char>,
    v: Seq<char>,
    long: Seq<char>,
    short: Seq<char>,
    k: nat,
)
    requires
        is_ascii(d),
        size_unit(long, short, k),
        ascii_lowered(u) == long || ascii_lowered(u) == short,
        ascii_lowered(v) == long || ascii_lowered(v) == short,
        !ends_in(ascii_lowered(d), long),
    ensures
        size_value(d + u) == size_value(d + v),
{
    lemma_size_in_unit(d, u, long, short, k);
    lemma_size_in_unit(d, v, long, short, k);
}

/// A number made of digits and a point, with a suffix behind it, is that number times the unit's
/// power of 1024.
pub proof fn suffix_gives_the_power(
    d: Seq<char>,
    u: Seq<char>,
    long: Seq<char>,
    short: Seq<char>,
    k: nat,
)
    requires
        digits_and_points(d),
        size_unit(long, short, k),
        ascii_lowered(u) == long || ascii_lowered(u) == short,
    ensures
        size_value(d + u) == scaled(d, k),
{
    assert(ascii_lowered(d) =~= d);
    lemma_suffixes(d);
    lemma_size_in_unit(d, u, long, short, k);
    if d.len() > 0 {
        assert(!is_space(d[0]) && !is_space(d.last()));
        lemma_trimmed_same(d);
    }
}

/// A text that ends in no unit's suffix, once the spaces around it are gone, is of size zero, and
/// so is one in which no number stands before the suffix.
pub proof fn no_size_without_unit_and_number(s: Seq<char>, long: Seq<char>, short: Seq<char>, k: nat)
    requires
        size_unit(long, short, k),
    ensures
        !ends_in_unit(lowered(trimmed(s))) ==> size_value(s) == 0,
        ({
            let t = lowered(trimmed(s));
            &&& ends_in(t, long) || ends_in(t, short)
            &&& numeral(trimmed(without_suffix(without_suffix(t, long), short))) is None
        }) ==> size_value(s) == 0,
{
    let t = lowered(trimmed(s));
    lemma_suffixes(t);
}

/// Neither the spaces around a text nor the case of its letters count for its size.
pub proof fn spaces_and_case_do_not_count(s: Seq<char>, t: Seq<char>)
    requires
        lowered(trimmed(s)) == lowered(trimmed(t)),
    ensures
        size_value(s) == size_value(t),
{
}

/// The size behind the first word `size` that another word follows, in a list of words.
pub open spec fn size_in_words(w: Seq<Seq<char>>) -> u64
    decreases w.len(),
{
    if w.len() < 2 {
        0
    } else if w[0] == "size"@ {
        size_value(w[1])
    } else {
        size_in_words(w.skip(1))
    }
}

/// Reads the size in a line such as `Data: size 10.00GiB`.
pub fn parse_size_from_line(line: &str) -> (r: u64)
    ensures
        r == size_in_words(words(line@)),
{
    let parts = split_words(line);
    let ghost w = words(line@);
    let mut i: usize = 0;
    assert(w.skip(0) =~= w);
    while i < parts.len()
        invariant
            i <= parts@.len(),
            views(parts@) == w,
            w == words(line@),
            size_in_words(w.skip(i as int)) == size_in_words(w),
        decreases parts@.len() - i,
    {
        assert(views(parts@)[i as int] == parts@[i as int]@);
        if i + 1 < parts.len() && same(parts[i], "size") {
            assert(views(parts@)[i + 1] == parts@[i + 1]@);
            assert(w.skip(i as int)[0] == w[i as int] && w.skip(i as int)[1] == w[i + 1]);
            return parse_size_value(parts[i + 1]);
        }
        assert(w.skip(i as int).skip(1) =~= w.skip(i + 1));
        i += 1;
    }
    0
}

/// What the overview of a filesystem's usage says.
#[derive(Debug, Clone, Copy, PartialEq, Eq, Structural)]
pub struct UsageFigures {
    pub total: u64,
    pub used: u64,
    pub data_size: u64,
    pub metadata_size: u64,
    pub system_size: u64,
}

/// Filesystem usage information.
#[derive(Debug, Clone, Copy, PartialEq, Eq, Structural)]
pub struct FilesystemUsage {
    pub total: u64,
    pub used: u64,
    pub free: u64,
    pub data_size: u64,
    pub metadata_size: u64,
    pub system_size: u64,
    pub device_count: u32,
}

/// The size behind the first word that is `name` or `label` and that another word follows, or
/// `default` where there is none.
pub open spec fn size_behind(
    w: Seq<Seq<char>>,
    name: Seq<char>,
    label: Seq<char>,
    default: u64,
) -> u64
    decreases w.len(),
{
    if w.len() < 2 {
        default
    } else if w[0] == name || w[0] == label {
        size_value(w[1])
    } else {
        size_behind(w.skip(1), name, label, default)
    }
}

/// Reads the size behind the first word that is `name` or `label`.
fn read_size_behind(parts: &Vec<&str>, name: &str, label: &str, default: u64) -> (r: u64)
    ensures
        r == size_behind(views(parts@), name@, label@, default),
{
    let ghost w = views(parts@);
    let mut i: usize = 0;
    assert(w.skip(0) =~= w);
    while i < parts.len()
        invariant
            i <= parts@.len(),
            views(parts@) == w,
            size_behind(w.skip(i as int), name@, label@, default) == size_behind(
                w,
                name@,
                label@,
                default,
            ),
        decreases parts@.len() - i,
    {
        assert(w[i as int] == parts@[i as int]@);
        if i + 1 < parts.len() && (same(parts[i], name) || same(parts[i], label)) {
            assert(w[i + 1] == parts@[i + 1]@);
            assert(w.skip(i as int)[0] == w[i as int] && w.skip(i as int)[1] == w[i + 1]);
            return parse_size_value(parts[i + 1]);
        }
        assert(w.skip(i as int).skip(1) =~= w.skip(i + 1));
        i += 1;
    }
    default
}

/// The figures after one more line. In a line with `Overall:`, behind the first colon, the word
/// behind `size` gives the total and the word behind `used` the used size, and either name may
/// end in a colon; lines with `Data:`, `Metadata:` and `System:` give the sizes of these.
pub open spec fn figures_after(f: UsageFigures, raw: Seq<char>) -> UsageFigures {
    let line = trimmed(raw);
    let f1 = if has(line, "Overall:"@) {
        match parted(line, ':') {
            Some((_, value)) => UsageFigures {
                total: size_behind(words(value), "size"@, "size:"@, f.total),
                used: size_behind(words(value), "used"@, "used:"@, f.used),
                ..f
            },
            None => f,
        }
    } else {
        f
    };
    UsageFigures {
        data_size: if has(line, "Data:"@) {
            size_in_words(words(line))
        } else {
            f1.data_size
        },
        metadata_size: if has(line, "Metadata:"@) {
            size_in_words(words(line))
        } else {
            f1.metadata_size
        },
        system_size: if has(line, "System:"@) {
            size_in_words(words(line))
        } else {
            f1.system_size
        },
        ..f1
    }
}

/// The figures that lines give, the later ones overriding the earlier.
pub open spec fn figures_of(l: Seq<Seq<char>>) -> UsageFigures
    decreases l.len(),
{
    if l.len() == 0 {
        UsageFigures { total: 0, used: 0, data_size: 0, metadata_size: 0, system_size: 0 }
    } else {
        figures_after(figures_of(l.drop_last()), l.last())
    }
}

/// Reads one line of a usage overview.
fn read_usage_line(f: UsageFigures, raw: &str) -> (r: UsageFigures)
    ensures
        r == figures_after(f, raw@),
{
    let line = trim(raw);
    let mut total: u64 = f.total;
    let mut used: u64 = f.used;
    if contains(line, "Overall:") {
        match split_once(line, ':') {
            Some((_, value)) => {
                let parts = split_words(value);
                total = read_size_behind(&parts, "size", "size:", f.total);
                used = read_size_behind(&parts, "used", "used:", f.used);
            },
            None => {},
        }
    }
    let data_size: u64 = if contains(line, "Data:") {
        parse_size_from_line(line)
    } else {
        f.data_size
    };
    let metadata_size: u64 = if contains(line, "Metadata:") {
        parse_size_from_line(line)
    } else {
        f.metadata_size
    };
    let system_size: u64 = if contains(line, "System:") {
        parse_size_from_line(line)
    } else {
        f.system_size
    };
    UsageFigures { total, used, data_size, metadata_size, system_size }
}

/// Reads the figures of a usage overview.
pub fn parse_usage_figures(output: &str) -> (r: UsageFigures)
    ensures
        r == figures_of(lines(output@)),
{
    let all = split_lines(output);
    let ghost l = lines(output@);
    let mut r = UsageFigures { total: 0, used: 0, data_size: 0, metadata_size: 0, system_size: 0 };
    let mut i: usize = 0;
    assert(l.take(0) =~= Seq::<Seq<char>>::empty());
    while i < all.len()
        invariant
            i <= all@.len(),
            views(all@) == l,
            r == figures_of(l.take(i as int)),
        decreases all@.len() - i,
    {
        assert(views(all@)[i as int] == all@[i as int]@);
        assert(l.take(i + 1).drop_last() =~= l.take(i as int));
        r = read_usage_line(r, all[i]);
        i += 1;
    }
    assert(l.take(i as int) =~= l);
    r
}

/// The usage that the figures of an overview amount to.
pub open spec fn usage_from(f: UsageFigures) -> FilesystemUsage {
    FilesystemUsage {
        total: f.total,
        used: f.used,
        free: (f.total - f.used) as u64,
        data_size: f.data_size,
        metadata_size: f.metadata_size,
        system_size: f.system_size,
        device_count: 1,
    }
}

/// Reads a usage overview whose used size is at most the total.
pub fn parse_usage_output(output: &str) -> (r: FilesystemUsage)
    requires
        figures_of(lines(output@)).used <= figures_of(lines(output@)).total,
    ensures
        r == usage_from(figures_of(lines(output@))),
{
    let f = parse_usage_figures(output);
    FilesystemUsage {
        total: f.total,
        used: f.used,
        free: f.total - f.used,
        data_size: f.data_size,
        metadata_size: f.metadata_size,
        system_size: f.system_size,
        device_count: 1,
    }
}

/// Reads a usage overview. Gives nothing where more is used than there is.
pub fn checked_usage_output(output: &str) -> (r: Option<FilesystemUsage>)
    ensures
        ({
            let f = figures_of(lines(output@));
            r == if f.used <= f.total {
                Some(usage_from(f))
            } else {
                None
            }
        }),
{
    let f = parse_usage_figures(output);
    if f.used <= f.total {
        Some(parse_usage_output(output))
    } else {
        None
    }
}

/// Device usage information.
#[derive(Debug)]
pub struct DeviceUsage {
    pub path: String,
    pub size: u64,
    pub used: u64,
    pub free: u64,
    pub imbalance: u64,
}

/// What the usage of a device says.
pub struct DeviceUsageView {
    pub path: Seq<char>,
    pub size: u64,
    pub used: u64,
    pub free: int,
    pub imbalance: u64,
}

impl View for DeviceUsage {
    type V = DeviceUsageView;

    open spec fn view(&self) -> DeviceUsageView {
        DeviceUsageView {
            path: self.path@,
            size: self.size,
            used: self.used,
            free: self.free as int,
            imbalance: self.imbalance,
        }
    }
}

/// The device that a line describes: a line with `/dev/` and at least four words, of which the
/// first three are the path, the size and the used size.
pub open spec fn device_of(line: Seq<char>) -> Option<DeviceUsageView> {
    let w = words(line);
    if has(line, "/dev/"@) && w.len() >= 4 {
        let size = size_value(w[1]);
        let used = size_value(w[2]);
        Some(DeviceUsageView { path: w[0], size, used, free: size - used, imbalance: 0 })
    } else {
        None
    }
}

/// The devices that lines describe.
pub open spec fn devices_of(l: Seq<Seq<char>>) -> Seq<DeviceUsageView>
    decreases l.len(),
{
    if l.len() == 0 {
        Seq::empty()
    } else {
        match device_of(l.last()) {
            Some(d) => devices_of(l.drop_last()).push(d),
            None => devices_of(l.drop_last()),
        }
    }
}

/// What a list of devices says.
pub open spec fn device_views(v: Seq<DeviceUsage>) -> Seq<DeviceUsageView> {
    v.map_values(|x: DeviceUsage| x@)
}

/// Reads the devices of a usage overview. Gives nothing where a device's used size exceeds its
/// size.
pub fn parse_device_usage(output: &str) -> (r: Option<Vec<DeviceUsage>>)
    ensures
        r is Some == (forall|i: int|
            0 <= i < devices_of(lines(output@)).len() ==> (#[trigger] devices_of(
                lines(output@),
            )[i]).free >= 0),
        r matches Some(v) ==> device_views(v@) == devices_of(lines(output@)),
{
    let all = split_lines(output);
    let ghost l = lines(output@);
    let mut r: Vec<DeviceUsage> = Vec::new();
    let mut i: usize = 0;
    assert(l.take(0) =~= Seq::<Seq<char>>::empty());
    assert(device_views(r@) =~= Seq::<DeviceUsageView>::empty());
    while i < all.len()
        invariant
            i <= all@.len(),
            views(all@) == l,
            l == lines(output@),
            device_views(r@) == devices_of(l.take(i as int)),
        decreases all@.len() - i,
    {
        let line = all[i];
        let ghost before = r@;
        proof {
            assert(views(all@)[i as int] == line@);
            assert(l.take(i + 1).drop_last() =~= l.take(i as int));
            assert(l.take(i + 1).last() == line@);
        }
        if contains(line, "/dev/") {
            let parts = split_words(line);
            let ghost w = words(line@);
            if parts.len() >= 4 {
                assert(views(parts@)[0] == parts@[0]@);
                assert(views(parts@)[1] == parts@[1]@);
                assert(views(parts@)[2] == parts@[2]@);
                let size: u64 = parse_size_value(parts[1]);
                let used: u64 = parse_size_value(parts[2]);
                if used > size {
                    proof {
                        let k = device_views(before).len() as int;
                        assert(devices_of(l.take(i + 1))[k].free < 0);
                        lemma_devices_prefix(l, i + 1, k);
                    }
                    return None;
                }
                let d = DeviceUsage {
                    path: parts[0].to_owned(),
                    size,
                    used,
                    free: size - used,
                    imbalance: 0,
                };
                r.push(d);
                assert(device_views(r@) =~= device_views(before).push(d@));
            }
        }
        i += 1;
    }
    proof {
        assert(l.take(i as int) =~= l);
        assert forall|k: int| 0 <= k < devices_of(l).len() implies (#[trigger] devices_of(
            l,
        )[k]).free >= 0 by {
            assert(device_views(r@)[k] == r@[k]@);
        }
    }
    Some(r)
}

proof fn lemma_devices_prefix(l: Seq<Seq<char>>, n: int, k: int)
    requires
        0 <= n <= l.len(),
        0 <= k < devices_of(l.take(n)).len(),
    ensures
        k < devices_of(l).len(),
        devices_of(l)[k] == devices_of(l.take(n))[k],
    decreases l.len() - n,
{
    if n < l.len() {
        assert(l.take(n + 1).drop_last() =~= l.take(n));
        lemma_devices_prefix(l, n + 1, k);
    } else {
        assert(l.take(n) =~= l);
    }
}

/// A week in milliseconds.
pub const WEEK_MS: i64 = 604_800_000;

/// Manager for btrfs filesystem usage.
#[derive(Debug)]
pub struct UsageManager {
    pub base_path: String,
}

impl UsageManager {
    /// A usage manager for the filesystem at a path.
    pub fn new(base_path: &str) -> (r: UsageManager)
        ensures
            r.base_path@ == base_path@,
    {
        UsageManager { base_path: base_path.to_owned() }
    }

    /// The command that prints the usage in bytes.
    pub fn get_usage(&self) -> (r: CommandLine)
        ensures
            r@ == btrfs_call("filesystem"@, seq!["usage"@, "-b"@, self.base_path@]),
    {
        let r = CommandLine::new("btrfs").arg("filesystem").arg("usage").arg("-b").arg(
            self.base_path.as_str(),
        );
        assert(r@ =~= btrfs_call("filesystem"@, seq!["usage"@, "-b"@, self.base_path@]));
        r
    }

    /// The command that prints the usage of the devices.
    pub fn get_device_usage(&self) -> (r: CommandLine)
        ensures
            r@ == btrfs_call("filesystem"@, seq!["usage"@, self.base_path@]),
    {
        let r = CommandLine::new("btrfs").arg("filesystem").arg("usage").arg(
            self.base_path.as_str(),
        );
        assert(r@ =~= btrfs_call("filesystem"@, seq!["usage"@, self.base_path@]));
        r
    }

    /// Tells whether a scrub is due now.
    pub fn needs_scrub(&self, last_scrub: Option<i64>) -> (r: bool)
        ensures
            exists|now: int|
                i64::MIN <= now <= i64::MAX && r == #[trigger] scrub_due(last_scrub, now),
    {
        let now: i64 = now_millis();
        let r = self.needs_scrub_at(last_scrub, now);
        assert(r == scrub_due(last_scrub, now as int));
        r
    }

    /// Tells whether a scrub is due at the time `now`.
    pub fn needs_scrub_at(&self, last_scrub: Option<i64>, now: i64) -> (r: bool)
        ensures
            r == scrub_due(last_scrub, now as int),
    {
        match last_scrub {
            Some(last) => !(now as i128 - (last as i128) < WEEK_MS as i128),
            None => true,
        }
    }
}

/// Whether a scrub is due: there was none, or the last is at least a week ago.
pub open spec fn scrub_due(last_scrub: Option<i64>, now: int) -> bool {
    match last_scrub {
        Some(last) => now - last >= WEEK_MS,
        None => true,
    }
}

} // verus!
