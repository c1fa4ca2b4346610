//! Metadata of volumes, kept as extended attributes of their subvolumes.

use vstd::prelude::*;
use vstd::string::*;

use crate::number::{
    decimal, decimal_reads_back, is_digit, lemma_decimal, parse_i64, parse_u64, signed_value,
    unsigned_value,
};
use crate::ops::commands::{CommandLine, CommandView};
use crate::protocol::payload::clock_view;
use crate::table::Table;
use crate::text::{
    after_prefix, lemma_trimmed_same, lines, parted, same, split_lines, split_once, strip_prefix,
    trim, trimmed, views,
};

verus! {

broadcast use vstd::string::group_string_axioms;

/// The prefix of the names of the driver's attributes.
pub open spec fn attr_prefix() -> Seq<char> {
    "user.csi."@
}

fn full_key(key: &str) -> (r: String)
    ensures
        r@ == attr_prefix() + key@,
{
    let mut r = "user.csi.".to_owned();
    r.append(key);
    r
}

/// The command that sets an attribute of a subvolume.
pub fn set_csi_attr(path: &str, key: &str, value: &str) -> (r: CommandLine)
    ensures
        r@ == (CommandView {
            program: "setfattr"@,
            args: seq!["-n"@, attr_prefix() + key@, "-v"@, value@, path@],
        }),
{
    let k = full_key(key);
    let r = CommandLine::new("setfattr").arg("-n").arg(k.as_str()).arg("-v").arg(value).arg(path);
    assert(r@ =~= (CommandView {
        program: "setfattr"@,
        args: seq!["-n"@, attr_prefix() + key@, "-v"@, value@, path@],
    }));
    r
}

/// The command that prints an attribute of a subvolume.
pub fn get_csi_attr(path: &str, key: &str) -> (r: CommandLine)
    ensures
        r@ == (CommandView {
            program: "getfattr"@,
            args: seq!["-n"@, attr_prefix() + key@, "--only-values"@, path@],
        }),
{
    let k = full_key(key);
    let r = CommandLine::new("getfattr").arg("-n").arg(k.as_str()).arg("--only-values").arg(path);
    assert(r@ =~= (CommandView {
        program: "getfattr"@,
        args: seq!["-n"@, attr_prefix() + key@, "--only-values"@, path@],
    }));
    r
}

/// The value that the command printed. An attribute that is missing makes the command fail.
pub fn read_csi_attr(success: bool, stdout: &str) -> (r: Option<String>)
    ensures
        r is Some == success,
        r matches Some(v) ==> v@ == trimmed(stdout@),
{
    if success {
        Some(trim(stdout).to_owned())
    } else {
        None
    }
}

/// The command that removes an attribute of a subvolume.
pub fn remove_csi_attr(path: &str, key: &str) -> (r: CommandLine)
    ensures
        r@ == (CommandView {
            program: "setfattr"@,
            args: seq!["-x"@, attr_prefix() + key@, path@],
        }),
{
    let k = full_key(key);
    let r = CommandLine::new("setfattr").arg("-x").arg(k.as_str()).arg(path);
    assert(r@ =~= (CommandView {
        program: "setfattr"@,
        args: seq!["-x"@, attr_prefix() + key@, path@],
    }));
    r
}

/// The command that prints all attributes of a subvolume.
pub fn get_all_csi_attrs(path: &str) -> (r: CommandLine)
    ensures
        r@ == (CommandView { program: "getfattr"@, args: seq!["-d"@, "--only-values"@, path@] }),
{
    let r = CommandLine::new("getfattr").arg("-d").arg("--only-values").arg(path);
    assert(r@ =~= (CommandView {
        program: "getfattr"@,
        args: seq!["-d"@, "--only-values"@, path@],
    }));
    r
}

/// The name and the value in a line: what stands before and behind its first `=`, the name
/// without the driver's prefix.
pub open spec fn attr_in_line(line: Seq<char>) -> Option<(Seq<char>, Seq<char>)> {
    match parted(line, '=') {
        Some((k, v)) => {
            let key = trimmed(k);
            Some(
                (
                    match after_prefix(key, attr_prefix()) {
                        Some(short) => short,
                        None => key,
                    },
                    trimmed(v),
                ),
            )
        },
        None => None,
    }
}

/// The attributes in lines. Of two with the same name the later one counts.
pub open spec fn attrs_in(l: Seq<Seq<char>>) -> Map<Seq<char>, Seq<char>>
    decreases l.len(),
{
    if l.len() == 0 {
        Map::empty()
    } else {
        match attr_in_line(l.last()) {
            Some((k, v)) => attrs_in(l.drop_last()).insert(k, v),
            None => attrs_in(l.drop_last()),
        }
    }
}

/// Reads the attributes that the command printed. There are none where it failed.
pub fn read_all_csi_attrs(success: bool, stdout: &str) -> (r: Table<String>)
    ensures
        r.wf(),
        r@ == if success {
            attrs_in(lines(stdout@))
        } else {
            Map::empty()
        },
{
    let mut r: Table<String> = Table::new();
    if !success {
        return r;
    }
    let all = split_lines(stdout);
    let ghost l = lines(stdout@);
    let mut i: usize = 0;
    assert(l.take(0) =~= Seq::<Seq<char>>::empty());
    while i < all.len()
        invariant
            i <= all@.len(),
            views(all@) == l,
            r.wf(),
            r@ == attrs_in(l.take(i as int)),
        decreases all@.len() - i,
    {
        proof {
            assert(views(all@)[i as int] == all@[i as int]@);
            assert(l.take(i + 1).drop_last() =~= l.take(i as int));
            assert(l.take(i + 1).last() == all@[i as int]@);
        }
        match split_once(all[i], '=') {
            Some((k, v)) => {
                let key = trim(k);
                let short = match strip_prefix(key, "user.csi.") {
                    Some(s) => s,
                    None => key,
                };
                r.insert(short.to_owned(), trim(v).to_owned());
            },
            None => {},
        }
        i += 1;
    }
    assert(l.take(i as int) =~= l);
    r
}

/// The number that an attribute stands for; zero where it is missing or stands for none.
pub open spec fn u64_attr(val: Option<Seq<char>>) -> u64 {
    match val {
        Some(v) => match unsigned_value(v, u64::MAX as nat) {
            Some(n) => n as u64,
            None => 0,
        },
        None => 0,
    }
}

/// The signed number that an attribute stands for; zero where it is missing or stands for none.
pub open spec fn i64_attr(val: Option<Seq<char>>) -> i64 {
    match val {
        Some(v) => match signed_value(v) {
            Some(n) => n as i64,
            None => 0,
        },
        None => 0,
    }
}

/// The characters of a string that may be missing.
pub open spec fn ref_view(val: Option<&String>) -> Option<Seq<char>> {
    match val {
        Some(v) => Some(v@),
        None => None,
    }
}

/// Reads an unsigned number from an attribute.
pub fn parse_u64_attr(val: Option<&String>) -> (r: u64)
    ensures
        r == u64_attr(ref_view(val)),
{
    match val {
        Some(v) => match parse_u64(v.as_str()) {
            Some(n) => n,
            None => 0,
        },
        None => 0,
    }
}

/// Reads a signed number from an attribute.
pub fn parse_i64_attr(val: Option<&String>) -> (r: i64)
    ensures
        r == i64_attr(ref_view(val)),
{
    match val {
        Some(v) => match parse_i64(v.as_str()) {
            Some(n) => n,
            None => 0,
        },
        None => 0,
    }
}

/// A number that was written into an attribute is read back, also through the trimming of what
/// the command prints.
pub proof fn number_attr_reads_back(n: u64)
    ensures
        u64_attr(Some(trimmed(decimal(n as nat)))) == n,
{
    let d = decimal(n as nat);
    lemma_decimal(n as nat);
    assert(is_digit(d[0]) && is_digit(d.last()));
    lemma_trimmed_same(d);
    decimal_reads_back(n as nat, u64::MAX as nat);
}

/// The volume can be written.
pub open spec fn status_active() -> Seq<char> {
    "active"@
}

/// The volume can only be read: its node was in the minority.
pub open spec fn status_readonly() -> Seq<char> {
    "readonly"@
}

/// Two nodes have written the volume independently of each other.
pub open spec fn status_conflict() -> Seq<char> {
    "conflict"@
}

/// The count of a node in a vector clock: that of its last entry, or zero.
pub open spec fn clock_at(c: Seq<(Seq<char>, u64)>, node: Seq<char>) -> u64
    decreases c.len(),
{
    if c.len() == 0 {
        0
    } else if c.last().0 == node {
        c.last().1
    } else {
        clock_at(c.drop_last(), node)
    }
}

/// Whether `a` counts more writes of some node than `b`.
pub open spec fn ahead(a: Seq<(Seq<char>, u64)>, b: Seq<(Seq<char>, u64)>) -> bool {
    exists|node: Seq<char>| #[trigger] clock_at(a, node) > clock_at(b, node)
}

/// Whether two vector clocks conflict: each is ahead of the other.
pub open spec fn conflicting(a: Seq<(Seq<char>, u64)>, b: Seq<(Seq<char>, u64)>) -> bool {
    ahead(a, b) && ahead(b, a)
}

fn count_of(c: &Vec<(String, u64)>, node: &str) -> (r: u64)
    ensures
        r == clock_at(clock_view(c@), node@),
{
    let ghost all = clock_view(c@);
    let mut i: usize = c.len();
    assert(all.take(i as int) =~= all);
    while i > 0
        invariant
            i <= c@.len(),
            all == clock_view(c@),
            clock_at(all.take(i as int), node@) == clock_at(all, node@),
        decreases i,
    {
        assert(all.take(i as int).last() == (c@[i - 1].0@, c@[i - 1].1));
        assert(all.take(i as int).drop_last() =~= all.take(i - 1));
        if same(c[i - 1].0.as_str(), node) {
            return c[i - 1].1;
        }
        i -= 1;
    }
    0
}

proof fn lemma_clock_entry(c: Seq<(Seq<char>, u64)>, node: Seq<char>)
    requires
        clock_at(c, node) > 0,
    ensures
        exists|i: int| 0 <= i < c.len() && (#[trigger] c[i]).0 == node,
    decreases c.len(),
{
    if c.len() > 0 {
        if c.last().0 == node {
            assert(c[c.len() - 1].0 == node);
        } else {
            lemma_clock_entry(c.drop_last(), node);
            let i = choose|i: int|
                0 <= i < c.drop_last().len() && (#[trigger] c.drop_last()[i]).0 == node;
            assert(c[i].0 == node);
        }
    }
}

fn is_ahead(a: &Vec<(String, u64)>, b: &Vec<(String, u64)>) -> (r: bool)
    ensures
        r == ahead(clock_view(a@), clock_view(b@)),
{
    let ghost x = clock_view(a@);
    let ghost y = clock_view(b@);
    let mut i: usize = 0;
    while i < a.len()
        invariant
            i <= a@.len(),
            x == clock_view(a@),
            y == clock_view(b@),
            forall|k: int|
                0 <= k < i ==> clock_at(x, (#[trigger] x[k]).0) <= clock_at(y, x[k].0),
        decreases a@.len() - i,
    {
        let node = a[i].0.as_str();
        assert(x[i as int].0 == node@);
        if count_of(a, node) > count_of(b, node) {
            return true;
        }
        i += 1;
    }
    proof {
        if ahead(x, y) {
            let node = choose|node: Seq<char>| #[trigger] clock_at(x, node) > clock_at(y, node);
            lemma_clock_entry(x, node);
            let k = choose|k: int| 0 <= k < x.len() && (#[trigger] x[k]).0 == node;
            assert(clock_at(x, x[k].0) <= clock_at(y, x[k].0));
        }
    }
    false
}

/// Tells whether two vector clocks conflict.
pub fn has_conflict(a: &Vec<(String, u64)>, b: &Vec<(String, u64)>) -> (r: bool)
    ensures
        r == conflicting(clock_view(a@), clock_view(b@)),
{
    is_ahead(a, b) && is_ahead(b, a)
}

/// Conflict is mutual, and no clock conflicts with itself.
pub proof fn conflict_is_mutual(a: Seq<(Seq<char>, u64)>, b: Seq<(Seq<char>, u64)>)
    ensures
        conflicting(a, b) == conflicting(b, a),
        !conflicting(a, a),
{
}

/// A clock that counts at least what another counts does not conflict with it.
pub proof fn later_clock_does_not_conflict(
    earlier: Seq<(Seq<char>, u64)>,
    later: Seq<(Seq<char>, u64)>,
)
    requires
        forall|node: Seq<char>| #[trigger] clock_at(earlier, node) <= clock_at(later, node),
    ensures
        !conflicting(earlier, later),
{
}

} // verus!
