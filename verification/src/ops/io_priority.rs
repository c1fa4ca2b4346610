//! Load of the machine and priority of background work.

use vstd::prelude::*;
use vstd::string::*;

use crate::number::{parse_u64, unsigned_value};
use crate::text::{
    contains, fields, has, lines, same, split_fields, split_lines, split_words, starts_with,
    stands_at, tail, views, words,
};

verus! {

broadcast use vstd::string::group_string_axioms;

/// The I/O priority of background work: the idle class in the bits that hold the class.
pub const IDLE_IO_PRIORITY: u64 = 24576;

/// What a request for the idle I/O priority comes to, by what the system call returned and the
/// text of the system's error.
pub fn set_io_priority_idle(returned: i64, error: &str) -> (r: Result<(), String>)
    ensures
        r is Ok == (returned >= 0),
        r matches Err(e) ==> e@ == "ioprio_set IDLE failed: "@ + error@,
{
    if returned < 0 {
        let mut e = "ioprio_set IDLE failed: ".to_owned();
        e.append(error);
        Err(e)
    } else {
        Ok(())
    }
}

/// The first word of a text.
pub fn first_word(content: &str) -> (r: Option<String>)
    ensures
        r is Some == (words(content@).len() > 0),
        r matches Some(w) ==> w@ == words(content@)[0],
{
    let parts = split_words(content);
    if parts.len() > 0 {
        assert(views(parts@)[0] == parts@[0]@);
        Some(parts[0].to_owned())
    } else {
        None
    }
}

/// The last part of a path that names a file: empty parts and `.` are passed over, and `..`
/// names none.
pub open spec fn file_name_in(parts: Seq<Seq<char>>) -> Option<Seq<char>>
    decreases parts.len(),
{
    if parts.len() == 0 {
        None
    } else if parts.last() == Seq::<char>::empty() || parts.last() == "."@ {
        file_name_in(parts.drop_last())
    } else if parts.last() == ".."@ {
        None
    } else {
        Some(parts.last())
    }
}

/// The name of the file that a path leads to.
pub fn file_name(path: &str) -> (r: Option<String>)
    ensures
        r is Some == file_name_in(fields(path@, '/')) is Some,
        r matches Some(n) ==> file_name_in(fields(path@, '/')) == Some(n@),
{
    let parts = split_fields(path, '/');
    let ghost all = fields(path@, '/');
    let mut i: usize = parts.len();
    assert(all.take(i as int) =~= all);
    proof {
        reveal_strlit("");
        assert(""@ =~= Seq::<char>::empty());
    }
    while i > 0
        invariant
            i <= parts@.len(),
            views(parts@) == all,
            all == fields(path@, '/'),
            ""@ == Seq::<char>::empty(),
            file_name_in(all.take(i as int)) == file_name_in(all),
        decreases i,
    {
        let part = parts[i - 1];
        assert(views(parts@)[i - 1] == part@);
        assert(all.take(i as int).last() == part@);
        assert(all.take(i as int).drop_last() =~= all.take(i - 1));
        if same(part, "") || same(part, ".") {
            i -= 1;
        } else if same(part, "..") {
            return None;
        } else {
            return Some(part.to_owned());
        }
    }
    None
}

/// The first line that mentions a mount point, in a list of mounts.
pub open spec fn mount_line(l: Seq<Seq<char>>, mount_point: Seq<char>) -> Option<Seq<char>>
    decreases l.len(),
{
    if l.len() == 0 {
        None
    } else if has(l[0], mount_point) {
        Some(l[0])
    } else {
        mount_line(l.skip(1), mount_point)
    }
}

/// The name of the device that is mounted at a mount point, by a list of mounts.
pub open spec fn mounted_device(mounts: Seq<char>, mount_point: Seq<char>) -> Option<Seq<char>> {
    match mount_line(lines(mounts), mount_point) {
        Some(line) => if words(line).len() > 0 {
            file_name_in(fields(words(line)[0], '/'))
        } else {
            None
        },
        None => None,
    }
}

/// Finds the name of the device that is mounted at a mount point.
pub fn device_of_mount(mounts: &str, mount_point: &str) -> (r: Option<String>)
    ensures
        r is Some == mounted_device(mounts@, mount_point@) is Some,
        r matches Some(d) ==> mounted_device(mounts@, mount_point@) == Some(d@),
{
    let all = split_lines(mounts);
    let ghost l = lines(mounts@);
    let mut i: usize = 0;
    assert(l.skip(0) =~= l);
    while i < all.len()
        invariant
            i <= all@.len(),
            views(all@) == l,
            l == lines(mounts@),
            mount_line(l.skip(i as int), mount_point@) == mount_line(l, mount_point@),
        decreases all@.len() - i,
    {
        let line = all[i];
        assert(views(all@)[i as int] == line@);
        assert(l.skip(i as int)[0] == line@);
        assert(l.skip(i as int).skip(1) =~= l.skip(i + 1));
        if contains(line, mount_point) {
            let parts = split_words(line);
            if parts.len() == 0 {
                return None;
            }
            assert(views(parts@)[0] == parts@[0]@);
            return file_name(parts[0]);
        }
        i += 1;
    }
    None
}

/// A text without the prefix `pat`, however often it stands in front.
pub open spec fn without_prefix(s: Seq<char>, pat: Seq<char>) -> Seq<char>
    decreases s.len(),
{
    if pat.len() > 0 && stands_at(s, pat, 0) {
        without_prefix(s.skip(pat.len() as int), pat)
    } else {
        s
    }
}

/// Removes the prefix `pat`, however often it stands in front.
pub fn strip_prefixes<'a>(s: &'a str, pat: &str) -> (r: &'a str)
    ensures
        r@ == without_prefix(s@, pat@),
{
    let n: usize = pat.unicode_len();
    if n == 0 {
        return s;
    }
    let mut r = s;
    while starts_with(r, pat)
        invariant
            n == pat@.len(),
            n > 0,
            without_prefix(r@, pat@) == without_prefix(s@, pat@),
        decreases r@.len(),
    {
        r = tail(r, n);
    }
    r
}

/// The files that tell how busy a device is, in the order in which they are tried.
pub fn stat_paths(device: &str) -> (r: (String, String))
    ensures
        r.0@ == "/sys/block/"@ + without_prefix(device@, "dm-"@) + "/stat"@,
        r.1@ == "/sys/block/dm-"@ + without_prefix(device@, "dm-"@) + "/stat"@,
{
    let number = strip_prefixes(device, "dm-");
    let mut first = "/sys/block/".to_owned();
    first.append(number);
    first.append("/stat");
    let mut second = "/sys/block/dm-".to_owned();
    second.append(number);
    second.append("/stat");
    (first, second)
}

/// The milliseconds that a device has spent on I/O: the tenth word of its statistics.
pub fn io_time_ms(stat: &str) -> (r: Option<u64>)
    ensures
        ({
            let w = words(stat@);
            let v = if w.len() > 9 {
                unsigned_value(w[9], u64::MAX as nat)
            } else {
                None
            };
            &&& r is Some == v is Some
            &&& r matches Some(n) ==> v == Some(n as nat)
        }),
{
    let parts = split_words(stat);
    if parts.len() > 9 {
        assert(views(parts@)[9] == parts@[9]@);
        parse_u64(parts[9])
    } else {
        None
    }
}

} // verus!
