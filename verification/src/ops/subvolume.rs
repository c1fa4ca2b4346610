//! Subvolumes.

use vstd::prelude::*;
use vstd::string::*;

use crate::number::{parse_u64, unsigned_value};
use crate::numeral::{scale_text, scaled};
use crate::ops::commands::{below, btrfs_call, path_below, CommandLine, CommandView};
use crate::ops::usage::{lowered, parse_size_value, size_value, to_lowercase};
use crate::text::{
    contains, fields, has, join_from, joined, lines, opt_clone, opt_view, same, split_fields,
    split_lines, split_words, trim, trimmed, views, words,
};

verus! {

broadcast use vstd::string::group_string_axioms;

/// Information about a btrfs subvolume.
#[derive(Debug)]
pub struct Subvolume {
    pub id: u64,
    pub path: String,
    pub name: String,
    pub size: u64,
    pub uuid: String,
    pub parent_id: Option<u64>,
    pub created_at: Option<String>,
}

/// What is known of a subvolume.
#[verifier::ext_equal]
pub struct SubvolumeView {
    pub id: u64,
    pub path: Seq<char>,
    pub name: Seq<char>,
    pub size: u64,
    pub uuid: Seq<char>,
    pub parent_id: Option<u64>,
    pub created_at: Option<Seq<char>>,
}

impl View for Subvolume {
    type V = SubvolumeView;

    open spec fn view(&self) -> SubvolumeView {
        SubvolumeView {
            id: self.id,
            path: self.path@,
            name: self.name@,
            size: self.size,
            uuid: self.uuid@,
            parent_id: self.parent_id,
            created_at: opt_view(self.created_at),
        }
    }
}

impl Clone for Subvolume {
    fn clone(&self) -> (r: Subvolume)
        ensures
            r@ == self@,
    {
        Subvolume {
            id: self.id,
            path: self.path.clone(),
            name: self.name.clone(),
            size: self.size,
            uuid: self.uuid.clone(),
            parent_id: self.parent_id,
            created_at: opt_clone(&self.created_at),
        }
    }
}

/// The text between the first colon of a line and the next, without the spaces around it, or a
/// default where there is no colon.
pub open spec fn field_text(line: Seq<char>, default: Seq<char>) -> Seq<char> {
    let f = fields(line, ':');
    if f.len() > 1 {
        trimmed(f[1])
    } else {
        trimmed(default)
    }
}

/// The number in that place, or zero.
pub open spec fn field_number(line: Seq<char>) -> u64 {
    match unsigned_value(field_text(line, "0"@), u64::MAX as nat) {
        Some(n) => n as u64,
        None => 0,
    }
}

/// Reads the text between the first colon of a line and the next.
pub fn read_field(line: &str, default: &'static str) -> (r: String)
    ensures
        r@ == field_text(line@, default@),
{
    let parts = split_fields(line, ':');
    if parts.len() > 1 {
        assert(views(parts@)[1] == parts@[1]@);
        trim(parts[1]).to_owned()
    } else {
        trim(default).to_owned()
    }
}

/// Reads the number between the first colon of a line and the next.
pub fn read_field_number(line: &str) -> (r: u64)
    ensures
        r == field_number(line@),
{
    let t = read_field(line, "0");
    match parse_u64(t.as_str()) {
        Some(n) => n,
        None => 0,
    }
}

/// The power of two that a unit in lower case stands for.
pub open spec fn unit_power(unit: Seq<char>) -> Option<nat> {
    if unit == "b"@ || unit == "bytes"@ {
        Some(0)
    } else if unit == "kb"@ || unit == "kib"@ {
        Some(10)
    } else if unit == "mb"@ || unit == "mib"@ {
        Some(20)
    } else if unit == "gb"@ || unit == "gib"@ {
        Some(30)
    } else if unit == "tb"@ || unit == "tib"@ {
        Some(40)
    } else {
        None
    }
}

/// The bytes that a size stands for. The unit is the word behind the number, or its suffix if
/// there is but one word.
pub open spec fn spaced_size(s: Seq<char>) -> u64 {
    let w = words(s);
    if w.len() == 0 {
        0
    } else if w.len() == 1 {
        size_value(w[0])
    } else {
        match unit_power(lowered(w[1])) {
            Some(k) => scaled(w[0], k),
            None => 0,
        }
    }
}

/// Reads the power of two that a unit in lower case stands for.
pub fn parse_unit(unit: &str) -> (r: Option<usize>)
    ensures
        r is Some == unit_power(unit@) is Some,
        r matches Some(k) ==> unit_power(unit@) == Some(k as nat) && k <= 40,
{
    if same(unit, "b") || same(unit, "bytes") {
        Some(0)
    } else if same(unit, "kb") || same(unit, "kib") {
        Some(10)
    } else if same(unit, "mb") || same(unit, "mib") {
        Some(20)
    } else if same(unit, "gb") || same(unit, "gib") {
        Some(30)
    } else if same(unit, "tb") || same(unit, "tib") {
        Some(40)
    } else {
        None
    }
}

/// Reads a size such as `10.00GiB` or `10.00 GiB`.
pub fn parse_size(s: &str) -> (r: u64)
    ensures
        r == spaced_size(s@),
{
    let parts = split_words(s);
    if parts.len() == 0 {
        return 0;
    }
    assert(views(parts@)[0] == parts@[0]@);
    if parts.len() == 1 {
        return parse_size_value(parts[0]);
    }
    assert(views(parts@)[1] == parts@[1]@);
    let unit = to_lowercase(parts[1]);
    match parse_unit(unit.as_str()) {
        Some(k) => scale_text(parts[0], k),
        None => 0,
    }
}

/// The last part of a path.
pub open spec fn last_part(path: Seq<char>) -> Seq<char> {
    fields(path, '/').last()
}

/// The last part of a path.
pub fn base_name(path: &str) -> (r: String)
    ensures
        r@ == last_part(path@),
{
    let parts = split_fields(path, '/');
    let n: usize = parts.len();
    assert(views(parts@)[n - 1] == parts@[n - 1]@);
    parts[n - 1].to_owned()
}

/// The path in the words of a line `ID <id> gen <gen> top level <parent> path <path>`. In lines
/// of another form the path is made up of the words from the seventh on.
pub open spec fn listed_path(w: Seq<Seq<char>>) -> Seq<char> {
    if w.len() > 8 && w[7] == "path"@ {
        joined(w.skip(8), " "@)
    } else {
        joined(w.skip(6), " "@)
    }
}

/// Reads the path in the words of a line of a listing.
pub fn read_listed_path(parts: &Vec<&str>) -> (r: String)
    requires
        parts@.len() >= 7,
    ensures
        r@ == listed_path(views(parts@)),
{
    if parts.len() > 8 {
        assert(views(parts@)[7] == parts@[7]@);
        if same(parts[7], "path") {
            return join_from(parts, 8, " ");
        }
    }
    join_from(parts, 6, " ")
}

/// The number and the path in a line of a listing: at least seven words, of which the first is
/// `ID` and the second the number.
pub open spec fn listed_entry(line: Seq<char>) -> Option<(u64, Seq<char>)> {
    let w = words(line);
    if w.len() < 7 || w[0] != "ID"@ {
        None
    } else {
        match unsigned_value(w[1], u64::MAX as nat) {
            Some(n) => Some((n as u64, listed_path(w))),
            None => None,
        }
    }
}

/// Reads the number and the path in a line of a listing.
pub fn read_listed_entry(line: &str) -> (r: Option<(u64, String)>)
    ensures
        r is Some == listed_entry(line@) is Some,
        r matches Some((id, path)) ==> listed_entry(line@) == Some((id, path@)),
{
    let parts = split_words(line);
    if parts.len() < 7 {
        return None;
    }
    assert(views(parts@)[0] == parts@[0]@);
    assert(views(parts@)[1] == parts@[1]@);
    if !same(parts[0], "ID") {
        return None;
    }
    match parse_u64(parts[1]) {
        Some(id) => Some((id, read_listed_path(&parts))),
        None => None,
    }
}

/// The subvolume in a line of a listing.
pub open spec fn listed_subvolume(line: Seq<char>) -> Option<SubvolumeView> {
    match listed_entry(line) {
        Some((id, path)) => Some(
            SubvolumeView {
                id,
                path,
                name: last_part(path),
                size: 0,
                uuid: Seq::empty(),
                parent_id: Some(5),
                created_at: None,
            },
        ),
        None => None,
    }
}

/// Reads a line of a listing of subvolumes.
pub fn parse_subvolume_line(line: &str) -> (r: Option<Subvolume>)
    ensures
        r is Some == listed_subvolume(line@) is Some,
        r matches Some(v) ==> listed_subvolume(line@) == Some(v@),
{
    match read_listed_entry(line) {
        Some((id, path)) => {
            let name = base_name(path.as_str());
            let v = Subvolume {
                id,
                path,
                name,
                size: 0,
                uuid: String::new(),
                parent_id: Some(5),
                created_at: None,
            };
            assert(v.uuid@ =~= Seq::<char>::empty());
            Some(v)
        },
        None => None,
    }
}

/// The subvolumes in the lines of a listing.
pub open spec fn listed_subvolumes(l: Seq<Seq<char>>) -> Seq<SubvolumeView>
    decreases l.len(),
{
    if l.len() == 0 {
        Seq::empty()
    } else {
        match listed_subvolume(l.last()) {
            Some(v) => listed_subvolumes(l.drop_last()).push(v),
            None => listed_subvolumes(l.drop_last()),
        }
    }
}

/// What a list of subvolumes says.
pub open spec fn subvolume_views(v: Seq<Subvolume>) -> Seq<SubvolumeView> {
    v.map_values(|x: Subvolume| x@)
}

/// What the description of a subvolume gives: its number, its UUID and its size.
pub struct ShownView {
    pub id: u64,
    pub uuid: Seq<char>,
    pub size: u64,
}

/// What the lines of a description give, the later ones overriding the earlier.
pub open spec fn shown(l: Seq<Seq<char>>) -> ShownView
    decreases l.len(),
{
    if l.len() == 0 {
        ShownView { id: 0, uuid: Seq::empty(), size: 0 }
    } else {
        let before = shown(l.drop_last());
        let line = l.last();
        ShownView {
            id: if has(line, "Subvolume ID:"@) {
                field_number(line)
            } else {
                before.id
            },
            uuid: if has(line, "UUID:"@) {
                field_text(line, Seq::empty())
            } else {
                before.uuid
            },
            size: if has(line, "Size:"@) {
                spaced_size(field_text(line, Seq::empty()))
            } else {
                before.size
            },
        }
    }
}

/// Manager for btrfs subvolume operations.
#[derive(Debug)]
pub struct SubvolumeManager {
    base_path: String,
}

impl View for SubvolumeManager {
    type V = Seq<char>;

    /// The path that the subvolumes are below.
    closed spec fn view(&self) -> Seq<char> {
        self.base_path@
    }
}

impl SubvolumeManager {
    /// A manager of the subvolumes below a path.
    pub fn new(base_path: &str) -> (r: SubvolumeManager)
        ensures
            r@ == base_path@,
    {
        SubvolumeManager { base_path: base_path.to_owned() }
    }

    /// The path of a subvolume.
    pub fn path(&self, name: &str) -> (r: String)
        ensures
            r@ == below(self@, name@),
    {
        path_below(self.base_path.as_str(), name)
    }

    /// The command that creates a subvolume.
    pub fn create(&self, name: &str) -> (r: CommandLine)
        ensures
            r@ == btrfs_call("subvolume"@, seq!["create"@, below(self@, name@)]),
    {
        let path = self.path(name);
        let r = CommandLine::new("btrfs").arg("subvolume").arg("create").arg(path.as_str());
        assert(r@ =~= btrfs_call("subvolume"@, seq!["create"@, below(self@, name@)]));
        r
    }

    /// The command that deletes a subvolume.
    pub fn delete(&self, name: &str) -> (r: CommandLine)
        ensures
            r@ == btrfs_call("subvolume"@, seq!["delete"@, below(self@, name@)]),
    {
        let path = self.path(name);
        let r = CommandLine::new("btrfs").arg("subvolume").arg("delete").arg(path.as_str());
        assert(r@ =~= btrfs_call("subvolume"@, seq!["delete"@, below(self@, name@)]));
        r
    }

    /// The command that describes a subvolume.
    pub fn show(&self, name: &str) -> (r: CommandLine)
        ensures
            r@ == btrfs_call("subvolume"@, seq!["show"@, below(self@, name@)]),
    {
        let path = self.path(name);
        let r = CommandLine::new("btrfs").arg("subvolume").arg("show").arg(path.as_str());
        assert(r@ =~= btrfs_call("subvolume"@, seq!["show"@, below(self@, name@)]));
        r
    }

    /// Reads the description of a subvolume.
    pub fn get_info(&self, name: &str, output: &str) -> (r: Subvolume)
        ensures
            ({
                let d = shown(lines(output@));
                r@ == SubvolumeView {
                    id: d.id,
                    path: below(self@, name@),
                    name: name@,
                    size: d.size,
                    uuid: d.uuid,
                    parent_id: None,
                    created_at: None,
                }
            }),
    {
        let all = split_lines(output);
        let ghost l = lines(output@);
        let mut id: u64 = 0;
        let mut uuid: String = String::new();
        let mut size: u64 = 0;
        let mut i: usize = 0;
        assert(l.take(0) =~= Seq::<Seq<char>>::empty());
        assert(uuid@ =~= Seq::<char>::empty());
        while i < all.len()
            invariant
                i <= all@.len(),
                views(all@) == l,
                shown(l.take(i as int)) == (ShownView { id, uuid: uuid@, size }),
            decreases all@.len() - i,
        {
            let line = all[i];
            proof {
                assert(views(all@)[i as int] == line@);
                assert(l.take(i + 1).drop_last() =~= l.take(i as int));
                assert(l.take(i + 1).last() == line@);
                reveal_strlit("");
                assert(""@ =~= Seq::<char>::empty());
            }
            if contains(line, "Subvolume ID:") {
                id = read_field_number(line);
            }
            if contains(line, "UUID:") {
                uuid = read_field(line, "");
            }
            if contains(line, "Size:") {
                size = parse_size(read_field(line, "").as_str());
            }
            i += 1;
        }
        assert(l.take(i as int) =~= l);
        Subvolume {
            id,
            path: self.path(name),
            name: name.to_owned(),
            size,
            uuid,
            parent_id: None,
            created_at: None,
        }
    }

    /// The command that lists the subvolumes.
    pub fn list_command(&self) -> (r: CommandLine)
        ensures
            r@ == btrfs_call("subvolume"@, seq!["list"@, self@]),
    {
        let r = CommandLine::new("btrfs").arg("subvolume").arg("list").arg(
            self.base_path.as_str(),
        );
        assert(r@ =~= btrfs_call("subvolume"@, seq!["list"@, self@]));
        r
    }

    /// Reads a listing of subvolumes. Lines that describe none are passed over.
    pub fn list(&self, output: &str) -> (r: Vec<Subvolume>)
        ensures
            subvolume_views(r@) == listed_subvolumes(lines(output@)),
    {
        let all = split_lines(output);
        let ghost l = lines(output@);
        let mut r: Vec<Subvolume> = Vec::new();
        let mut i: usize = 0;
        assert(l.take(0) =~= Seq::<Seq<char>>::empty());
        assert(subvolume_views(r@) =~= Seq::<SubvolumeView>::empty());
        while i < all.len()
            invariant
                i <= all@.len(),
                views(all@) == l,
                subvolume_views(r@) == listed_subvolumes(l.take(i as int)),
            decreases all@.len() - i,
        {
            let ghost before = r@;
            proof {
                assert(views(all@)[i as int] == all@[i as int]@);
                assert(l.take(i + 1).drop_last() =~= l.take(i as int));
                assert(l.take(i + 1).last() == all@[i as int]@);
            }
            match parse_subvolume_line(all[i]) {
                Some(v) => {
                    r.push(v);
                    assert(subvolume_views(r@) =~= subvolume_views(before).push(v@));
                },
                None => {},
            }
            i += 1;
        }
        assert(l.take(i as int) =~= l);
        r
    }

    /// The size in the description of a subvolume.
    pub fn get_size(&self, name: &str, output: &str) -> (r: u64)
        ensures
            r == shown(lines(output@)).size,
    {
        self.get_info(name, output).size
    }

    /// The commands that switch copy-on-write off for a subvolume, in the order in which they
    /// are run.
    pub fn set_nocow(&self, name: &str) -> (r: (CommandLine, CommandLine))
        ensures
            r.0@ == (CommandView { program: "chattr"@, args: seq!["+C"@, below(self@, name@)] }),
            r.1@ == btrfs_call(
                "property"@,
                seq!["set"@, below(self@, name@), "nocow"@, "true"@],
            ),
    {
        let path = self.path(name);
        let first = CommandLine::new("chattr").arg("+C").arg(path.as_str());
        let second = CommandLine::new("btrfs").arg("property").arg("set").arg(path.as_str()).arg(
            "nocow",
        ).arg("true");
        assert(first@ =~= (CommandView {
            program: "chattr"@,
            args: seq!["+C"@, below(self@, name@)],
        }));
        assert(second@ =~= btrfs_call(
            "property"@,
            seq!["set"@, below(self@, name@), "nocow"@, "true"@],
        ));
        (first, second)
    }
}

} // verus!
