//! Names of volumes and snapshots.

use vstd::prelude::*;
use vstd::string::*;
use vstd::utf8::encode_utf8;

use crate::csi::error::{CsiError, CsiErrorView};
use crate::ops::commands::below;
use crate::ops::subvolume::last_part;
use crate::text::{
    chars_of, contains, fields, has, index_where, lemma_index_where, lemma_index_where_is, only,
};

verus! {

broadcast use vstd::string::group_string_axioms;

/// Whether a character may stand in a name.
pub open spec fn is_name_char(c: char) -> bool {
    ||| 'a' <= c <= 'z'
    ||| 'A' <= c <= 'Z'
    ||| '0' <= c <= '9'
    ||| c == '-'
    ||| c == '_'
    ||| c == '.'
}

/// The longest name in bytes.
pub const MAX_NAME_LEN: usize = 255;

/// What is wrong with a name, if something is. The first objection counts.
pub open spec fn name_objection(name: Seq<char>) -> Option<CsiErrorView> {
    if name.len() == 0 {
        Some(CsiErrorView::InvalidArgument("volume name must not be empty"@))
    } else if name.contains('\0') {
        Some(CsiErrorView::InvalidArgument("volume name must not contain null bytes"@))
    } else if has(name, ".."@) || name.contains('/') || name.contains('\\') {
        Some(
            CsiErrorView::InvalidArgument(
                "volume name must not contain path separators or '..': "@ + name,
            ),
        )
    } else if encode_utf8(name).len() > MAX_NAME_LEN {
        Some(CsiErrorView::InvalidArgument("volume name too long (max 255 chars)"@))
    } else if exists|i: int| 0 <= i < name.len() && !is_name_char(#[trigger] name[i]) {
        Some(
            CsiErrorView::InvalidArgument("volume name must only contain [a-zA-Z0-9._-]"@),
        )
    } else {
        None
    }
}

fn has_char(cs: &Vec<char>, c: char) -> (r: bool)
    ensures
        r == cs@.contains(c),
{
    let mut i: usize = 0;
    while i < cs.len()
        invariant
            i <= cs@.len(),
            forall|k: int| 0 <= k < i ==> cs@[k] != c,
        decreases cs@.len() - i,
    {
        if cs[i] == c {
            return true;
        }
        i += 1;
    }
    false
}

fn all_name_chars(cs: &Vec<char>) -> (r: bool)
    ensures
        r == !(exists|i: int| 0 <= i < cs@.len() && !is_name_char(#[trigger] cs@[i])),
{
    let mut i: usize = 0;
    while i < cs.len()
        invariant
            i <= cs@.len(),
            forall|k: int| 0 <= k < i ==> is_name_char(#[trigger] cs@[k]),
        decreases cs@.len() - i,
    {
        let c = cs[i];
        if !(('a' <= c && c <= 'z') || ('A' <= c && c <= 'Z') || ('0' <= c && c <= '9') || c == '-'
            || c == '_' || c == '.') {
            assert(!is_name_char(cs@[i as int]));
            return false;
        }
        i += 1;
    }
    true
}

/// Checks the name of a volume or snapshot: it must not lead out of its directory, must not be
/// empty or too long, and consists of letters, digits, dots, dashes and underscores.
pub fn validate_volume_name(name: &str) -> (r: Result<(), CsiError>)
    ensures
        r is Ok == name_objection(name@) is None,
        r matches Err(e) ==> name_objection(name@) == Some(e@),
{
    let cs = chars_of(name);
    if cs.len() == 0 {
        return Err(CsiError::InvalidArgument("volume name must not be empty".to_owned()));
    }
    if has_char(&cs, '\0') {
        return Err(CsiError::InvalidArgument("volume name must not contain null bytes".to_owned()));
    }
    if contains(name, "..") || has_char(&cs, '/') || has_char(&cs, '\\') {
        let mut e = "volume name must not contain path separators or '..': ".to_owned();
        e.append(name);
        return Err(CsiError::InvalidArgument(e));
    }
    if name.as_bytes().len() > MAX_NAME_LEN {
        return Err(CsiError::InvalidArgument("volume name too long (max 255 chars)".to_owned()));
    }
    if !all_name_chars(&cs) {
        return Err(
            CsiError::InvalidArgument("volume name must only contain [a-zA-Z0-9._-]".to_owned()),
        );
    }
    Ok(())
}

/// An accepted name has no path separator, no `..` and no null byte, and is neither empty nor
/// longer than allowed.
pub proof fn accepted_name_is_harmless(name: Seq<char>)
    requires
        name_objection(name) is None,
    ensures
        0 < name.len(),
        encode_utf8(name).len() <= MAX_NAME_LEN,
        !name.contains('/'),
        !name.contains('\\'),
        !name.contains('\0'),
        has(name, ".."@) == false,
        forall|i: int| 0 <= i < name.len() ==> is_name_char(#[trigger] name[i]),
{
}

/// The path of a subvolume with an accepted name leads into the directory of the volumes: its
/// last part is the name.
pub proof fn accepted_name_stays_in_directory(dir: Seq<char>, name: Seq<char>)
    requires
        name_objection(name) is None,
    ensures
        last_part(below(dir, name)) == name,
{
    reveal_strlit("/");
    assert("/"@ =~= seq!['/']);
    lemma_last_part(dir, name);
}

/// What follows the last slash of a path is its last part.
pub proof fn lemma_last_part(dir: Seq<char>, name: Seq<char>)
    requires
        !name.contains('/'),
    ensures
        last_part(dir + seq!['/'] + name) == name,
    decreases dir.len(),
{
    let s = dir + seq!['/'] + name;
    let p = only('/');
    lemma_index_where(s, p);
    let i = index_where(s, p);
    assert(s[dir.len() as int] == '/');
    assert(i <= dir.len()) by {
        if i > dir.len() {
            assert(!p(s[dir.len() as int]));
        }
    }
    let rest = s.skip(i + 1);
    if i < dir.len() {
        let d = dir.skip(i + 1);
        assert(rest =~= d + seq!['/'] + name);
        lemma_last_part(d, name);
        assert(fields(s, '/').last() == fields(rest, '/').last()) by {
            assert(fields(s, '/') == seq![s.take(i)] + fields(rest, '/'));
            lemma_fields_nonempty(rest);
        }
    } else {
        assert(rest =~= name);
        assert forall|k: int| 0 <= k < name.len() implies !p(#[trigger] name[k]) by {
            if name[k] == '/' {
                assert(name.contains('/'));
            }
        }
        lemma_index_where_is(name, p, name.len() as int);
        assert(fields(name, '/') == seq![name]);
        assert(fields(s, '/') == seq![s.take(i)] + fields(rest, '/'));
    }
}

proof fn lemma_fields_nonempty(s: Seq<char>)
    ensures
        fields(s, '/').len() > 0,
{
}

} // verus!
