//! Pages of long lists.

use vstd::prelude::*;
use vstd::string::*;

use crate::number::{decimal, decimal_reads_back, parse_usize, u64_text, unsigned_value};

verus! {

broadcast use vstd::string::group_string_axioms;

/// The place at which a page starts, by the token of the request: the first place where the token
/// is no number.
pub open spec fn page_start(token: Seq<char>) -> nat {
    match unsigned_value(token, usize::MAX as nat) {
        Some(n) => n,
        None => 0,
    }
}

/// Whether a page of at most `max_entries` entries ends before the list does. Without a limit it
/// never does.
pub open spec fn is_cut(len: nat, start: nat, max_entries: i32) -> bool {
    max_entries > 0 && len > start + max_entries
}

/// The entries of a page.
pub open spec fn page_of<T>(s: Seq<T>, start: nat, max_entries: i32) -> Seq<T> {
    if is_cut(s.len(), start, max_entries) {
        s.subrange(start as int, start + max_entries)
    } else if start < s.len() {
        s.skip(start as int)
    } else {
        Seq::empty()
    }
}

/// The token of the page behind a page: empty where there is none.
pub open spec fn next_token(len: nat, start: nat, max_entries: i32) -> Seq<char> {
    if is_cut(len, start, max_entries) {
        decimal((start + max_entries) as nat)
    } else {
        Seq::empty()
    }
}

/// The bounds of a page, and the token of the page behind it.
pub fn page(len: usize, starting_token: &str, max_entries: i32) -> (r: (usize, usize, String))
    ensures
        ({
            let start = page_start(starting_token@);
            &&& r.0 <= r.1 <= len
            &&& r.0 == if start < len {
                start
            } else {
                len as nat
            }
            &&& r.1 == if is_cut(len as nat, start, max_entries) {
                (start + max_entries) as nat
            } else {
                len as nat
            }
            &&& r.2@ == next_token(len as nat, start, max_entries)
        }),
{
    let start: usize = match parse_usize(starting_token) {
        Some(n) => n,
        None => 0,
    };
    let cut = max_entries > 0 && start < len && len - start > max_entries as usize;
    let from: usize = if start < len {
        start
    } else {
        len
    };
    let to: usize = if cut {
        start + max_entries as usize
    } else {
        len
    };
    let token = if cut {
        u64_text(to as u64)
    } else {
        String::new()
    };
    proof {
        assert(!cut ==> token@ =~= Seq::<char>::empty());
    }
    (from, to, token)
}

/// The bounds of a page cut it out of the list.
pub proof fn lemma_page_bounds<T>(s: Seq<T>, start: nat, max_entries: i32, from: int, to: int)
    requires
        from == if start < s.len() {
            start as int
        } else {
            s.len() as int
        },
        to == if is_cut(s.len(), start, max_entries) {
            start + max_entries
        } else {
            s.len() as int
        },
    ensures
        s.subrange(from, to) == page_of(s, start, max_entries),
{
    assert(s.subrange(from, to) =~= page_of(s, start, max_entries));
}

/// The entries that come when the pages are read one after the other, from a place on.
pub open spec fn all_pages<T>(s: Seq<T>, start: nat, max_entries: i32) -> Seq<T>
    decreases s.len() - start,
    when s.len() <= usize::MAX
{
    proof {
        if is_cut(s.len(), start, max_entries) {
            decimal_reads_back((start + max_entries) as nat, usize::MAX as nat);
        }
    }
    if is_cut(s.len(), start, max_entries) {
        page_of(s, start, max_entries) + all_pages(
            s,
            page_start(next_token(s.len(), start, max_entries)),
            max_entries,
        )
    } else {
        page_of(s, start, max_entries)
    }
}

/// Reading page after page by their tokens gives every entry once, in order.
pub proof fn pages_give_the_whole_list<T>(s: Seq<T>, start: nat, max_entries: i32)
    requires
        s.len() <= usize::MAX,
        start <= s.len(),
    ensures
        all_pages(s, start, max_entries) == s.skip(start as int),
    decreases s.len() - start,
{
    if is_cut(s.len(), start, max_entries) {
        let next = (start + max_entries) as nat;
        decimal_reads_back(next, usize::MAX as nat);
        assert(page_start(next_token(s.len(), start, max_entries)) == next);
        pages_give_the_whole_list(s, next, max_entries);
        assert(s.subrange(start as int, next as int) + s.skip(next as int) =~= s.skip(
            start as int,
        ));
    } else if start == s.len() {
        assert(s.skip(start as int) =~= Seq::<T>::empty());
    }
}

/// The first page has no token, and its pages give the whole list.
pub proof fn listing_is_complete<T>(s: Seq<T>, max_entries: i32)
    requires
        s.len() <= usize::MAX,
    ensures
        all_pages(s, page_start(Seq::empty()), max_entries) == s,
{
    pages_give_the_whole_list(s, 0, max_entries);
    assert(s.skip(0) =~= s);
}

} // verus!
