//! The list of the nodes on which a volume is published, kept as text.

use vstd::prelude::*;
use vstd::string::*;

use crate::exchange::replicator::{lemma_without, list_without, remove_member};
use crate::text::{
    fields, index_where, joined, join_strings, lemma_index_where, lemma_index_where_is,
    list_contains, only, opt_view, split_fields, string_views, trim, trimmed, views,
};

verus! {

broadcast use vstd::string::group_string_axioms;

/// The nodes that a text lists: what stands between its commas, without the spaces around it. No
/// text and an empty text list none.
pub open spec fn listed_nodes(attr: Option<Seq<char>>) -> Seq<Seq<char>> {
    match attr {
        Some(s) => if s.len() == 0 {
            Seq::empty()
        } else {
            fields(s, ',').map_values(|x: Seq<char>| trimmed(x))
        },
        None => Seq::empty(),
    }
}

/// Reads the nodes on which a volume is published.
pub fn get_published_nodes(attr: &Option<String>) -> (r: Vec<String>)
    ensures
        string_views(r@) == listed_nodes(opt_view(*attr)),
{
    let mut r: Vec<String> = Vec::new();
    match attr {
        Some(s) => {
            if s.as_str().unicode_len() == 0 {
                assert(string_views(r@) =~= Seq::<Seq<char>>::empty());
                return r;
            }
            let parts = split_fields(s.as_str(), ',');
            let ghost all = listed_nodes(Some(s@));
            let mut i: usize = 0;
            assert(string_views(r@) =~= all.take(0));
            while i < parts.len()
                invariant
                    i <= parts@.len(),
                    all == fields(s@, ',').map_values(|x: Seq<char>| trimmed(x)),
                    views(parts@) == fields(s@, ','),
                    string_views(r@) == all.take(i as int),
                decreases parts@.len() - i,
            {
                let ghost before = r@;
                let x = trim(parts[i]).to_owned();
                r.push(x);
                proof {
                    assert(views(parts@)[i as int] == parts@[i as int]@);
                    assert(string_views(r@) =~= string_views(before).push(x@));
                    assert(all.take(i + 1) =~= all.take(i as int).push(all[i as int]));
                }
                i += 1;
            }
            assert(all.take(i as int) =~= all);
            r
        },
        None => {
            assert(string_views(r@) =~= Seq::<Seq<char>>::empty());
            r
        },
    }
}

/// The list with a node, which is added at the end if it is not there.
pub open spec fn with_node(nodes: Seq<Seq<char>>, node: Seq<char>) -> Seq<Seq<char>> {
    if nodes.contains(node) {
        nodes
    } else {
        nodes.push(node)
    }
}

/// The list without a node.
pub open spec fn without_node(nodes: Seq<Seq<char>>, node: Seq<char>) -> Seq<Seq<char>> {
    list_without(nodes, node)
}

/// The text to store after a node was added, if the list has changed.
pub fn add_published_node(attr: &Option<String>, node_id: &str) -> (r: Option<String>)
    ensures
        ({
            let nodes = listed_nodes(opt_view(*attr));
            &&& r is None == nodes.contains(node_id@)
            &&& r matches Some(s) ==> s@ == joined(with_node(nodes, node_id@), ","@)
        }),
{
    let mut nodes = get_published_nodes(attr);
    if list_contains(&nodes, node_id) {
        return None;
    }
    let ghost before = nodes@;
    nodes.push(node_id.to_owned());
    assert(string_views(nodes@) =~= string_views(before).push(node_id@));
    Some(join_strings(&nodes, ","))
}

/// The text to store after a node was removed. Without a text the attribute is removed: no node
/// is left.
pub fn remove_published_node(attr: &Option<String>, node_id: &str) -> (r: Option<String>)
    ensures
        ({
            let nodes = without_node(listed_nodes(opt_view(*attr)), node_id@);
            &&& r is None == (nodes.len() == 0)
            &&& r matches Some(s) ==> s@ == joined(nodes, ","@)
        }),
{
    let nodes = get_published_nodes(attr);
    let remaining = remove_member(&nodes, node_id);
    assert(string_views(remaining@).len() == remaining@.len());
    if remaining.len() == 0 {
        None
    } else {
        Some(join_strings(&remaining, ","))
    }
}

/// Whether a node's identifier survives being listed: it has no comma, is not empty, and has no
/// spaces around it.
pub open spec fn is_listable(id: Seq<char>) -> bool {
    &&& id.len() > 0
    &&& !id.contains(',')
    &&& trimmed(id) == id
}

proof fn lemma_fields_append(s: Seq<char>, x: Seq<char>)
    requires
        !x.contains(','),
    ensures
        fields(s + seq![','] + x, ',') == fields(s, ',').push(x),
    decreases s.len(),
{
    let p = only(',');
    let t = s + seq![','] + x;
    lemma_index_where(s, p);
    let i = index_where(s, p);
    if i < s.len() {
        assert forall|k: int| 0 <= k < i implies !p(#[trigger] t[k]) by {
            assert(t[k] == s[k]);
        }
        assert(t[i] == s[i]);
        lemma_index_where_is(t, p, i);
        let rest = s.skip(i + 1);
        lemma_fields_append(rest, x);
        assert(t.skip(i + 1) =~= rest + seq![','] + x);
        assert(t.take(i) =~= s.take(i));
        assert(fields(t, ',') == seq![s.take(i)] + fields(rest, ',').push(x));
        assert(fields(s, ',').push(x) =~= seq![s.take(i)] + fields(rest, ',').push(x));
    } else {
        assert forall|k: int| 0 <= k < s.len() implies !p(#[trigger] t[k]) by {
            assert(t[k] == s[k]);
        }
        assert(t[s.len() as int] == ',');
        lemma_index_where_is(t, p, s.len() as int);
        assert(t.take(s.len() as int) =~= s);
        assert(t.skip(s.len() as int + 1) =~= x);
        assert forall|k: int| 0 <= k < x.len() implies !p(#[trigger] x[k]) by {
            if x[k] == ',' {
                assert(x.contains(','));
            }
        }
        lemma_index_where_is(x, p, x.len() as int);
        assert(fields(x, ',') == seq![x]);
        assert(fields(s, ',') == seq![s]);
        assert(fields(t, ',') =~= seq![s].push(x));
    }
}

/// A stored list reads back: the nodes that were joined into a text are the nodes that the text
/// lists.
pub proof fn stored_nodes_read_back(nodes: Seq<Seq<char>>)
    requires
        nodes.len() > 0,
        forall|i: int| 0 <= i < nodes.len() ==> is_listable(#[trigger] nodes[i]),
    ensures
        listed_nodes(Some(joined(nodes, ","@))) == nodes,
{
    reveal_strlit(",");
    assert(","@ =~= seq![',']);
    lemma_joined_fields(nodes);
    let s = joined(nodes, ","@);
    let f = fields(s, ',').map_values(|x: Seq<char>| trimmed(x));
    assert forall|i: int| 0 <= i < nodes.len() implies #[trigger] f[i] == nodes[i] by {
        assert(is_listable(nodes[i]));
    }
    assert(f =~= nodes);
}

proof fn lemma_joined_fields(nodes: Seq<Seq<char>>)
    requires
        nodes.len() > 0,
        forall|i: int| 0 <= i < nodes.len() ==> is_listable(#[trigger] nodes[i]),
    ensures
        fields(joined(nodes, seq![',']), ',') == nodes,
        joined(nodes, seq![',']).len() > 0,
    decreases nodes.len(),
{
    let x = nodes.last();
    assert(is_listable(nodes[nodes.len() - 1]));
    if nodes.len() == 1 {
        let p = only(',');
        assert forall|k: int| 0 <= k < x.len() implies !p(#[trigger] x[k]) by {
            if x[k] == ',' {
                assert(x.contains(','));
            }
        }
        lemma_index_where_is(x, p, x.len() as int);
        assert(fields(x, ',') =~= seq![x]);
        assert(nodes =~= seq![x]);
    } else {
        let t = nodes.drop_last();
        assert forall|i: int| 0 <= i < t.len() implies is_listable(#[trigger] t[i]) by {
            assert(t[i] == nodes[i]);
        }
        lemma_joined_fields(t);
        lemma_fields_append(joined(t, seq![',']), x);
        assert(t.push(x) =~= nodes);
    }
}

/// Publishing on a node that is listed changes nothing, and a node that was published on is
/// listed.
pub proof fn publishing_lists_the_node(nodes: Seq<Seq<char>>, node: Seq<char>)
    ensures
        with_node(nodes, node).contains(node),
        with_node(with_node(nodes, node), node) == with_node(nodes, node),
{
    if !nodes.contains(node) {
        let n = nodes.push(node);
        assert(n[n.len() - 1] == node);
    }
}

/// A node that was removed is not listed any more, and the others stay.
pub proof fn unpublishing_removes_the_node(
    nodes: Seq<Seq<char>>,
    node: Seq<char>,
    other: Seq<char>,
)
    ensures
        !without_node(nodes, node).contains(node),
        other != node ==> without_node(nodes, node).contains(other) == nodes.contains(other),
{
    lemma_without(nodes, node, node);
    lemma_without(nodes, node, other);
}

} // verus!
