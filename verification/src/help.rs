//! Help: the rows of one level of the command tree, and how they are printed.
//!
//! Listing the whole tree flat becomes unreadable as soon as there are a few
//! commands, so help lists one level at a time with branches folded as
//! `(on|off)`; `help proxy` looks one level further down. Folding is done by
//! the command tree itself; this module finds the way along a path, puts the
//! path in front of each row, orders the rows and lays them out.

use vstd::prelude::*;
use vstd::string::*;
use vstd::utf8::*;

use crate::util::{has_prefix, is_white_space, split_whitespace, strip_leading, strip_matches, strip_trailing, trim, trim_spec, words};

verus! {

broadcast use {vstd::utf8::encode_utf8_valid_utf8, vstd::seq_lib::group_to_multiset_ensures};

/// One row of help.
#[derive(Debug, Clone, PartialEq, Eq)]
pub struct Usage {
    /// The usage, such as `proxy (off|on)`: branches folded, path in front.
    pub usage: String,
    /// What the node says of itself.
    pub description: Option<String>,
}

/// The name that a token of a path stands for. Arguments are printed as
/// `<message>` in usage lines, and a path copied out of one is understood.
pub open spec fn path_name_spec(token: Seq<char>) -> Seq<char> {
    strip_trailing(strip_leading(token, '<'), '>')
}

/// The name that a token of a path stands for.
pub fn path_token_name(token: &str) -> (name: &str)
    ensures
        name@ == path_name_spec(token@),
{
    strip_matches(token, '<', '>')
}

/// A path copied out of a usage line is understood: an argument printed as
/// `<name>` names the same node as `name` itself.
pub proof fn a_usage_token_names_its_node(name: Seq<char>)
    requires
        name.len() > 0 ==> name[0] != '<' && name.last() != '>',
    ensures
        path_name_spec("<"@ + name + ">"@) == name,
        path_name_spec(name) == name,
{
    reveal_strlit("<");
    reveal_strlit(">");
    let wrapped = "<"@ + name + ">"@;
    let opened = name + ">"@;
    assert(wrapped.drop_first() =~= opened);
    assert(opened.drop_last() =~= name);
    assert(strip_leading(wrapped, '<') == strip_leading(opened, '<'));
    assert(strip_leading(opened, '<') == opened) by {
        assert(opened[0] != '<');
    }
    assert(strip_trailing(opened, '>') == strip_trailing(name, '>'));
    assert(strip_trailing(name, '>') == name);
    assert(strip_leading(name, '<') == name);
}

/// The names along a path, from the root: `"log level <level>"` walks
/// `log`, `level`, `level`.
pub fn path_names(path: &str) -> (names: Vec<String>)
    ensures
        names@.map_values(|n: String| n@) == words(path@).map_values(|w: Seq<char>| path_name_spec(w)),
{
    let tokens = split_whitespace(path);
    let mut names: Vec<String> = Vec::new();
    let mut i: usize = 0;
    while i < tokens.len()
        invariant
            i <= tokens@.len(),
            tokens@.map_values(|w: String| w@) == words(path@),
            names@.len() == i,
            forall|j: int| 0 <= j < i ==> #[trigger] names@[j]@ == path_name_spec(tokens@[j]@),
        decreases tokens@.len() - i,
    {
        let name = path_token_name(tokens[i].as_str()).to_owned();
        names.push(name);
        i = i + 1;
    }
    proof {
        let lhs = names@.map_values(|n: String| n@);
        let rhs = words(path@).map_values(|w: Seq<char>| path_name_spec(w));
        let toks = tokens@.map_values(|w: String| w@);
        assert forall|j: int| 0 <= j < lhs.len() implies lhs[j] == rhs[j] by {
            assert(words(path@)[j] == toks[j]);
        }
        assert(lhs =~= rhs);
    }
    names
}

/// A node of the command tree as a help path walks it: whether the source
/// may use it, and its children, each by name with its index in the tree.
#[derive(Debug, Clone, PartialEq, Eq)]
pub struct PathNode {
    pub usable: bool,
    pub children: Vec<(String, usize)>,
}

/// The index of the child of that name, if there is one (the first one, if
/// several share it).
pub open spec fn child_named(children: Seq<(String, usize)>, name: Seq<char>) -> Option<usize>
    decreases children.len(),
{
    if children.len() == 0 {
        None
    } else if children[0].0@ == name {
        Some(children[0].1)
    } else {
        child_named(children.drop_first(), name)
    }
}

/// Where the names lead from node `at`: each name must be a child of the node
/// reached so far, and one that the source may use.
pub open spec fn walk_spec(tree: Seq<PathNode>, at: int, names: Seq<Seq<char>>) -> Option<int>
    decreases names.len(),
{
    if names.len() == 0 {
        Some(at)
    } else {
        match child_named(tree[at].children@, names[0]) {
            Some(c) => if c < tree.len() && tree[c as int].usable {
                walk_spec(tree, c as int, names.drop_first())
            } else {
                None
            },
            None => None,
        }
    }
}

/// The names that a help path is made of, one for each of its words.
pub open spec fn path_names_spec(path: Seq<char>) -> Seq<Seq<char>> {
    words(path).map_values(|w: Seq<char>| path_name_spec(w))
}

/// The node that a help path leads to from the root (node 0); arguments may
/// be written as `<name>`.
pub open spec fn resolve_spec(tree: Seq<PathNode>, path: Seq<char>) -> Option<int> {
    if tree.len() == 0 {
        None
    } else {
        walk_spec(tree, 0, path_names_spec(path))
    }
}

/// Whether `nodes` is a way down the tree along `names`: each next node is
/// in the tree, is the child of that name of the node before it, and is one
/// that the source may use.
pub open spec fn is_way(tree: Seq<PathNode>, nodes: Seq<int>, names: Seq<Seq<char>>) -> bool {
    &&& nodes.len() == names.len() + 1
    &&& 0 <= nodes[0] < tree.len()
    &&& forall|k: int|
        #![trigger names[k]]
        0 <= k < names.len() ==> {
            &&& 0 <= nodes[k + 1] < tree.len()
            &&& child_named(tree[nodes[k]].children@, names[k]) matches Some(c) && c as int == nodes[k + 1]
            &&& tree[nodes[k + 1]].usable
        }
}

/// A help path leads somewhere exactly along a way of usable nodes: when the
/// walk from `at` ends at `j`, every node that a name leads to on the way
/// there (each one in between as well as the last) may be used; and every
/// such way is what the walk takes.
pub proof fn a_help_path_passes_only_usable_nodes(tree: Seq<PathNode>, at: int, names: Seq<Seq<char>>)
    requires
        0 <= at < tree.len(),
    ensures
        walk_spec(tree, at, names) matches Some(j) ==> exists|nodes: Seq<int>|
            #[trigger] is_way(tree, nodes, names) && nodes[0] == at && nodes.last() == j,
        forall|nodes: Seq<int>|
            #[trigger] is_way(tree, nodes, names) && nodes[0] == at ==> walk_spec(tree, at, names) == Some(
                nodes.last(),
            ),
    decreases names.len(),
{
    if names.len() == 0 {
        if walk_spec(tree, at, names) is Some {
            let nodes = seq![at];
            assert(is_way(tree, nodes, names));
        }
    } else {
        match child_named(tree[at].children@, names[0]) {
            Some(c) => {
                if c < tree.len() {
                    a_help_path_passes_only_usable_nodes(tree, c as int, names.drop_first());
                    if tree[c as int].usable {
                        if walk_spec(tree, at, names) is Some {
                            let j = walk_spec(tree, at, names)->0;
                            let rest = choose|nodes: Seq<int>|
                                #[trigger] is_way(tree, nodes, names.drop_first()) && nodes[0] == c as int
                                    && nodes.last() == j;
                            let nodes = seq![at] + rest;
                            assert forall|k: int| #![trigger names[k]] 0 <= k < names.len() implies {
                                &&& 0 <= nodes[k + 1] < tree.len()
                                &&& child_named(tree[nodes[k]].children@, names[k]) matches Some(x) && x as int == nodes[k + 1]
                                &&& tree[nodes[k + 1]].usable
                            } by {
                                if k > 0 {
                                    assert(names[k] == names.drop_first()[k - 1]);
                                    assert(nodes[k] == rest[k - 1]);
                                    assert(nodes[k + 1] == rest[k]);
                                } else {
                                    assert(nodes[1] == rest[0]);
                                }
                            }
                            assert(is_way(tree, nodes, names));
                            assert(nodes.last() == rest.last());
                        }
                    }
                }
                assert forall|nodes: Seq<int>| #[trigger] is_way(tree, nodes, names) && nodes[0] == at implies walk_spec(
                    tree,
                    at,
                    names,
                ) == Some(nodes.last()) by {
                    assert(names[0] == names[0]);
                    let rest = nodes.drop_first();
                    assert(nodes[1] == c as int);
                    assert forall|k: int| #![trigger names.drop_first()[k]] 0 <= k < names.drop_first().len() implies {
                        &&& 0 <= rest[k + 1] < tree.len()
                        &&& child_named(tree[rest[k]].children@, names.drop_first()[k]) matches Some(x) && x as int == rest[k + 1]
                        &&& tree[rest[k + 1]].usable
                    } by {
                        assert(names.drop_first()[k] == names[k + 1]);
                        assert(rest[k] == nodes[k + 1]);
                        assert(rest[k + 1] == nodes[k + 2]);
                    }
                    assert(is_way(tree, rest, names.drop_first()));
                    assert(rest.last() == nodes.last());
                }
            },
            None => {
                assert forall|nodes: Seq<int>| #[trigger] is_way(tree, nodes, names) && nodes[0] == at implies false by {
                    assert(names[0] == names[0]);
                }
            },
        }
    }
}

fn child_index(children: &Vec<(String, usize)>, name: &String) -> (found: Option<usize>)
    ensures
        found == child_named(children@, name@),
{
    let mut i: usize = 0;
    proof {
        assert(children@.skip(0) =~= children@);
    }
    while i < children.len()
        invariant
            i <= children@.len(),
            child_named(children@, name@) == child_named(children@.skip(i as int), name@),
        decreases children@.len() - i,
    {
        proof {
            assert(children@.skip(i as int).drop_first() =~= children@.skip(i + 1));
            assert(children@.skip(i as int)[0] == children@[i as int]);
        }
        if children[i].0 == *name {
            return Some(children[i].1);
        }
        i = i + 1;
    }
    None
}

/// Walk a help path from the root of the tree: the node it leads to, or
/// nothing when a name is no child of the node reached so far, or names one
/// that the source may not use. The root itself is not asked.
pub fn resolve_path(tree: &Vec<PathNode>, path: &str) -> (node: Option<usize>)
    ensures
        match node {
            Some(i) => resolve_spec(tree@, path@) == Some(i as int) && i < tree@.len(),
            None => resolve_spec(tree@, path@) is None,
        },
        node matches Some(i) ==> exists|nodes: Seq<int>|
            #[trigger] is_way(tree@, nodes, path_names_spec(path@))
                && nodes[0] == 0 && nodes.last() == i as int,
        node is None ==> forall|nodes: Seq<int>|
            #[trigger] is_way(tree@, nodes, path_names_spec(path@))
                ==> nodes[0] != 0,
{
    if tree.len() == 0 {
        return None;
    }
    proof {
        a_help_path_passes_only_usable_nodes(tree@, 0, path_names_spec(path@));
    }
    let names = path_names(path);
    let ghost all = names@.map_values(|n: String| n@);
    let mut at: usize = 0;
    let mut i: usize = 0;
    proof {
        assert(all.skip(0) =~= all);
    }
    while i < names.len()
        invariant
            tree@.len() > 0,
            at < tree@.len(),
            i <= names@.len(),
            all == names@.map_values(|n: String| n@),
            all == words(path@).map_values(|w: Seq<char>| path_name_spec(w)),
            walk_spec(tree@, 0, all) == walk_spec(tree@, at as int, all.skip(i as int)),
        decreases names@.len() - i,
    {
        let ghost rest = all.skip(i as int);
        proof {
            a_help_path_passes_only_usable_nodes(tree@, 0, path_names_spec(path@));
            assert(rest[0] == names@[i as int]@);
            assert(rest.drop_first() =~= all.skip(i + 1));
        }
        match child_index(&tree[at].children, &names[i]) {
            Some(c) => {
                if c < tree.len() && tree[c].usable {
                    at = c;
                } else {
                    return None;
                }
            },
            None => {
                return None;
            },
        }
        i = i + 1;
    }
    proof {
        assert(all.skip(i as int) =~= Seq::<Seq<char>>::empty());
    }
    Some(at)
}

/// A usage line under `path`: the trimmed path in front, unless there is none.
pub open spec fn usage_line_spec(path: Seq<char>, usage: Seq<char>) -> Seq<char> {
    if trim_spec(path).len() == 0 {
        usage
    } else {
        trim_spec(path) + " "@ + usage
    }
}

/// The row as printed under `path`, so that a drill-down keeps its path.
pub fn usage_line(path: &str, usage: &str) -> (line: String)
    ensures
        line@ == usage_line_spec(path@, usage@),
{
    let trimmed = trim(path);
    if trimmed.unicode_len() == 0 {
        usage.to_owned()
    } else {
        let mut line = trimmed.to_owned();
        line.append(" ");
        line.append(usage);
        proof {
            reveal_strlit(" ");
        }
        line
    }
}

/// Byte order of texts, the order of `str`: lexicographic on the UTF-8 bytes.
pub open spec fn bytes_le(a: Seq<u8>, b: Seq<u8>) -> bool
    decreases a.len(),
{
    if a.len() == 0 {
        true
    } else if b.len() == 0 {
        false
    } else if a[0] != b[0] {
        a[0] < b[0]
    } else {
        bytes_le(a.drop_first(), b.drop_first())
    }
}

pub proof fn lemma_bytes_le_total(a: Seq<u8>, b: Seq<u8>)
    ensures
        bytes_le(a, b) || bytes_le(b, a),
    decreases a.len(),
{
    if a.len() > 0 && b.len() > 0 && a[0] == b[0] {
        lemma_bytes_le_total(a.drop_first(), b.drop_first());
    }
}

pub proof fn lemma_bytes_le_transitive(a: Seq<u8>, b: Seq<u8>, c: Seq<u8>)
    requires
        bytes_le(a, b),
        bytes_le(b, c),
    ensures
        bytes_le(a, c),
    decreases a.len(),
{
    if a.len() > 0 && b.len() > 0 && c.len() > 0 && a[0] == b[0] && b[0] == c[0] {
        lemma_bytes_le_transitive(a.drop_first(), b.drop_first(), c.drop_first());
    }
}

/// Whether `a` comes no later than `b` in byte order.
pub fn text_le(a: &str, b: &str) -> (le: bool)
    ensures
        le == bytes_le(a.spec_bytes(), b.spec_bytes()),
{
    let x = a.as_bytes();
    let y = b.as_bytes();
    let mut i: usize = 0;
    while i < x.len() && i < y.len() && x[i] == y[i]
        invariant
            x@ == a.spec_bytes(),
            y@ == b.spec_bytes(),
            i <= x@.len(),
            i <= y@.len(),
            x@.subrange(0, i as int) == y@.subrange(0, i as int),
        decreases x@.len() - i,
    {
        assert(x@.subrange(0, i + 1) =~= x@.subrange(0, i as int).push(x@[i as int]));
        assert(y@.subrange(0, i + 1) =~= y@.subrange(0, i as int).push(y@[i as int]));
        i = i + 1;
    }
    proof {
        lemma_bytes_le_skip(x@, y@, i as int);
    }
    if i == x.len() {
        true
    } else if i == y.len() {
        false
    } else {
        x[i] < y[i]
    }
}

proof fn lemma_bytes_le_skip(a: Seq<u8>, b: Seq<u8>, i: int)
    requires
        0 <= i <= a.len(),
        i <= b.len(),
        a.subrange(0, i) == b.subrange(0, i),
    ensures
        bytes_le(a, b) == bytes_le(a.subrange(i, a.len() as int), b.subrange(i, b.len() as int)),
    decreases i,
{
    if i == 0 {
        assert(a.subrange(0, a.len() as int) =~= a);
        assert(b.subrange(0, b.len() as int) =~= b);
    } else {
        assert(a[0] == a.subrange(0, i)[0]);
        assert(b[0] == b.subrange(0, i)[0]);
        assert(a.drop_first().subrange(0, i - 1) =~= a.subrange(0, i).drop_first());
        assert(b.drop_first().subrange(0, i - 1) =~= b.subrange(0, i).drop_first());
        lemma_bytes_le_skip(a.drop_first(), b.drop_first(), i - 1);
        assert(a.drop_first().subrange(i - 1, a.drop_first().len() as int) =~= a.subrange(
            i,
            a.len() as int,
        ));
        assert(b.drop_first().subrange(i - 1, b.drop_first().len() as int) =~= b.subrange(
            i,
            b.len() as int,
        ));
    }
}

/// Rows in the order of their usage text.
pub open spec fn rows_sorted(rows: Seq<Usage>) -> bool {
    forall|i: int, j: int|
        0 <= i < j < rows.len() ==> bytes_le(
            encode_utf8(#[trigger] rows[i].usage@),
            encode_utf8(#[trigger] rows[j].usage@),
        )
}

/// The rows whose usage text is `key`, in their order.
pub open spec fn with_usage(rows: Seq<Usage>, key: Seq<char>) -> Seq<Usage>
    decreases rows.len(),
{
    if rows.len() == 0 {
        Seq::empty()
    } else if rows.last().usage@ == key {
        with_usage(rows.drop_last(), key).push(rows.last())
    } else {
        with_usage(rows.drop_last(), key)
    }
}

proof fn lemma_with_usage_concat(a: Seq<Usage>, b: Seq<Usage>, key: Seq<char>)
    ensures
        with_usage(a + b, key) == with_usage(a, key) + with_usage(b, key),
    decreases b.len(),
{
    if b.len() == 0 {
        assert(a + b =~= a);
        assert(with_usage(a, key) + Seq::<Usage>::empty() =~= with_usage(a, key));
    } else {
        lemma_with_usage_concat(a, b.drop_last(), key);
        assert((a + b).drop_last() =~= a + b.drop_last());
        assert((a + b).last() == b.last());
        if b.last().usage@ == key {
            assert(with_usage(a, key) + with_usage(b.drop_last(), key).push(b.last()) =~= (with_usage(a, key)
                + with_usage(b.drop_last(), key)).push(b.last()));
        }
    }
}

proof fn lemma_with_usage_none(rows: Seq<Usage>, key: Seq<char>)
    requires
        forall|k: int| 0 <= k < rows.len() ==> (#[trigger] rows[k]).usage@ != key,
    ensures
        with_usage(rows, key) == Seq::<Usage>::empty(),
    decreases rows.len(),
{
    if rows.len() > 0 {
        assert(rows.last() == rows[rows.len() - 1]);
        lemma_with_usage_none(rows.drop_last(), key);
    }
}

proof fn lemma_bytes_le_reflexive(a: Seq<u8>)
    ensures
        bytes_le(a, a),
    decreases a.len(),
{
    if a.len() > 0 {
        lemma_bytes_le_reflexive(a.drop_first());
    }
}

/// Put the rows in the order of their usage text, so that two calls give the
/// same order: the same rows, each as often as before, sorted.
pub fn sort_rows(rows: Vec<Usage>) -> (sorted: Vec<Usage>)
    ensures
        sorted@.to_multiset() == rows@.to_multiset(),
        rows_sorted(sorted@),
        // Stable: rows with the same usage text keep their order.
        forall|key: Seq<char>| #[trigger] with_usage(sorted@, key) == with_usage(rows@, key),
{
    let mut sorted: Vec<Usage> = Vec::new();
    let mut rest = rows;
    let ghost given = rest@;
    let ghost mut done: int = 0;
    proof {
        assert(given =~= sorted@ + given);
        assert(given.skip(0) =~= given);
        assert forall|key: Seq<char>| #[trigger] with_usage(sorted@, key) == with_usage(given.take(0), key) by {
            assert(given.take(0) =~= Seq::<Usage>::empty());
        }
    }
    while rest.len() > 0
        invariant
            rows_sorted(sorted@),
            sorted@.to_multiset().add(rest@.to_multiset()) == given.to_multiset(),
            0 <= done <= given.len(),
            rest@ == given.skip(done),
            forall|key: Seq<char>| #[trigger] with_usage(sorted@, key) == with_usage(given.take(done), key),
        decreases rest@.len(),
    {
        let ghost before_rest = rest@;
        let row = rest.remove(0);
        // Find the first row that comes strictly after `row`; insert before it.
        let mut p: usize = 0;
        while p < sorted.len() && text_le(sorted[p].usage.as_str(), row.usage.as_str())
            invariant
                p <= sorted@.len(),
                forall|k: int| 0 <= k < p ==> bytes_le(
                    encode_utf8(#[trigger] sorted@[k].usage@),
                    encode_utf8(row.usage@),
                ),
            decreases sorted@.len() - p,
        {
            p = p + 1;
        }
        proof {
            if p < sorted@.len() {
                lemma_bytes_le_total(encode_utf8(sorted@[p as int].usage@), encode_utf8(row.usage@));
                assert forall|k: int| p <= k < sorted@.len() implies bytes_le(
                    encode_utf8(row.usage@),
                    encode_utf8(#[trigger] sorted@[k].usage@),
                ) by {
                    if k > p {
                        lemma_bytes_le_transitive(
                            encode_utf8(row.usage@),
                            encode_utf8(sorted@[p as int].usage@),
                            encode_utf8(sorted@[k].usage@),
                        );
                    }
                }
            }
        }
        let ghost before = sorted@;
        sorted.insert(p, row);
        proof {
            assert(sorted@.remove(p as int) =~= before);
            assert(sorted@[p as int] == row);
            assert(sorted@.to_multiset() =~= before.to_multiset().insert(row));
            assert(before_rest.remove(0) =~= rest@);
            assert(before_rest[0] == row);
            assert(before_rest.to_multiset().remove(row) =~= rest@.to_multiset());
            assert(before_rest.to_multiset().contains(row));
            assert forall|i: int, j: int| 0 <= i < j < sorted@.len() implies bytes_le(
                encode_utf8(#[trigger] sorted@[i].usage@),
                encode_utf8(#[trigger] sorted@[j].usage@),
            ) by {
                if j < p {
                    assert(sorted@[i] == before[i] && sorted@[j] == before[j]);
                } else if j == p {
                    assert(sorted@[i] == before[i]);
                } else if i == p {
                    assert(sorted@[j] == before[j - 1]);
                } else if i < p {
                    assert(sorted@[i] == before[i] && sorted@[j] == before[j - 1]);
                } else {
                    assert(sorted@[i] == before[i - 1] && sorted@[j] == before[j - 1]);
                }
            }
            // Stability: no row after the insertion point has the same text.
            let head = before.take(p as int);
            let tail = before.skip(p as int);
            assert(before =~= head + tail);
            assert(sorted@ =~= head + seq![row] + tail);
            assert(row == given[done]);
            assert(given.take(done + 1) =~= given.take(done).push(row));
            assert(with_usage(tail, row.usage@) =~= Seq::<Usage>::empty()) by {
                assert forall|k: int| 0 <= k < tail.len() implies (#[trigger] tail[k]).usage@ != row.usage@ by {
                    if tail[k].usage@ == row.usage@ {
                        lemma_bytes_le_reflexive(encode_utf8(row.usage@));
                        if k > 0 {
                            assert(bytes_le(
                                encode_utf8(before[p as int].usage@),
                                encode_utf8(before[p + k].usage@),
                            ));
                            lemma_bytes_le_transitive(
                                encode_utf8(before[p as int].usage@),
                                encode_utf8(before[p + k].usage@),
                                encode_utf8(row.usage@),
                            );
                        }
                    }
                }
                lemma_with_usage_none(tail, row.usage@);
            }
            assert forall|key: Seq<char>| #[trigger] with_usage(sorted@, key) == with_usage(
                given.take(done + 1),
                key,
            ) by {
                let grown = given.take(done + 1);
                assert(grown.drop_last() =~= given.take(done));
                assert(grown.last() == row);
                assert(with_usage(before, key) == with_usage(given.take(done), key));
                lemma_with_usage_concat(head + seq![row], tail, key);
                lemma_with_usage_concat(head, seq![row], key);
                lemma_with_usage_concat(head, tail, key);
                assert(seq![row].drop_last() =~= Seq::<Usage>::empty());
                assert(seq![row].last() == row);
                assert(with_usage(Seq::<Usage>::empty(), key) =~= Seq::<Usage>::empty());
                assert(with_usage(seq![row].drop_last(), key) =~= Seq::<Usage>::empty());
                if key == row.usage@ {
                    assert(with_usage(seq![row], key) =~= seq![row]);
                    assert(with_usage(head, key) + seq![row] + Seq::<Usage>::empty() =~= with_usage(head, key).push(row));
                    assert(with_usage(head, key) + Seq::<Usage>::empty() =~= with_usage(head, key));
                } else {
                    assert(with_usage(seq![row], key) =~= Seq::<Usage>::empty());
                    assert(with_usage(head, key) + Seq::<Usage>::empty() =~= with_usage(head, key));
                }
            }
            assert(rest@ =~= given.skip(done + 1));
            done = done + 1;
        }
    }
    proof {
        assert(rest@.to_multiset() =~= vstd::multiset::Multiset::empty());
        assert(done == given.len());
        assert(given.take(done) =~= given);
    }
    sorted
}

/// Whether `lined` is `found` with the path put in front of each usage, the
/// descriptions kept.
pub open spec fn lined_under(lined: Seq<Usage>, path: Seq<char>, found: Seq<Usage>) -> bool {
    &&& lined.len() == found.len()
    &&& forall|i: int|
        0 <= i < lined.len() ==> (#[trigger] lined[i]).usage@ == usage_line_spec(path, found[i].usage@)
            && lined[i].description == found[i].description
}

/// The rows of help under a path, from the usages of the level it leads to
/// (branches already folded): each usage with the path in front, then the
/// rows in the order of their usage text, rows with the same text in the
/// order given.
pub fn usage_rows(path: &str, found: Vec<Usage>) -> (rows: Vec<Usage>)
    ensures
        exists|lined: Seq<Usage>|
            #[trigger] lined_under(lined, path@, found@) && rows@.to_multiset() == lined.to_multiset()
                && rows_sorted(rows@) && forall|key: Seq<char>|
                #[trigger] with_usage(rows@, key) == with_usage(lined, key),
{
    let ghost given = found@;
    proof {
        assert(given.len() == found.len());
    }
    let mut rest = found;
    let mut lined: Vec<Usage> = Vec::new();
    let mut i: usize = 0;
    while rest.len() > 0
        invariant
            given.len() <= usize::MAX,
            i + rest@.len() == given.len(),
            rest@ == given.skip(i as int),
            lined@.len() == i,
            forall|j: int|
                0 <= j < i ==> (#[trigger] lined@[j]).usage@ == usage_line_spec(path@, given[j].usage@)
                    && lined@[j].description == given[j].description,
        decreases rest@.len(),
    {
        let ghost before = rest@;
        let row = rest.remove(0);
        proof {
            assert(row == given[i as int]);
            assert(rest@ =~= given.skip(i + 1));
        }
        let line = usage_line(path, row.usage.as_str());
        lined.push(Usage { usage: line, description: row.description });
        i = i + 1;
    }
    proof {
        assert(lined_under(lined@, path@, given));
    }
    let ghost all = lined@;
    let rows = sort_rows(lined);
    proof {
        assert(lined_under(all, path@, given));
    }
    rows
}

/// The widest usage among the rows, in characters.
pub open spec fn usage_width(rows: Seq<Usage>) -> nat
    decreases rows.len(),
{
    if rows.len() == 0 {
        0
    } else {
        let w = usage_width(rows.drop_last());
        let l = rows.last().usage@.len();
        if l > w {
            l
        } else {
            w
        }
    }
}

pub proof fn lemma_usage_width(rows: Seq<Usage>)
    ensures
        forall|i: int| 0 <= i < rows.len() ==> #[trigger] rows[i].usage@.len() <= usage_width(rows),
    decreases rows.len(),
{
    if rows.len() > 0 {
        lemma_usage_width(rows.drop_last());
        assert forall|i: int| 0 <= i < rows.len() implies #[trigger] rows[i].usage@.len()
            <= usage_width(rows) by {
            if i < rows.len() - 1 {
                assert(rows[i] == rows.drop_last()[i]);
            }
        }
    }
}

/// `n` spaces.
pub open spec fn spaces(n: nat) -> Seq<char> {
    Seq::new(n, |i: int| ' ')
}

/// A row as the default layout prints it: the usage padded to `width`, two
/// spaces, then the description; a row without description is its usage.
pub open spec fn row_text(row: Usage, width: nat) -> Seq<char> {
    match row.description {
        Some(description) => row.usage@ + spaces((width - row.usage@.len()) as nat) + "  "@
            + description@,
        None => row.usage@,
    }
}

/// The lines of the default layout: usage, two spaces, description, aligned
/// on the longest usage.
pub fn render_rows(rows: &Vec<Usage>) -> (lines: Vec<String>)
    ensures
        lines@.len() == rows@.len(),
        forall|i: int|
            0 <= i < rows@.len() ==> #[trigger] lines@[i]@ == row_text(rows@[i], usage_width(rows@)),
{
    let mut width: usize = 0;
    let mut i: usize = 0;
    while i < rows.len()
        invariant
            i <= rows@.len(),
            width == usage_width(rows@.take(i as int)),
        decreases rows@.len() - i,
    {
        let l = rows[i].usage.as_str().unicode_len();
        proof {
            assert(rows@.take(i + 1).drop_last() =~= rows@.take(i as int));
        }
        if l > width {
            width = l;
        }
        i = i + 1;
    }
    proof {
        assert(rows@.take(rows@.len() as int) =~= rows@);
        lemma_usage_width(rows@);
    }
    let mut lines: Vec<String> = Vec::new();
    let mut i: usize = 0;
    while i < rows.len()
        invariant
            i <= rows@.len(),
            width == usage_width(rows@),
            forall|k: int| 0 <= k < rows@.len() ==> #[trigger] rows@[k].usage@.len() <= width,
            lines@.len() == i,
            forall|k: int| 0 <= k < i ==> #[trigger] lines@[k]@ == row_text(rows@[k], width as nat),
        decreases rows@.len() - i,
    {
        let row = &rows[i];
        let line = match &row.description {
            Some(description) => {
                let mut line = row.usage.clone();
                let l = row.usage.as_str().unicode_len();
                let mut pad: usize = l;
                proof {
                    assert(rows@[i as int].usage@.len() <= width);
                }
                while pad < width
                    invariant
                        l == row.usage@.len(),
                        l <= pad <= width,
                        line@ == row.usage@ + spaces((pad - l) as nat),
                    decreases width - pad,
                {
                    line.append(" ");
                    proof {
                        reveal_strlit(" ");
                        assert(spaces((pad + 1 - l) as nat) =~= spaces((pad - l) as nat).push(' '));
                    }
                    pad = pad + 1;
                }
                line.append("  ");
                line.append(description.as_str());
                proof {
                    reveal_strlit("  ");
                }
                line
            },
            None => row.usage.clone(),
        };
        lines.push(line);
        i = i + 1;
    }
    lines
}

/// The index of the last white-space character of a text, if any.
pub open spec fn last_white_space(s: Seq<char>) -> Option<int>
    decreases s.len(),
{
    if s.len() == 0 {
        None
    } else if is_white_space(s.last()) {
        Some(s.len() - 1)
    } else {
        last_white_space(s.drop_last())
    }
}

/// How a typed help path splits: the levels already typed, and the last,
/// unfinished one.
///
/// The path is cut one byte after the start of its last white space, so the
/// cut falls between characters only when that white space is one byte long.
/// After a longer one (an ideographic space, say) the unfinished level cannot
/// be cut out, and no candidates are offered for the path at all.
pub open spec fn split_path_spec(typed: Seq<char>) -> Option<(Seq<char>, Seq<char>)> {
    match last_white_space(typed) {
        None => Some((Seq::empty(), typed)),
        Some(k) => if (typed[k] as u32) < 0x80 {
            Some((typed.subrange(0, k), typed.subrange(k + 1, typed.len() as int)))
        } else {
            None
        },
    }
}

proof fn lemma_last_white_space(s: Seq<char>, k: int)
    requires
        -1 <= k < s.len(),
        forall|j: int| k < j < s.len() ==> !is_white_space(#[trigger] s[j]),
        k >= 0 ==> is_white_space(s[k]),
    ensures
        last_white_space(s) == if k < 0 {
            None
        } else {
            Some(k)
        },
    decreases s.len(),
{
    if s.len() > 0 && k < s.len() - 1 {
        assert(!is_white_space(s[s.len() - 1]));
        lemma_last_white_space(s.drop_last(), k);
        if k >= 0 {
            assert(s.drop_last()[k] == s[k]);
        }
    }
}

/// Split a typed help path into the levels typed and the last, unfinished
/// one.
pub fn split_typed_path(typed: &str) -> (split: Option<(String, String)>)
    ensures
        match (split, split_path_spec(typed@)) {
            (Some((walked, prefix)), Some((w, p))) => walked@ == w && prefix@ == p,
            (None, None) => true,
            _ => false,
        },
{
    let n = typed.unicode_len();
    let mut k: usize = n;
    while k > 0 && !crate::util::is_whitespace(typed.get_char(k - 1))
        invariant
            n == typed@.len(),
            k <= n,
            forall|j: int| k <= j < n ==> !is_white_space(#[trigger] typed@[j]),
        decreases k,
    {
        k = k - 1;
    }
    if k == 0 {
        proof {
            lemma_last_white_space(typed@, -1);
        }
        Some((String::new(), typed.to_owned()))
    } else {
        let c = typed.get_char(k - 1);
        proof {
            lemma_last_white_space(typed@, k - 1);
        }
        if (c as u32) < 0x80 {
            Some((typed.substring_char(0, k - 1).to_owned(), typed.substring_char(k, n).to_owned()))
        } else {
            None
        }
    }
}

/// A child of the level that a help path leads to, as the candidates of the
/// path argument see it.
#[derive(Debug, Clone, PartialEq, Eq)]
pub struct PathChild {
    pub name: String,
    /// Whether the source may use it right now.
    pub usable: bool,
    pub description: Option<String>,
}

pub open spec fn offered(prefix: Seq<char>, child: PathChild) -> bool {
    child.usable && has_prefix(child.name@, prefix)
}

/// The candidates for the unfinished level of a help path: the literal
/// children that may be used and start with what was typed, in their order.
pub fn next_level(prefix: &str, children: Vec<PathChild>) -> (offer: Vec<PathChild>)
    ensures
        offer@ == children@.filter(|c: PathChild| offered(prefix@, c)),
{
    let ghost pred = |c: PathChild| offered(prefix@, c);
    let mut offer: Vec<PathChild> = Vec::new();
    let mut rest = children;
    let ghost given = rest@;
    let n = rest.len();
    let mut i: usize = 0;
    proof {
        assert(given.take(0).filter(pred) =~= Seq::<PathChild>::empty()) by {
            reveal_with_fuel(Seq::<PathChild>::filter, 1);
        }
    }
    while rest.len() > 0
        invariant
            i + rest@.len() == given.len(),
            given.len() == n,
            rest@ == given.subrange(i as int, given.len() as int),
            offer@ == given.take(i as int).filter(pred),
            pred == (|c: PathChild| offered(prefix@, c)),
        decreases rest@.len(),
    {
        let child = rest.remove(0);
        proof {
            assert(child == given[i as int]);
            assert(given.take(i + 1) =~= given.take(i as int) + seq![child]);
            Seq::filter_distributes_over_add(given.take(i as int), seq![child], pred);
            reveal_with_fuel(Seq::<PathChild>::filter, 2);
            assert(rest@ =~= given.subrange(i + 1, given.len() as int));
        }
        if child.usable && crate::util::starts_with(child.name.as_str(), prefix) {
            proof {
                assert(seq![child].filter(pred) =~= seq![child]);
            }
            offer.push(child);
        } else {
            proof {
                assert(seq![child].filter(pred) =~= Seq::<PathChild>::empty());
            }
        }
        i = i + 1;
    }
    proof {
        assert(given.take(i as int) =~= given);
    }
    offer
}

} // verus!
