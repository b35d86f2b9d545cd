//! Interacting with the tree: resolving dotted paths and applying the
//! string-based operations.
//!
//! Resolution is a recursive depth-first pre-order traversal. At each level
//! every child is compared against the remaining path; an exact match is
//! reported, a partial match descends into a list node, anything else is
//! skipped. Several nodes may match one path (names may repeat), and every
//! match is handled, not only the first.

use vstd::prelude::*;
use vstd::string::StrSliceExecFns;
use vstd::string::StringExecFns;
use crate::node::{
    lemma_nodes_view_index, node_name, node_view, nodes_view, prop_name_of, prop_reset_spec,
    prop_set_ok, prop_set_out, prop_set_spec, prop_set_value_ok, prop_set_value_out,
    prop_set_value_spec, prop_value_of, ActionV, List, Node, NodeV, Visit,
};
use crate::path::{is_partial_match, partial_tail, ComparePath};
use crate::value::{value_fmt, Value, ValueV};

verus! {

/// The exact matches of `path` among the nodes of `s` and, through list
/// nodes on partial matches, their subtrees, in depth-first pre-order.
pub open spec fn matches_in(s: Seq<NodeV>, path: Seq<char>) -> Seq<NodeV>
    decreases s,
{
    if s.len() == 0 {
        Seq::<NodeV>::empty()
    } else {
        matches_in(s.drop_last(), path) + matches_node(s.last(), path)
    }
}

/// The exact matches of `path` at the single node `n`: the node itself when
/// the path equals its name, the matches of the tail within its children
/// when `n` is a list and the path continues past its name, nothing
/// otherwise.
pub open spec fn matches_node(n: NodeV, path: Seq<char>) -> Seq<NodeV>
    decreases n,
{
    if path == node_name(n) {
        seq![n]
    } else if is_partial_match(path, node_name(n)) && n is List {
        matches_in(n->List_1, partial_tail(path, node_name(n)))
    } else {
        Seq::<NodeV>::empty()
    }
}

/// The current value of the last property among the matched nodes; this is
/// the value a read through `get` reports when several nodes match.
pub open spec fn last_prop_of(ms: Seq<NodeV>) -> Option<ValueV>
    decreases ms.len(),
{
    if ms.len() == 0 {
        None
    } else if ms.last() is Prop {
        Some(prop_value_of(ms.last()->Prop_0))
    } else {
        last_prop_of(ms.drop_last())
    }
}

/// Concatenation distributes over the matched nodes of two sequences.
pub proof fn lemma_matches_in_concat(s1: Seq<NodeV>, s2: Seq<NodeV>, path: Seq<char>)
    ensures
        matches_in(s1 + s2, path) == matches_in(s1, path) + matches_in(s2, path),
    decreases s2.len(),
{
    if s2.len() == 0 {
        assert(s1 + s2 =~= s1);
        assert(matches_in(s1, path) + matches_in(s2, path) =~= matches_in(s1, path));
    } else {
        lemma_matches_in_concat(s1, s2.drop_last(), path);
        assert((s1 + s2).drop_last() =~= s1 + s2.drop_last());
        assert((s1 + s2).last() == s2.last());
        assert(matches_in(s1, path) + matches_in(s2.drop_last(), path) + matches_node(
            s2.last(),
            path,
        ) =~= matches_in(s1, path) + (matches_in(s2.drop_last(), path) + matches_node(
            s2.last(),
            path,
        )));
    }
}

/// One traversal step: the matches of `s.take(i + 1)` extend the matches of
/// `s.take(i)` by the matches at `s[i]`.
pub proof fn lemma_matches_in_step(s: Seq<NodeV>, path: Seq<char>, i: int)
    requires
        0 <= i < s.len(),
    ensures
        matches_in(s.take(i + 1), path) == matches_in(s.take(i), path) + matches_node(
            s[i],
            path,
        ),
{
    assert(s.take(i + 1).drop_last() =~= s.take(i));
    assert(s.take(i + 1).last() == s[i]);
}

/// The last property among concatenated matches: the right side wins when it
/// holds a property.
pub proof fn lemma_last_prop_concat(m1: Seq<NodeV>, m2: Seq<NodeV>)
    ensures
        last_prop_of(m1 + m2) == if last_prop_of(m2) is Some {
            last_prop_of(m2)
        } else {
            last_prop_of(m1)
        },
    decreases m2.len(),
{
    if m2.len() == 0 {
        assert(m1 + m2 =~= m1);
    } else {
        lemma_last_prop_concat(m1, m2.drop_last());
        assert((m1 + m2).drop_last() =~= m1 + m2.drop_last());
        assert((m1 + m2).last() == m2.last());
    }
}

/// Whether resolving `path` among `s` runs into a dead end: some node's name
/// is a strict prefix of the remaining path (followed by the separator) but
/// the node is not a list, so the path cannot continue past it.
pub open spec fn blocked_in(s: Seq<NodeV>, path: Seq<char>) -> bool
    decreases s,
{
    if s.len() == 0 {
        false
    } else {
        blocked_in(s.drop_last(), path) || blocked_node(s.last(), path)
    }
}

/// Whether resolving `path` at the single node `n` runs into a dead end.
pub open spec fn blocked_node(n: NodeV, path: Seq<char>) -> bool
    decreases n,
{
    if is_partial_match(path, node_name(n)) {
        if n is List {
            blocked_in(n->List_1, partial_tail(path, node_name(n)))
        } else {
            true
        }
    } else {
        false
    }
}

/// One traversal step of [`blocked_in`].
pub proof fn lemma_blocked_in_step(s: Seq<NodeV>, path: Seq<char>, i: int)
    requires
        0 <= i < s.len(),
    ensures
        blocked_in(s.take(i + 1), path) == (blocked_in(s.take(i), path) || blocked_node(
            s[i],
            path,
        )),
{
    assert(s.take(i + 1).drop_last() =~= s.take(i));
    assert(s.take(i + 1).last() == s[i]);
}

/// Why a path failed to resolve.
#[derive(Copy, Clone, Debug, Eq, PartialEq, Structural)]
pub enum ResolveError {
    /// No node in the tree matches the path, and no prefix of it runs into
    /// a node of the wrong kind.
    NotFound,
    /// The path continues past a node that is not a list (a list was
    /// expected, a property or action was found).
    KindMismatch,
}

/// Finds the nodes matching a path and reports whether any matched, whether
/// some dead end was hit, and the value of the last matched property.
fn search_full(nodes: &Vec<Node>, path: &str) -> (r: (bool, bool, Option<Value>))
    ensures
        r.0 == (matches_in(nodes_view(nodes@), path@).len() > 0),
        r.1 == blocked_in(nodes_view(nodes@), path@),
        match (r.2, last_prop_of(matches_in(nodes_view(nodes@), path@))) {
            (Some(v), Some(w)) => v@ == w,
            (None, None) => true,
            _ => false,
        },
    decreases nodes@,
{
    let ghost vs = nodes_view(nodes@);
    proof {
        lemma_nodes_view_index(nodes@);
    }
    let mut found = false;
    let mut blocked = false;
    let mut last: Option<Value> = None;
    let n = nodes.len();
    let mut i: usize = 0;
    while i < n
        invariant
            n == nodes@.len(),
            i <= n,
            vs == nodes_view(nodes@),
            vs.len() == n,
            forall|j: int| 0 <= j < n ==> vs[j] == node_view(#[trigger] nodes@[j]),
            found == (matches_in(vs.take(i as int), path@).len() > 0),
            blocked == blocked_in(vs.take(i as int), path@),
            match (last, last_prop_of(matches_in(vs.take(i as int), path@))) {
                (Some(v), Some(w)) => v@ == w,
                (None, None) => true,
                _ => false,
            },
        decreases n - i,
    {
        proof {
            lemma_matches_in_step(vs, path@, i as int);
            lemma_blocked_in_step(vs, path@, i as int);
        }
        let node = &nodes[i];
        let c = ComparePath::cmp(path, node.name());
        match c {
            ComparePath::True => {
                found = true;
                if let Node::Prop(p) = node {
                    last = Some(p.get_value().duplicate());
                }
                proof {
                    assert(matches_node(vs[i as int], path@) =~= seq![vs[i as int]]);
                    lemma_last_prop_concat(
                        matches_in(vs.take(i as int), path@),
                        matches_node(vs[i as int], path@),
                    );
                    assert(seq![vs[i as int]].drop_last() =~= Seq::<NodeV>::empty());
                    assert(seq![vs[i as int]].last() == vs[i as int]);
                    if !(vs[i as int] is Prop) {
                        assert(last_prop_of(Seq::<NodeV>::empty()) is None);
                        assert(last_prop_of(seq![vs[i as int]]) is None);
                    }
                }
            },
            ComparePath::Part(tail) => {
                match node {
                    Node::List(l) => {
                        proof {
                            broadcast use vstd::std_specs::vec::group_vec_axioms;

                            assert(decreases_to!(nodes@ => nodes@[i as int]));
                            assert((nodes@[i as int])->List_0 == *l);
                            assert(decreases_to!(nodes@[i as int] => (nodes@[i as int])->List_0));
                            assert(decreases_to!(*l => l.visit));
                            assert(decreases_to!(l.visit => l.visit.nodes));
                            assert(decreases_to!(l.visit.nodes => l.visit.nodes@));
                        }
                        let (f2, b2, l2) = search_full(&l.visit.nodes, tail);
                        found = found || f2;
                        blocked = blocked || b2;
                        if let Some(v) = l2 {
                            last = Some(v);
                        }
                        proof {
                            assert(matches_node(vs[i as int], path@) == matches_in(
                                nodes_view(l.visit.nodes@),
                                tail@,
                            ));
                            lemma_last_prop_concat(
                                matches_in(vs.take(i as int), path@),
                                matches_node(vs[i as int], path@),
                            );
                        }
                    },
                    _ => {
                        blocked = true;
                        proof {
                            assert(matches_node(vs[i as int], path@) =~= Seq::<NodeV>::empty());
                            assert(matches_in(vs.take(i as int), path@) + Seq::<
                                NodeV,
                            >::empty() =~= matches_in(vs.take(i as int), path@));
                        }
                    },
                }
            },
            ComparePath::False => {
                proof {
                    assert(matches_node(vs[i as int], path@) =~= Seq::<NodeV>::empty());
                    assert(matches_in(vs.take(i as int), path@) + Seq::<NodeV>::empty()
                        =~= matches_in(vs.take(i as int), path@));
                }
            },
        }
        i += 1;
    }
    proof {
        assert(vs.take(n as int) =~= vs);
    }
    (found, blocked, last)
}

/// Explains why a path does not resolve: a dead end past a non-list node is
/// a kind mismatch, anything else is simply not found. Returns `None` when
/// the path resolves to at least one node.
pub fn resolve_error(root: &Visit, path: &str) -> (r: Option<ResolveError>)
    ensures
        r == (if matches_in(root@, path@).len() > 0 {
            None::<ResolveError>
        } else if blocked_in(root@, path@) {
            Some(ResolveError::KindMismatch)
        } else {
            Some(ResolveError::NotFound)
        }),
{
    let (found, blocked, _) = search_full(&root.nodes, path);
    if found {
        None
    } else if blocked {
        Some(ResolveError::KindMismatch)
    } else {
        Some(ResolveError::NotFound)
    }
}

/// Finds nodes by path.
///
/// Returns whether at least one node anywhere in the tree matches the path.
/// If several nodes match (the same name may be used more than once), all of
/// them count.
pub fn find(root: &Visit, path: &str) -> (r: bool)
    ensures
        r == (matches_in(root@, path@).len() > 0),
{
    let (found, _, _) = search_full(&root.nodes, path);
    found
}

/// Gets a property's value as a string.
///
/// Returns `None` if the path does not lead to a property; with several
/// matches the last one in traversal order wins.
pub fn get(root: &Visit, path: &str) -> (r: Option<String>)
    ensures
        match (r, last_prop_of(matches_in(root@, path@))) {
            (Some(s), Some(v)) => s@ == value_fmt(v),
            (None, None) => true,
            _ => false,
        },
{
    let (_, _, last) = search_full(&root.nodes, path);
    match last {
        Some(v) => Some(v.to_display()),
        None => None,
    }
}

/// Gets a property's value directly.
///
/// Returns `None` if the path does not lead to a property; with several
/// matches the last one in traversal order wins.
pub fn get_value(root: &Visit, path: &str) -> (r: Option<Value>)
    ensures
        match (r, last_prop_of(matches_in(root@, path@))) {
            (Some(v), Some(w)) => v@ == w,
            (None, None) => true,
            _ => false,
        },
{
    let (_, _, last) = search_full(&root.nodes, path);
    last
}

/// Collects the matched nodes themselves.
fn collect_rec(nodes: &Vec<Node>, path: &str, out: &mut Vec<Node>)
    ensures
        nodes_view(final(out)@) == nodes_view(old(out)@) + matches_in(
            nodes_view(nodes@),
            path@,
        ),
    decreases nodes@,
{
    let ghost vs = nodes_view(nodes@);
    let ghost out0 = nodes_view(old(out)@);
    proof {
        lemma_nodes_view_index(nodes@);
    }
    let n = nodes.len();
    let mut i: usize = 0;
    while i < n
        invariant
            n == nodes@.len(),
            i <= n,
            vs == nodes_view(nodes@),
            vs.len() == n,
            forall|j: int| 0 <= j < n ==> vs[j] == node_view(#[trigger] nodes@[j]),
            out0 == nodes_view(old(out)@),
            nodes_view(out@) == out0 + matches_in(vs.take(i as int), path@),
        decreases n - i,
    {
        proof {
            lemma_matches_in_step(vs, path@, i as int);
        }
        let node = &nodes[i];
        let c = ComparePath::cmp(path, node.name());
        match c {
            ComparePath::True => {
                let dup = node.duplicate();
                let ghost prev = out@;
                out.push(dup);
                proof {
                    assert(out@.drop_last() =~= prev);
                    assert(out@.last() == dup);
                    assert(nodes_view(out@) == nodes_view(prev).push(vs[i as int]));
                    assert(matches_node(vs[i as int], path@) =~= seq![vs[i as int]]);
                    assert(nodes_view(prev).push(vs[i as int]) =~= out0 + (matches_in(
                        vs.take(i as int),
                        path@,
                    ) + seq![vs[i as int]]));
                }
            },
            ComparePath::Part(tail) => {
                match node {
                    Node::List(l) => {
                        proof {
                            broadcast use vstd::std_specs::vec::group_vec_axioms;

                            assert(decreases_to!(nodes@ => nodes@[i as int]));
                            assert((nodes@[i as int])->List_0 == *l);
                            assert(decreases_to!(nodes@[i as int] => (nodes@[i as int])->List_0));
                            assert(decreases_to!(*l => l.visit));
                            assert(decreases_to!(l.visit => l.visit.nodes));
                            assert(decreases_to!(l.visit.nodes => l.visit.nodes@));
                        }
                        collect_rec(&l.visit.nodes, tail, out);
                        proof {
                            assert(matches_node(vs[i as int], path@) == matches_in(
                                nodes_view(l.visit.nodes@),
                                tail@,
                            ));
                            assert(out0 + matches_in(vs.take(i as int), path@) + matches_node(
                                vs[i as int],
                                path@,
                            ) =~= out0 + (matches_in(vs.take(i as int), path@) + matches_node(
                                vs[i as int],
                                path@,
                            )));
                        }
                    },
                    _ => {
                        proof {
                            assert(matches_node(vs[i as int], path@) =~= Seq::<NodeV>::empty());
                            assert(out0 + (matches_in(vs.take(i as int), path@) + Seq::<
                                NodeV,
                            >::empty()) =~= out0 + matches_in(vs.take(i as int), path@));
                        }
                    },
                }
            },
            ComparePath::False => {
                proof {
                    assert(matches_node(vs[i as int], path@) =~= Seq::<NodeV>::empty());
                    assert(out0 + (matches_in(vs.take(i as int), path@) + Seq::<
                        NodeV,
                    >::empty()) =~= out0 + matches_in(vs.take(i as int), path@));
                }
            },
        }
        i += 1;
    }
    proof {
        assert(vs.take(n as int) =~= vs);
    }
}

/// Finds all nodes matching a path and returns a copy of each, in traversal
/// order. If several nodes share the matched name, every one of them is
/// reported, not only the first.
pub fn find_nodes(root: &Visit, path: &str) -> (r: Vec<Node>)
    ensures
        nodes_view(r@) == matches_in(root@, path@),
{
    let mut out: Vec<Node> = Vec::new();
    proof {
        assert(nodes_view(out@) =~= Seq::<NodeV>::empty());
    }
    collect_rec(&root.nodes, path, &mut out);
    proof {
        assert(Seq::<NodeV>::empty() + matches_in(root@, path@) =~= matches_in(root@, path@));
    }
    out
}

/// The capability of a node, as reported by [`walk`].
#[derive(Copy, Clone, Debug, Eq, PartialEq, Structural)]
pub enum NodeKind {
    Prop,
    List,
    Action,
}

/// One node reported by [`walk`]: its full dotted path, its kind, and (for
/// properties) its current value.
pub struct WalkItem {
    pub path: String,
    pub kind: NodeKind,
    pub value: Option<Value>,
}

/// The mathematical form of a [`WalkItem`].
pub struct WalkItemV {
    pub path: Seq<char>,
    pub kind: NodeKind,
    pub value: Option<ValueV>,
}

impl View for WalkItem {
    type V = WalkItemV;

    open spec fn view(&self) -> WalkItemV {
        WalkItemV {
            path: self.path@,
            kind: self.kind,
            value: crate::value::opt_value_view(self.value),
        }
    }
}

/// The views of a sequence of walk items.
pub open spec fn items_view(s: Seq<WalkItem>) -> Seq<WalkItemV> {
    s.map_values(|w: WalkItem| w@)
}

/// The kind of a node.
pub open spec fn kind_of(n: NodeV) -> NodeKind {
    match n {
        NodeV::Prop(_) => NodeKind::Prop,
        NodeV::List(_, _) => NodeKind::List,
        NodeV::Action(_) => NodeKind::Action,
    }
}

/// The current value of a node, for properties.
pub open spec fn value_of(n: NodeV) -> Option<ValueV> {
    match n {
        NodeV::Prop(p) => Some(prop_value_of(p)),
        _ => None,
    }
}

/// A name appended to a path prefix: separated by a dot, except after the
/// empty prefix.
pub open spec fn join_path(prefix: Seq<char>, name: Seq<char>) -> Seq<char> {
    if prefix.len() == 0 {
        name
    } else {
        prefix + seq!['.'] + name
    }
}

/// The walk items of one node under a path prefix: the node itself first,
/// then (for a list) its whole subtree.
pub open spec fn walk_node(n: NodeV, prefix: Seq<char>) -> Seq<WalkItemV>
    decreases n,
{
    seq![
        WalkItemV {
            path: join_path(prefix, node_name(n)),
            kind: kind_of(n),
            value: value_of(n),
        },
    ] + match n {
        NodeV::List(_, kids) => walk_nodes(kids, join_path(prefix, node_name(n))),
        _ => Seq::<WalkItemV>::empty(),
    }
}

/// The walk items of a sequence of nodes, in pre-order.
pub open spec fn walk_nodes(s: Seq<NodeV>, prefix: Seq<char>) -> Seq<WalkItemV>
    decreases s,
{
    if s.len() == 0 {
        Seq::<WalkItemV>::empty()
    } else {
        walk_nodes(s.drop_last(), prefix) + walk_node(s.last(), prefix)
    }
}

/// One traversal step of [`walk_nodes`].
pub proof fn lemma_walk_nodes_step(s: Seq<NodeV>, prefix: Seq<char>, i: int)
    requires
        0 <= i < s.len(),
    ensures
        walk_nodes(s.take(i + 1), prefix) == walk_nodes(s.take(i), prefix) + walk_node(
            s[i],
            prefix,
        ),
{
    assert(s.take(i + 1).drop_last() =~= s.take(i));
    assert(s.take(i + 1).last() == s[i]);
}

fn join_path_exec(prefix: &str, name: &str) -> (r: String)
    ensures
        r@ == join_path(prefix@, name@),
{
    if prefix.unicode_len() == 0 {
        String::from_str(name)
    } else {
        let mut s = String::from_str(prefix);
        proof {
            reveal_strlit(".");
        }
        s.append(".");
        s.append(name);
        proof {
            assert(s@ =~= join_path(prefix@, name@));
        }
        s
    }
}

/// Walks the nodes under `prefix`, appending one item per node.
fn walk_rec(nodes: &Vec<Node>, prefix: &str, out: &mut Vec<WalkItem>)
    ensures
        items_view(final(out)@) == items_view(old(out)@) + walk_nodes(
            nodes_view(nodes@),
            prefix@,
        ),
    decreases nodes@,
{
    let ghost vs = nodes_view(nodes@);
    let ghost out0 = items_view(old(out)@);
    proof {
        lemma_nodes_view_index(nodes@);
    }
    let n = nodes.len();
    let mut i: usize = 0;
    while i < n
        invariant
            n == nodes@.len(),
            i <= n,
            vs == nodes_view(nodes@),
            vs.len() == n,
            forall|j: int| 0 <= j < n ==> vs[j] == node_view(#[trigger] nodes@[j]),
            out0 == items_view(old(out)@),
            items_view(out@) == out0 + walk_nodes(vs.take(i as int), prefix@),
        decreases n - i,
    {
        proof {
            lemma_walk_nodes_step(vs, prefix@, i as int);
        }
        let node = &nodes[i];
        let item_path = join_path_exec(prefix, node.name());
        let ghost full = item_path@;
        let ghost prev = out@;
        match node {
            Node::Prop(p) => {
                let item = WalkItem {
                    path: item_path,
                    kind: NodeKind::Prop,
                    value: Some(p.get_value().duplicate()),
                };
                out.push(item);
                proof {
                    assert(out@.drop_last() =~= prev);
                    assert(items_view(out@) =~= items_view(prev).push(out@.last()@));
                    assert(walk_node(vs[i as int], prefix@) =~= seq![
                        WalkItemV {
                            path: full,
                            kind: kind_of(vs[i as int]),
                            value: value_of(vs[i as int]),
                        },
                    ]);
                    assert(items_view(out@) =~= out0 + (walk_nodes(vs.take(i as int), prefix@)
                        + walk_node(vs[i as int], prefix@)));
                }
            },
            Node::Action(_) => {
                let item = WalkItem { path: item_path, kind: NodeKind::Action, value: None };
                out.push(item);
                proof {
                    assert(out@.drop_last() =~= prev);
                    assert(items_view(out@) =~= items_view(prev).push(out@.last()@));
                    assert(walk_node(vs[i as int], prefix@) =~= seq![
                        WalkItemV {
                            path: full,
                            kind: kind_of(vs[i as int]),
                            value: value_of(vs[i as int]),
                        },
                    ]);
                    assert(items_view(out@) =~= out0 + (walk_nodes(vs.take(i as int), prefix@)
                        + walk_node(vs[i as int], prefix@)));
                }
            },
            Node::List(l) => {
                let item = WalkItem { path: item_path, kind: NodeKind::List, value: None };
                out.push(item);
                proof {
                    assert(out@.drop_last() =~= prev);
                    assert(items_view(out@) =~= items_view(prev).push(out@.last()@));
                    broadcast use vstd::std_specs::vec::group_vec_axioms;

                    assert(decreases_to!(nodes@ => nodes@[i as int]));
                    assert((nodes@[i as int])->List_0 == *l);
                    assert(decreases_to!(nodes@[i as int] => (nodes@[i as int])->List_0));
                    assert(decreases_to!(*l => l.visit));
                    assert(decreases_to!(l.visit => l.visit.nodes));
                    assert(decreases_to!(l.visit.nodes => l.visit.nodes@));
                }
                let sub_prefix = join_path_exec(prefix, l.name.as_str());
                walk_rec(&l.visit.nodes, sub_prefix.as_str(), out);
                proof {
                    assert(walk_node(vs[i as int], prefix@) =~= seq![
                        WalkItemV { path: full, kind: NodeKind::List, value: None },
                    ] + walk_nodes(nodes_view(l.visit.nodes@), full));
                    assert(items_view(out@) =~= out0 + (walk_nodes(vs.take(i as int), prefix@)
                        + walk_node(vs[i as int], prefix@)));
                }
            },
        }
        i += 1;
    }
    proof {
        assert(vs.take(n as int) =~= vs);
    }
}

/// Walks every node in the tree, in pre-order, reporting each with its full
/// dotted path: list nodes themselves included, before their children.
pub fn walk(root: &Visit) -> (r: Vec<WalkItem>)
    ensures
        items_view(r@) == walk_nodes(root@, Seq::<char>::empty()),
{
    let mut out: Vec<WalkItem> = Vec::new();
    proof {
        reveal_strlit("");
        assert(items_view(out@) =~= Seq::<WalkItemV>::empty());
        assert(""@ =~= Seq::<char>::empty());
    }
    walk_rec(&root.nodes, "", &mut out);
    proof {
        assert(Seq::<WalkItemV>::empty() + walk_nodes(root@, Seq::<char>::empty()) =~= walk_nodes(
            root@,
            Seq::<char>::empty(),
        ));
    }
    out
}

/// One node with every property in it reset to its default; actions are
/// ignored and lists are reset throughout.
pub open spec fn reset_all_node(n: NodeV) -> NodeV
    decreases n,
{
    match n {
        NodeV::Prop(p) => NodeV::Prop(prop_reset_spec(p)),
        NodeV::List(name, kids) => NodeV::List(name, reset_all_nodes(kids)),
        NodeV::Action(a) => NodeV::Action(a),
    }
}

/// A sequence of nodes with every property reset to its default.
pub open spec fn reset_all_nodes(s: Seq<NodeV>) -> Seq<NodeV>
    decreases s,
{
    if s.len() == 0 {
        Seq::<NodeV>::empty()
    } else {
        reset_all_nodes(s.drop_last()).push(reset_all_node(s.last()))
    }
}

/// Resetting distributes over indexing.
pub proof fn lemma_reset_all_nodes_index(s: Seq<NodeV>)
    ensures
        reset_all_nodes(s).len() == s.len(),
        forall|i: int|
            0 <= i < s.len() ==> reset_all_nodes(s)[i] == reset_all_node(#[trigger] s[i]),
    decreases s,
{
    if s.len() > 0 {
        lemma_reset_all_nodes_index(s.drop_last());
        assert forall|i: int|
            0 <= i < s.len() implies reset_all_nodes(s)[i] == reset_all_node(
            #[trigger] s[i],
        ) by {
            if i < s.len() - 1 {
                assert(s.drop_last()[i] == s[i]);
                assert(reset_all_nodes(s)[i] == reset_all_nodes(s.drop_last())[i]);
            } else {
                assert(s.last() == s[i]);
            }
        }
    }
}

fn reset_node_ref(n: &Node) -> (r: Node)
    ensures
        node_view(r) == reset_all_node(node_view(*n)),
    decreases *n,
{
    match n {
        Node::Prop(p) => {
            let mut q = p.duplicate();
            q.reset();
            Node::Prop(q)
        },
        Node::Action(a) => Node::Action(a.duplicate()),
        Node::List(l) => {
            let mut kids: Vec<Node> = Vec::new();
            let cnt = l.visit.nodes.len();
            let mut i: usize = 0;
            while i < cnt
                invariant
                    *n == Node::List(*l),
                    i <= cnt,
                    cnt == l.visit.nodes@.len(),
                    kids@.len() == i,
                    forall|j: int|
                        0 <= j < i ==> node_view(kids@[j]) == reset_all_node(
                            node_view(#[trigger] l.visit.nodes@[j]),
                        ),
                decreases cnt - i,
            {
                let child = &l.visit.nodes[i];
                proof {
                    broadcast use vstd::std_specs::vec::group_vec_axioms;

                    assert((*n)->List_0 == *l);
                    assert(decreases_to!(*n => (*n)->List_0));
                    assert(decreases_to!(*l => l.visit));
                    assert(decreases_to!(l.visit => l.visit.nodes));
                    assert(decreases_to!(l.visit.nodes => l.visit.nodes@));
                    assert(decreases_to!(l.visit.nodes@ => l.visit.nodes@[i as int]));
                }
                kids.push(reset_node_ref(child));
                i += 1;
            }
            proof {
                lemma_nodes_view_index(kids@);
                lemma_nodes_view_index(l.visit.nodes@);
                lemma_reset_all_nodes_index(nodes_view(l.visit.nodes@));
                assert forall|j: int|
                    0 <= j < cnt implies nodes_view(kids@)[j] == reset_all_nodes(
                    nodes_view(l.visit.nodes@),
                )[j] by {
                    assert(node_view(kids@[j]) == reset_all_node(node_view(l.visit.nodes@[j])));
                    assert(nodes_view(l.visit.nodes@)[j] == node_view(l.visit.nodes@[j]));
                }
                assert(nodes_view(kids@) =~= reset_all_nodes(nodes_view(l.visit.nodes@)));
            }
            Node::List(List { name: l.name.clone(), visit: Visit { nodes: kids } })
        },
    }
}

fn reset_nodes_ref(nodes: &Vec<Node>) -> (r: Vec<Node>)
    ensures
        nodes_view(r@) == reset_all_nodes(nodes_view(nodes@)),
{
    let ghost vs = nodes_view(nodes@);
    proof {
        lemma_nodes_view_index(nodes@);
    }
    let mut out: Vec<Node> = Vec::new();
    let n = nodes.len();
    let mut i: usize = 0;
    while i < n
        invariant
            n == nodes@.len(),
            i <= n,
            vs == nodes_view(nodes@),
            vs.len() == n,
            forall|j: int| 0 <= j < n ==> vs[j] == node_view(#[trigger] nodes@[j]),
            out@.len() == i,
            forall|j: int|
                0 <= j < i ==> node_view(#[trigger] out@[j]) == reset_all_node(vs[j]),
        decreases n - i,
    {
        out.push(reset_node_ref(&nodes[i]));
        i += 1;
    }
    proof {
        lemma_nodes_view_index(out@);
        lemma_reset_all_nodes_index(vs);
        assert forall|j: int| 0 <= j < n implies nodes_view(out@)[j] == reset_all_nodes(vs)[j] by {
            assert(node_view(out@[j]) == reset_all_node(vs[j]));
        }
        assert(nodes_view(out@) =~= reset_all_nodes(vs));
    }
    out
}

/// Resets every property in the tree to its default; actions are ignored
/// and read-only properties keep their value.
pub fn reset_all(root: &mut Visit)
    ensures
        final(root)@ == reset_all_nodes(old(root)@),
{
    let fresh = reset_nodes_ref(&root.nodes);
    root.nodes = fresh;
}

/// A character as it appears inside a quoted value: quotes, backslashes and
/// the common control characters are escaped.
pub open spec fn escape_char(c: char) -> Seq<char> {
    if c == '"' {
        seq!['\\', '"']
    } else if c == '\\' {
        seq!['\\', '\\']
    } else if c == '\n' {
        seq!['\\', 'n']
    } else if c == '\r' {
        seq!['\\', 'r']
    } else if c == '\t' {
        seq!['\\', 't']
    } else {
        seq![c]
    }
}

/// A string with every character escaped.
pub open spec fn escape_seq(s: Seq<char>) -> Seq<char>
    decreases s.len(),
{
    if s.len() == 0 {
        Seq::<char>::empty()
    } else {
        escape_seq(s.drop_last()) + escape_char(s.last())
    }
}

/// A value as printed: escaped and wrapped in double quotes.
pub open spec fn quote(s: Seq<char>) -> Seq<char> {
    seq!['"'] + escape_seq(s) + seq!['"']
}

/// The text ` is ` between a path and a value.
pub open spec fn is_infix() -> Seq<char> {
    seq![' ', 'i', 's', ' ']
}

/// A line break.
pub open spec fn newline() -> Seq<char> {
    seq!['\n']
}

/// The text `error: ` that starts a failed-set line.
pub open spec fn err_prefix() -> Seq<char> {
    seq!['e', 'r', 'r', 'o', 'r', ':', ' ']
}

/// The text `unknown: ` that starts an unresolved-path line.
pub open spec fn unknown_prefix() -> Seq<char> {
    seq!['u', 'n', 'k', 'n', 'o', 'w', 'n', ':', ' ']
}

/// The `...` marker after a list node's name.
pub open spec fn ellipsis() -> Seq<char> {
    seq!['.', '.', '.']
}

/// The line reporting a property and its current value:
/// `<path> is <quoted-value>`.
pub open spec fn prop_line(path: Seq<char>, v: ValueV) -> Seq<char> {
    path + is_infix() + quote(value_fmt(v)) + newline()
}

/// The line reporting a failed assignment:
/// `error: <path> <shown-value>: <message>`.
pub open spec fn error_line(path: Seq<char>, shown: Seq<char>, msg: Seq<char>) -> Seq<char> {
    err_prefix() + path + seq![' '] + shown + seq![':', ' '] + msg + newline()
}

/// The line reporting an unresolved path: `unknown: <path>`.
pub open spec fn unknown_line(path: Seq<char>) -> Seq<char> {
    unknown_prefix() + path + newline()
}

/// The listing line of one node under an optional path prefix: a property
/// with its value, a list name with `...`, a bare action name.
pub open spec fn listing_line(n: NodeV, prefix: Option<Seq<char>>) -> Seq<char> {
    let pre = match prefix {
        Some(p) => p + seq!['.'],
        None => Seq::<char>::empty(),
    };
    match n {
        NodeV::Prop(p) => prop_line(pre + prop_name_of(p), prop_value_of(p)),
        NodeV::List(name, _) => pre + name + ellipsis() + newline(),
        NodeV::Action(a) => pre + a.name + newline(),
    }
}

/// The listing lines of a sequence of nodes, one per node, in order.
pub open spec fn listing_lines(s: Seq<NodeV>, prefix: Option<Seq<char>>) -> Seq<char>
    decreases s.len(),
{
    if s.len() == 0 {
        Seq::<char>::empty()
    } else {
        listing_lines(s.drop_last(), prefix) + listing_line(s.last(), prefix)
    }
}

/// Appends one quoted value to `out`.
fn write_quoted(s: &str, out: &mut String)
    ensures
        final(out)@ == old(out)@ + quote(s@),
{
    proof {
        reveal_strlit("\"");
        reveal_strlit("\\\"");
        reveal_strlit("\\\\");
        reveal_strlit("\\n");
        reveal_strlit("\\r");
        reveal_strlit("\\t");
    }
    out.append("\"");
    let len = s.unicode_len();
    let mut i: usize = 0;
    while i < len
        invariant
            i <= len,
            len == s@.len(),
            out@ == old(out)@ + seq!['"'] + escape_seq(s@.take(i as int)),
        decreases len - i,
    {
        proof {
            reveal_strlit("\\\"");
            reveal_strlit("\\\\");
            reveal_strlit("\\n");
            reveal_strlit("\\r");
            reveal_strlit("\\t");
            let t = s@.take(i as int + 1);
            assert(t.drop_last() =~= s@.take(i as int));
            assert(t.last() == s@[i as int]);
        }
        let c = s.get_char(i);
        if c == '"' {
            out.append("\\\"");
        } else if c == '\\' {
            out.append("\\\\");
        } else if c == '\n' {
            out.append("\\n");
        } else if c == '\r' {
            out.append("\\r");
        } else if c == '\t' {
            out.append("\\t");
        } else {
            out.append(s.substring_char(i, i + 1));
            proof {
                assert(s@.subrange(i as int, i as int + 1) =~= seq![s@[i as int]]);
            }
        }
        proof {
            assert(out@ =~= old(out)@ + seq!['"'] + escape_seq(s@.take(i as int + 1)));
        }
        i += 1;
    }
    out.append("\"");
    proof {
        assert(s@.take(len as int) =~= s@);
        assert(out@ =~= old(out)@ + quote(s@));
    }
}

/// Appends `<path> is <quoted-value>` and a line break to `out`.
fn write_prop_line(path: &str, value_text: &str, out: &mut String)
    ensures
        final(out)@ == old(out)@ + (path@ + is_infix() + quote(value_text@) + newline()),
{
    proof {
        reveal_strlit(" is ");
        reveal_strlit("\n");
    }
    out.append(path);
    out.append(" is ");
    write_quoted(value_text, out);
    out.append("\n");
    proof {
        assert(out@ =~= old(out)@ + (path@ + is_infix() + quote(value_text@) + newline()));
    }
}

/// Appends `error: <path> <shown>: <message>` and a line break to `out`.
fn write_error_line(path: &str, shown: &String, msg: &String, out: &mut String)
    ensures
        final(out)@ == old(out)@ + error_line(path@, shown@, msg@),
{
    proof {
        reveal_strlit("error: ");
        reveal_strlit(" ");
        reveal_strlit(": ");
        reveal_strlit("\n");
    }
    out.append("error: ");
    out.append(path);
    out.append(" ");
    out.append(shown.as_str());
    out.append(": ");
    out.append(msg.as_str());
    out.append("\n");
    proof {
        assert(out@ =~= old(out)@ + error_line(path@, shown@, msg@));
    }
}

/// Appends `unknown: <path>` and a line break to `out`.
fn write_unknown_line(path: &str, out: &mut String)
    ensures
        final(out)@ == old(out)@ + unknown_line(path@),
{
    proof {
        reveal_strlit("unknown: ");
        reveal_strlit("\n");
    }
    out.append("unknown: ");
    out.append(path);
    out.append("\n");
    proof {
        assert(out@ =~= old(out)@ + unknown_line(path@));
    }
}

/// Appends the listing line of one node to `out`.
fn write_listing_line(n: &Node, prefix: Option<&str>, out: &mut String)
    ensures
        final(out)@ == old(out)@ + listing_line(
            node_view(*n),
            match prefix {
                Some(p) => Some(p@),
                None => None,
            },
        ),
{
    proof {
        reveal_strlit(".");
        reveal_strlit("...");
        reveal_strlit("\n");
    }
    let mut pre = String::new();
    if let Some(p) = prefix {
        pre.append(p);
        pre.append(".");
    }
    let ghost prev = out@;
    match n {
        Node::Prop(p) => {
            pre.append(p.name());
            let text = p.get_value().to_display();
            write_prop_line(pre.as_str(), text.as_str(), out);
        },
        Node::List(l) => {
            out.append(pre.as_str());
            out.append(l.name.as_str());
            out.append("...");
            out.append("\n");
        },
        Node::Action(a) => {
            out.append(pre.as_str());
            out.append(a.name());
            out.append("\n");
        },
    }
    proof {
        assert(out@ =~= prev + listing_line(
            node_view(*n),
            match prefix {
                Some(p) => Some(p@),
                None => None,
            },
        ));
    }
}

/// Appends the listing lines of the nodes, one per node, to `out`.
fn write_listing(nodes: &Vec<Node>, prefix: Option<&str>, out: &mut String)
    ensures
        final(out)@ == old(out)@ + listing_lines(
            nodes_view(nodes@),
            match prefix {
                Some(p) => Some(p@),
                None => None,
            },
        ),
{
    let ghost vs = nodes_view(nodes@);
    let ghost pv: Option<Seq<char>> = match prefix {
        Some(p) => Some(p@),
        None => None,
    };
    proof {
        lemma_nodes_view_index(nodes@);
    }
    let n = nodes.len();
    let mut i: usize = 0;
    while i < n
        invariant
            n == nodes@.len(),
            i <= n,
            vs == nodes_view(nodes@),
            vs.len() == n,
            forall|j: int| 0 <= j < n ==> vs[j] == node_view(#[trigger] nodes@[j]),
            pv == (match prefix {
                Some(p) => Some(p@),
                None => None::<Seq<char>>,
            }),
            out@ == old(out)@ + listing_lines(vs.take(i as int), pv),
        decreases n - i,
    {
        proof {
            let t = vs.take(i as int + 1);
            assert(t.drop_last() =~= vs.take(i as int));
            assert(t.last() == vs[i as int]);
        }
        write_listing_line(&nodes[i], prefix, out);
        proof {
            assert(out@ =~= old(out)@ + listing_lines(vs.take(i as int + 1), pv));
        }
        i += 1;
    }
    proof {
        assert(vs.take(n as int) =~= vs);
    }
}

/// An operation applied to every node that a path resolves to.
#[derive(Clone, Copy)]
pub enum Op<'a> {
    Assign(&'a str),
    AssignValue(&'a Value),
    Reset,
    Invoke(&'a str),
    Poke(Option<&'a str>),
    Print,
}

/// The mathematical form of an operation.
pub enum OpV {
    Assign(Seq<char>),
    AssignValue(ValueV),
    Reset,
    Invoke(Seq<char>),
    Poke(Option<Seq<char>>),
    Print,
}

impl<'a> View for Op<'a> {
    type V = OpV;

    open spec fn view(&self) -> OpV {
        match self {
            Op::Assign(s) => OpV::Assign(s@),
            Op::AssignValue(v) => OpV::AssignValue(v@),
            Op::Reset => OpV::Reset,
            Op::Invoke(s) => OpV::Invoke(s@),
            Op::Poke(o) => OpV::Poke(
                match o {
                    Some(s) => Some(s@),
                    None => None,
                },
            ),
            Op::Print => OpV::Print,
        }
    }
}

/// What happens at one exactly-matched node: the node afterwards, whether
/// the operation counts as having taken effect there, and the text written.
pub struct HitV {
    pub node: NodeV,
    pub success: bool,
    pub out: Seq<char>,
}

/// The effect of an operation on one exactly-matched node, reported under
/// the full path `fp`.
///
/// * `Set` parses into a matched property (errors are reported), and hands
///   the raw text to a matched action; list nodes are untouched.
/// * `SetValue` assigns directly into a matched property, and hands the
///   value's display string to a matched action.
/// * `Reset` resets a matched property, and every property under a matched
///   list; actions are ignored.
/// * `Invoke` hands the argument to a matched action and succeeds only
///   there.
/// * `Poke` sets (with an argument) or reads a property and reports its
///   value (after a failed set, the error line and then the unchanged
///   value), lists a matched list's direct children, and invokes a matched
///   action with the argument or the empty string. Every matched node
///   counts as actionable, a property also when its argument fails to
///   parse.
/// * `Print` reports a matched property's value, a list as `<path>...`, an
///   action as its bare path.
pub open spec fn hit_spec(n: NodeV, fp: Seq<char>, op: OpV) -> HitV {
    match op {
        OpV::Assign(s) => match n {
            NodeV::Prop(p) => HitV {
                node: NodeV::Prop(prop_set_spec(p, s)),
                success: prop_set_ok(p, s),
                out: if prop_set_ok(p, s) {
                    Seq::<char>::empty()
                } else {
                    error_line(fp, quote(s), prop_set_out(p, s))
                },
            },
            NodeV::List(_, _) => HitV { node: n, success: false, out: Seq::<char>::empty() },
            NodeV::Action(a) => HitV {
                node: NodeV::Action(ActionV { name: a.name, calls: a.calls.push(s) }),
                success: false,
                out: Seq::<char>::empty(),
            },
        },
        OpV::AssignValue(v) => match n {
            NodeV::Prop(p) => HitV {
                node: NodeV::Prop(prop_set_value_spec(p, v)),
                success: prop_set_value_ok(p, v),
                out: if prop_set_value_ok(p, v) {
                    Seq::<char>::empty()
                } else {
                    error_line(fp, quote(value_fmt(v)), prop_set_value_out(p, v))
                },
            },
            NodeV::List(_, _) => HitV { node: n, success: false, out: Seq::<char>::empty() },
            NodeV::Action(a) => HitV {
                node: NodeV::Action(ActionV { name: a.name, calls: a.calls.push(value_fmt(v)) }),
                success: false,
                out: Seq::<char>::empty(),
            },
        },
        OpV::Reset => match n {
            NodeV::Prop(p) => HitV {
                node: NodeV::Prop(prop_reset_spec(p)),
                success: false,
                out: Seq::<char>::empty(),
            },
            NodeV::List(name, kids) => HitV {
                node: NodeV::List(name, reset_all_nodes(kids)),
                success: false,
                out: Seq::<char>::empty(),
            },
            NodeV::Action(_) => HitV { node: n, success: false, out: Seq::<char>::empty() },
        },
        OpV::Invoke(args) => match n {
            NodeV::Action(a) => HitV {
                node: NodeV::Action(ActionV { name: a.name, calls: a.calls.push(args) }),
                success: true,
                out: Seq::<char>::empty(),
            },
            _ => HitV { node: n, success: false, out: Seq::<char>::empty() },
        },
        OpV::Poke(args) => match n {
            NodeV::Prop(p) => match args {
                Some(s) => HitV {
                    node: NodeV::Prop(prop_set_spec(p, s)),
                    success: true,
                    out: if prop_set_ok(p, s) {
                        prop_line(fp, prop_value_of(prop_set_spec(p, s)))
                    } else {
                        error_line(fp, quote(s), prop_set_out(p, s)) + prop_line(
                            fp,
                            prop_value_of(prop_set_spec(p, s)),
                        )
                    },
                },
                None => HitV {
                    node: n,
                    success: true,
                    out: prop_line(fp, prop_value_of(p)),
                },
            },
            NodeV::List(_, kids) => HitV {
                node: n,
                success: true,
                out: listing_lines(kids, Some(fp)),
            },
            NodeV::Action(a) => HitV {
                node: NodeV::Action(
                    ActionV {
                        name: a.name,
                        calls: a.calls.push(
                            match args {
                                Some(s) => s,
                                None => Seq::<char>::empty(),
                            },
                        ),
                    },
                ),
                success: true,
                out: Seq::<char>::empty(),
            },
        },
        OpV::Print => match n {
            NodeV::Prop(p) => HitV {
                node: n,
                success: false,
                out: prop_line(fp, prop_value_of(p)),
            },
            NodeV::List(_, _) => HitV {
                node: n,
                success: false,
                out: fp + ellipsis() + newline(),
            },
            NodeV::Action(_) => HitV { node: n, success: false, out: fp + newline() },
        },
    }
}

/// The result of an operation over a whole sequence of nodes.
pub struct ApplyV {
    pub nodes: Seq<NodeV>,
    pub success: bool,
    pub out: Seq<char>,
}

/// The effect of an operation at one node of the tree: applied on an exact
/// match, pushed into the children on a partial match against a list,
/// nothing otherwise.
pub open spec fn apply_node(n: NodeV, path: Seq<char>, fp: Seq<char>, op: OpV) -> HitV
    decreases n,
{
    if path == node_name(n) {
        hit_spec(n, fp, op)
    } else if is_partial_match(path, node_name(n)) && n is List {
        let sub = apply_nodes(n->List_1, partial_tail(path, node_name(n)), fp, op);
        HitV { node: NodeV::List(n->List_0, sub.nodes), success: sub.success, out: sub.out }
    } else {
        HitV { node: n, success: false, out: Seq::<char>::empty() }
    }
}

/// The effect of an operation over a sequence of nodes: every node keeps
/// its place, successes are joined, output accumulates in traversal order.
pub open spec fn apply_nodes(s: Seq<NodeV>, path: Seq<char>, fp: Seq<char>, op: OpV) -> ApplyV
    decreases s,
{
    if s.len() == 0 {
        ApplyV { nodes: Seq::<NodeV>::empty(), success: false, out: Seq::<char>::empty() }
    } else {
        let rest = apply_nodes(s.drop_last(), path, fp, op);
        let one = apply_node(s.last(), path, fp, op);
        ApplyV {
            nodes: rest.nodes.push(one.node),
            success: rest.success || one.success,
            out: rest.out + one.out,
        }
    }
}

/// One traversal step of [`apply_nodes`].
pub proof fn lemma_apply_nodes_step(s: Seq<NodeV>, path: Seq<char>, fp: Seq<char>, op: OpV, i: int)
    requires
        0 <= i < s.len(),
    ensures
        apply_nodes(s.take(i + 1), path, fp, op) == (ApplyV {
            nodes: apply_nodes(s.take(i), path, fp, op).nodes.push(
                apply_node(s[i], path, fp, op).node,
            ),
            success: apply_nodes(s.take(i), path, fp, op).success || apply_node(
                s[i],
                path,
                fp,
                op,
            ).success,
            out: apply_nodes(s.take(i), path, fp, op).out + apply_node(s[i], path, fp, op).out,
        }),
{
    assert(s.take(i + 1).drop_last() =~= s.take(i));
    assert(s.take(i + 1).last() == s[i]);
}

/// The nodes after an operation, pointwise.
pub proof fn lemma_apply_nodes_index(s: Seq<NodeV>, path: Seq<char>, fp: Seq<char>, op: OpV)
    ensures
        apply_nodes(s, path, fp, op).nodes.len() == s.len(),
        forall|i: int|
            0 <= i < s.len() ==> apply_nodes(s, path, fp, op).nodes[i] == apply_node(
                #[trigger] s[i],
                path,
                fp,
                op,
            ).node,
    decreases s,
{
    if s.len() > 0 {
        lemma_apply_nodes_index(s.drop_last(), path, fp, op);
        assert forall|i: int|
            0 <= i < s.len() implies apply_nodes(s, path, fp, op).nodes[i] == apply_node(
            #[trigger] s[i],
            path,
            fp,
            op,
        ).node by {
            if i < s.len() - 1 {
                assert(s.drop_last()[i] == s[i]);
                assert(apply_nodes(s, path, fp, op).nodes[i] == apply_nodes(
                    s.drop_last(),
                    path,
                    fp,
                    op,
                ).nodes[i]);
            } else {
                assert(s.last() == s[i]);
            }
        }
    }
}

/// An operation leaves every node's name in place.
pub proof fn lemma_hit_keeps_name(n: NodeV, fp: Seq<char>, op: OpV)
    ensures
        node_name(hit_spec(n, fp, op).node) == node_name(n),
{
}

/// An operation leaves every node's kind in place.
pub proof fn lemma_hit_keeps_kind(n: NodeV, fp: Seq<char>, op: OpV)
    ensures
        hit_spec(n, fp, op).node is Prop <==> n is Prop,
        hit_spec(n, fp, op).node is List <==> n is List,
        hit_spec(n, fp, op).node is Action <==> n is Action,
{
}

/// An operation transforms exactly the matched nodes: the nodes a path
/// matches after the operation are the nodes it matched before, each with
/// the operation applied — no match appears, disappears or moves.
pub proof fn lemma_apply_preserves_matches(s: Seq<NodeV>, path: Seq<char>, fp: Seq<char>, op: OpV)
    ensures
        matches_in(apply_nodes(s, path, fp, op).nodes, path) == matches_in(s, path).map_values(
            |m: NodeV| hit_spec(m, fp, op).node,
        ),
    decreases s,
{
    let f = |m: NodeV| hit_spec(m, fp, op).node;
    if s.len() == 0 {
        assert(matches_in(s, path).map_values(f) =~= Seq::<NodeV>::empty());
    } else {
        lemma_apply_preserves_matches(s.drop_last(), path, fp, op);
        lemma_apply_preserves_matches_node(s.last(), path, fp, op);
        let rest = apply_nodes(s.drop_last(), path, fp, op);
        let one = apply_node(s.last(), path, fp, op);
        assert(rest.nodes.push(one.node).drop_last() =~= rest.nodes);
        assert(rest.nodes.push(one.node).last() == one.node);
        assert(matches_in(rest.nodes.push(one.node), path) == matches_in(rest.nodes, path)
            + matches_node(one.node, path));
        assert((matches_in(s.drop_last(), path) + matches_node(s.last(), path)).map_values(f)
            =~= matches_in(s.drop_last(), path).map_values(f) + matches_node(
            s.last(),
            path,
        ).map_values(f));
    }
}

/// An operation transforms exactly the matched nodes, at a single node.
pub proof fn lemma_apply_preserves_matches_node(n: NodeV, path: Seq<char>, fp: Seq<char>, op: OpV)
    ensures
        matches_node(apply_node(n, path, fp, op).node, path) == matches_node(n, path).map_values(
            |m: NodeV| hit_spec(m, fp, op).node,
        ),
    decreases n,
{
    let f = |m: NodeV| hit_spec(m, fp, op).node;
    lemma_hit_keeps_name(n, fp, op);
    lemma_hit_keeps_kind(n, fp, op);
    if path == node_name(n) {
        let h = hit_spec(n, fp, op);
        assert(matches_node(h.node, path) =~= seq![h.node]);
        assert(matches_node(n, path) =~= seq![n]);
        assert(seq![n].map_values(f) =~= seq![h.node]);
    } else if is_partial_match(path, node_name(n)) && n is List {
        let tail = partial_tail(path, node_name(n));
        lemma_apply_preserves_matches(n->List_1, tail, fp, op);
        let sub = apply_nodes(n->List_1, tail, fp, op);
        let new = apply_node(n, path, fp, op).node;
        assert(new == NodeV::List(n->List_0, sub.nodes));
        assert(node_name(new) == node_name(n));
        assert(matches_node(new, path) == matches_in(sub.nodes, tail));
    } else {
        assert(matches_node(n, path) =~= Seq::<NodeV>::empty());
        assert(matches_node(n, path).map_values(f) =~= Seq::<NodeV>::empty());
    }
}

/// Round-trip at the tree level: after `set` with the display string of a
/// value `v` of the property's own concrete type, every matched standard or
/// owned property holds exactly `v`.
pub proof fn lemma_set_then_get(s: Seq<NodeV>, path: Seq<char>, fp: Seq<char>, v: ValueV, k: int)
    requires
        0 <= k < matches_in(s, path).len(),
        matches_in(s, path)[k] is Prop,
        (matches_in(s, path)[k]->Prop_0 is Standard && crate::value::same_tag(
            (matches_in(s, path)[k]->Prop_0)->Standard_0.value,
            v,
        )) || (matches_in(s, path)[k]->Prop_0 is Owned && crate::value::same_tag(
            (matches_in(s, path)[k]->Prop_0)->Owned_0.value,
            v,
        )),
    ensures
        ({
            let new_matches = matches_in(
                apply_nodes(s, path, fp, OpV::Assign(value_fmt(v))).nodes,
                path,
            );
            new_matches[k] is Prop && prop_value_of(new_matches[k]->Prop_0) == v
        }),
{
    let op = OpV::Assign(value_fmt(v));
    lemma_apply_preserves_matches(s, path, fp, op);
    let m = matches_in(s, path)[k];
    if m->Prop_0 is Standard {
        crate::value::lemma_value_roundtrip((m->Prop_0)->Standard_0.value, v);
    } else {
        crate::value::lemma_value_roundtrip((m->Prop_0)->Owned_0.value, v);
    }
}

/// Invoking a path reaches every action it names: each sibling action whose
/// name equals the path — also when several share that name — has the
/// argument appended to its call log, independently of the others.
pub proof fn lemma_invoke_reaches_every_action(
    s: Seq<NodeV>,
    path: Seq<char>,
    fp: Seq<char>,
    args: Seq<char>,
    i: int,
)
    requires
        0 <= i < s.len(),
        s[i] is Action,
        node_name(s[i]) == path,
    ensures
        apply_nodes(s, path, fp, OpV::Invoke(args)).nodes[i] == NodeV::Action(
            ActionV {
                name: s[i]->Action_0.name,
                calls: s[i]->Action_0.calls.push(args),
            },
        ),
{
    lemma_apply_nodes_index(s, path, fp, OpV::Invoke(args));
}

/// Applies an operation to one exactly-matched node.
fn hit_node_exec(n: &Node, fp: &str, op: Op<'_>, writer: &mut String) -> (r: (Node, bool))
    ensures
        ({
            let h = hit_spec(node_view(*n), fp@, op@);
            &&& node_view(r.0) == h.node
            &&& r.1 == h.success
            &&& final(writer)@ == old(writer)@ + h.out
        }),
{
    match op {
        Op::Assign(val) => match n {
            Node::Prop(p) => {
                let mut q = p.duplicate();
                let mut msg = String::new();
                let ok = q.set(val, &mut msg);
                if !ok {
                    let mut shown = String::new();
                    write_quoted(val, &mut shown);
                    proof {
                        assert(shown@ =~= quote(val@));
                        assert(Seq::<char>::empty() + prop_set_out(p@, val@) =~= prop_set_out(
                            p@,
                            val@,
                        ));
                    }
                    write_error_line(fp, &shown, &msg, writer);
                } else {
                    proof {
                        assert(final(writer)@ =~= old(writer)@ + Seq::<char>::empty());
                    }
                }
                (Node::Prop(q), ok)
            },
            Node::List(_) => {
                proof {
                    assert(final(writer)@ =~= old(writer)@ + Seq::<char>::empty());
                }
                (n.duplicate(), false)
            },
            Node::Action(a) => {
                let mut b = a.duplicate();
                b.invoke(val);
                proof {
                    assert(final(writer)@ =~= old(writer)@ + Seq::<char>::empty());
                }
                (Node::Action(b), false)
            },
        },
        Op::AssignValue(val) => match n {
            Node::Prop(p) => {
                let mut q = p.duplicate();
                let mut msg = String::new();
                let ok = q.set_value(val, &mut msg);
                if !ok {
                    let text = val.to_display();
                    let mut shown = String::new();
                    write_quoted(text.as_str(), &mut shown);
                    proof {
                        assert(shown@ =~= quote(value_fmt(val@)));
                        assert(Seq::<char>::empty() + prop_set_value_out(p@, val@)
                            =~= prop_set_value_out(p@, val@));
                    }
                    write_error_line(fp, &shown, &msg, writer);
                } else {
                    proof {
                        assert(final(writer)@ =~= old(writer)@ + Seq::<char>::empty());
                    }
                }
                (Node::Prop(q), ok)
            },
            Node::List(_) => {
                proof {
                    assert(final(writer)@ =~= old(writer)@ + Seq::<char>::empty());
                }
                (n.duplicate(), false)
            },
            Node::Action(a) => {
                let mut b = a.duplicate();
                let text = val.to_display();
                b.invoke(text.as_str());
                proof {
                    assert(final(writer)@ =~= old(writer)@ + Seq::<char>::empty());
                }
                (Node::Action(b), false)
            },
        },
        Op::Reset => match n {
            Node::Prop(p) => {
                let mut q = p.duplicate();
                q.reset();
                proof {
                    assert(final(writer)@ =~= old(writer)@ + Seq::<char>::empty());
                }
                (Node::Prop(q), false)
            },
            Node::List(l) => {
                let kids = reset_nodes_ref(&l.visit.nodes);
                proof {
                    assert(final(writer)@ =~= old(writer)@ + Seq::<char>::empty());
                }
                (Node::List(List { name: l.name.clone(), visit: Visit { nodes: kids } }), false)
            },
            Node::Action(_) => {
                proof {
                    assert(final(writer)@ =~= old(writer)@ + Seq::<char>::empty());
                }
                (n.duplicate(), false)
            },
        },
        Op::Invoke(args) => match n {
            Node::Action(a) => {
                let mut b = a.duplicate();
                b.invoke(args);
                proof {
                    assert(final(writer)@ =~= old(writer)@ + Seq::<char>::empty());
                }
                (Node::Action(b), true)
            },
            _ => {
                proof {
                    assert(final(writer)@ =~= old(writer)@ + Seq::<char>::empty());
                }
                (n.duplicate(), false)
            },
        },
        Op::Poke(args) => match n {
            Node::Prop(p) => match args {
                Some(val) => {
                    let mut q = p.duplicate();
                    let mut msg = String::new();
                    let ok = q.set(val, &mut msg);
                    if ok {
                        let text = q.get_value().to_display();
                        write_prop_line(fp, text.as_str(), writer);
                        proof {
                            assert(final(writer)@ =~= old(writer)@ + prop_line(
                                fp@,
                                prop_value_of(prop_set_spec(p@, val@)),
                            ));
                        }
                    } else {
                        let mut shown = String::new();
                        write_quoted(val, &mut shown);
                        proof {
                            assert(shown@ =~= quote(val@));
                            assert(Seq::<char>::empty() + prop_set_out(p@, val@)
                                =~= prop_set_out(p@, val@));
                        }
                        write_error_line(fp, &shown, &msg, writer);
                        let text = q.get_value().to_display();
                        write_prop_line(fp, text.as_str(), writer);
                        proof {
                            assert(final(writer)@ =~= old(writer)@ + (error_line(
                                fp@,
                                quote(val@),
                                prop_set_out(p@, val@),
                            ) + prop_line(fp@, prop_value_of(prop_set_spec(p@, val@)))));
                        }
                    }
                    (Node::Prop(q), true)
                },
                None => {
                    let text = p.get_value().to_display();
                    write_prop_line(fp, text.as_str(), writer);
                    proof {
                        assert(final(writer)@ =~= old(writer)@ + prop_line(
                            fp@,
                            prop_value_of(p@),
                        ));
                    }
                    (n.duplicate(), true)
                },
            },
            Node::List(l) => {
                write_listing(&l.visit.nodes, Some(fp), writer);
                (n.duplicate(), true)
            },
            Node::Action(a) => {
                let mut b = a.duplicate();
                match args {
                    Some(s) => b.invoke(s),
                    None => {
                        proof {
                            reveal_strlit("");
                            assert(""@ =~= Seq::<char>::empty());
                        }
                        b.invoke("");
                    },
                }
                proof {
                    assert(final(writer)@ =~= old(writer)@ + Seq::<char>::empty());
                }
                (Node::Action(b), true)
            },
        },
        Op::Print => match n {
            Node::Prop(p) => {
                let text = p.get_value().to_display();
                write_prop_line(fp, text.as_str(), writer);
                proof {
                    assert(final(writer)@ =~= old(writer)@ + prop_line(fp@, prop_value_of(p@)));
                }
                (n.duplicate(), false)
            },
            Node::List(l) => {
                proof {
                    reveal_strlit("...");
                    reveal_strlit("\n");
                }
                writer.append(fp);
                writer.append("...");
                writer.append("\n");
                proof {
                    assert(final(writer)@ =~= old(writer)@ + (fp@ + ellipsis() + newline()));
                }
                (n.duplicate(), false)
            },
            Node::Action(a) => {
                proof {
                    reveal_strlit("\n");
                }
                writer.append(fp);
                writer.append("\n");
                proof {
                    assert(final(writer)@ =~= old(writer)@ + (fp@ + newline()));
                }
                (n.duplicate(), false)
            },
        },
    }
}

/// Applies an operation at one node: on an exact match directly, on a
/// partial match within the children of a list.
fn apply_node_ref(n: &Node, path: &str, fp: &str, op: Op<'_>, writer: &mut String) -> (r: (
    Node,
    bool,
))
    ensures
        ({
            let h = apply_node(node_view(*n), path@, fp@, op@);
            &&& node_view(r.0) == h.node
            &&& r.1 == h.success
            &&& final(writer)@ == old(writer)@ + h.out
        }),
    decreases *n,
{
    let c = ComparePath::cmp(path, n.name());
    match c {
        ComparePath::True => hit_node_exec(n, fp, op, writer),
        ComparePath::Part(tail) => match n {
            Node::List(l) => {
                let ghost kv = nodes_view(l.visit.nodes@);
                proof {
                    lemma_nodes_view_index(l.visit.nodes@);
                }
                let mut kids: Vec<Node> = Vec::new();
                let mut succ = false;
                let cnt = l.visit.nodes.len();
                let mut i: usize = 0;
                while i < cnt
                    invariant
                        *n == Node::List(*l),
                        i <= cnt,
                        cnt == l.visit.nodes@.len(),
                        kv == nodes_view(l.visit.nodes@),
                        kv.len() == cnt,
                        forall|j: int|
                            0 <= j < cnt ==> kv[j] == node_view(#[trigger] l.visit.nodes@[j]),
                        kids@.len() == i,
                        forall|j: int|
                            0 <= j < i ==> node_view(#[trigger] kids@[j]) == apply_node(
                                kv[j],
                                tail@,
                                fp@,
                                op@,
                            ).node,
                        succ == apply_nodes(kv.take(i as int), tail@, fp@, op@).success,
                        writer@ == old(writer)@ + apply_nodes(kv.take(i as int), tail@, fp@, op@).out,
                    decreases cnt - i,
                {
                    proof {
                        lemma_apply_nodes_step(kv, tail@, fp@, op@, i as int);
                        broadcast use vstd::std_specs::vec::group_vec_axioms;

                        assert((*n)->List_0 == *l);
                        assert(decreases_to!(*n => (*n)->List_0));
                        assert(decreases_to!(*l => l.visit));
                        assert(decreases_to!(l.visit => l.visit.nodes));
                        assert(decreases_to!(l.visit.nodes => l.visit.nodes@));
                        assert(decreases_to!(l.visit.nodes@ => l.visit.nodes@[i as int]));
                    }
                    let child = &l.visit.nodes[i];
                    let (nd, s2) = apply_node_ref(child, tail, fp, op, writer);
                    kids.push(nd);
                    succ = succ || s2;
                    i += 1;
                }
                proof {
                    let sub = apply_nodes(kv, tail@, fp@, op@);
                    assert(kv.take(cnt as int) =~= kv);
                    lemma_nodes_view_index(kids@);
                    lemma_apply_nodes_index(kv, tail@, fp@, op@);
                    assert forall|j: int|
                        0 <= j < cnt implies nodes_view(kids@)[j] == sub.nodes[j] by {
                        assert(node_view(kids@[j]) == apply_node(kv[j], tail@, fp@, op@).node);
                    }
                    assert(nodes_view(kids@) =~= sub.nodes);
                }
                (Node::List(List { name: l.name.clone(), visit: Visit { nodes: kids } }), succ)
            },
            _ => {
                proof {
                    assert(final(writer)@ =~= old(writer)@ + Seq::<char>::empty());
                }
                (n.duplicate(), false)
            },
        },
        ComparePath::False => {
            proof {
                assert(final(writer)@ =~= old(writer)@ + Seq::<char>::empty());
            }
            (n.duplicate(), false)
        },
    }
}

/// Applies an operation over the top-level nodes.
fn apply_nodes_ref(nodes: &Vec<Node>, path: &str, fp: &str, op: Op<'_>, writer: &mut String) -> (r:
    (Vec<Node>, bool))
    ensures
        ({
            let a = apply_nodes(nodes_view(nodes@), path@, fp@, op@);
            &&& nodes_view(r.0@) == a.nodes
            &&& r.1 == a.success
            &&& final(writer)@ == old(writer)@ + a.out
        }),
{
    let ghost vs = nodes_view(nodes@);
    proof {
        lemma_nodes_view_index(nodes@);
    }
    let mut out: Vec<Node> = Vec::new();
    let mut succ = false;
    let n = nodes.len();
    let mut i: usize = 0;
    while i < n
        invariant
            n == nodes@.len(),
            i <= n,
            vs == nodes_view(nodes@),
            vs.len() == n,
            forall|j: int| 0 <= j < n ==> vs[j] == node_view(#[trigger] nodes@[j]),
            out@.len() == i,
            forall|j: int|
                0 <= j < i ==> node_view(#[trigger] out@[j]) == apply_node(
                    vs[j],
                    path@,
                    fp@,
                    op@,
                ).node,
            succ == apply_nodes(vs.take(i as int), path@, fp@, op@).success,
            writer@ == old(writer)@ + apply_nodes(vs.take(i as int), path@, fp@, op@).out,
        decreases n - i,
    {
        proof {
            lemma_apply_nodes_step(vs, path@, fp@, op@, i as int);
        }
        let (nd, s2) = apply_node_ref(&nodes[i], path, fp, op, writer);
        out.push(nd);
        succ = succ || s2;
        i += 1;
    }
    proof {
        let a = apply_nodes(vs, path@, fp@, op@);
        assert(vs.take(n as int) =~= vs);
        lemma_nodes_view_index(out@);
        lemma_apply_nodes_index(vs, path@, fp@, op@);
        assert forall|j: int| 0 <= j < n implies nodes_view(out@)[j] == a.nodes[j] by {
            assert(node_view(out@[j]) == apply_node(vs[j], path@, fp@, op@).node);
        }
        assert(nodes_view(out@) =~= a.nodes);
    }
    (out, succ)
}

/// Sets a property's value parsed from a string.
///
/// Every node the path resolves to is handled: a property is assigned (on a
/// parse failure an `error:` line is written and the value left unchanged),
/// an action is invoked with the value as its argument, a list is left
/// alone. Returns whether at least one property was assigned; when nothing
/// matches at all, an `unknown:` line is written.
pub fn set(root: &mut Visit, path: &str, val: &str, writer: &mut String) -> (r: bool)
    ensures
        ({
            let a = apply_nodes(old(root)@, path@, path@, OpV::Assign(val@));
            &&& final(root)@ == a.nodes
            &&& r == a.success
            &&& final(writer)@ == old(writer)@ + a.out + if matches_in(old(root)@, path@).len()
                == 0 {
                unknown_line(path@)
            } else {
                Seq::<char>::empty()
            }
        }),
{
    let (found, _, _) = search_full(&root.nodes, path);
    let (fresh, succ) = apply_nodes_ref(&root.nodes, path, path, Op::Assign(val), writer);
    root.nodes = fresh;
    if !found {
        write_unknown_line(path, writer);
    } else {
        proof {
            assert(final(writer)@ =~= final(writer)@ + Seq::<char>::empty());
        }
    }
    succ
}

/// Sets a property's value directly, without parsing.
///
/// A property of another concrete type is refused with an `error:` line; an
/// action is invoked with the value's display string. Returns whether at
/// least one property was assigned; when nothing matches at all, an
/// `unknown:` line is written.
pub fn set_value(root: &mut Visit, path: &str, val: &Value, writer: &mut String) -> (r: bool)
    ensures
        ({
            let a = apply_nodes(old(root)@, path@, path@, OpV::AssignValue(val@));
            &&& final(root)@ == a.nodes
            &&& r == a.success
            &&& final(writer)@ == old(writer)@ + a.out + if matches_in(old(root)@, path@).len()
                == 0 {
                unknown_line(path@)
            } else {
                Seq::<char>::empty()
            }
        }),
{
    let (found, _, _) = search_full(&root.nodes, path);
    let (fresh, succ) = apply_nodes_ref(&root.nodes, path, path, Op::AssignValue(val), writer);
    root.nodes = fresh;
    if !found {
        write_unknown_line(path, writer);
    } else {
        proof {
            assert(final(writer)@ =~= final(writer)@ + Seq::<char>::empty());
        }
    }
    succ
}

/// Resets properties to their default.
///
/// A matched property is reset; a matched list has all its properties reset
/// throughout; actions are ignored. Returns whether any node matched.
pub fn reset(root: &mut Visit, path: &str) -> (r: bool)
    ensures
        final(root)@ == apply_nodes(old(root)@, path@, path@, OpV::Reset).nodes,
        r == (matches_in(old(root)@, path@).len() > 0),
{
    let (found, _, _) = search_full(&root.nodes, path);
    let mut sink = String::new();
    let (fresh, _) = apply_nodes_ref(&root.nodes, path, path, Op::Reset, &mut sink);
    root.nodes = fresh;
    found
}

/// Invokes an action with a raw argument string.
///
/// Every matched action records the invocation; other node kinds are left
/// alone. Returns whether at least one action was invoked.
pub fn invoke(root: &mut Visit, path: &str, args: &str, writer: &mut String) -> (r: bool)
    ensures
        ({
            let a = apply_nodes(old(root)@, path@, path@, OpV::Invoke(args@));
            &&& final(root)@ == a.nodes
            &&& r == a.success
            &&& final(writer)@ == old(writer)@ + a.out
        }),
{
    let (fresh, succ) = apply_nodes_ref(&root.nodes, path, path, Op::Invoke(args), writer);
    root.nodes = fresh;
    succ
}

/// The view of an optional argument string.
pub open spec fn opt_text(o: Option<&str>) -> Option<Seq<char>> {
    match o {
        Some(s) => Some(s@),
        None => None,
    }
}

/// Pokes the tree: one operation combining `get`, `set` and `invoke`.
///
/// With an empty path, the root's direct children are listed and `true` is
/// returned. Otherwise every matched property is read (or, with an
/// argument, assigned) and reported as `<path> is <value>` — after a failed
/// set the error line is written and the line shows the unchanged value — a
/// matched list has its direct children listed, and a matched action is
/// invoked with the argument or the empty string. Returns whether the path
/// resolved to something actionable; when nothing matches, an `unknown:`
/// line is written.
pub fn poke(root: &mut Visit, path: &str, args: Option<&str>, writer: &mut String) -> (r: bool)
    ensures
        path@.len() == 0 ==> r == true && final(root)@ == old(root)@ && final(writer)@ == old(
            writer,
        )@ + listing_lines(old(root)@, None),
        path@.len() > 0 ==> ({
            let a = apply_nodes(old(root)@, path@, path@, OpV::Poke(opt_text(args)));
            &&& final(root)@ == a.nodes
            &&& r == a.success
            &&& final(writer)@ == old(writer)@ + a.out + if matches_in(old(root)@, path@).len()
                == 0 {
                unknown_line(path@)
            } else {
                Seq::<char>::empty()
            }
        }),
{
    if path.unicode_len() == 0 {
        write_listing(&root.nodes, None, writer);
        return true;
    }
    let (found, _, _) = search_full(&root.nodes, path);
    let (fresh, succ) = apply_nodes_ref(&root.nodes, path, path, Op::Poke(args), writer);
    root.nodes = fresh;
    if !found {
        write_unknown_line(path, writer);
    } else {
        proof {
            assert(final(writer)@ =~= final(writer)@ + Seq::<char>::empty());
        }
    }
    succ
}

/// Lists nodes.
///
/// With an empty path, the root's direct children are listed one per line.
/// Otherwise each matched node is reported: a property as
/// `<path> is <value>`, a list as `<path>...`, an action as its bare path;
/// when nothing matches, an `unknown:` line is written.
pub fn print(root: &Visit, path: &str, writer: &mut String)
    ensures
        path@.len() == 0 ==> final(writer)@ == old(writer)@ + listing_lines(root@, None),
        path@.len() > 0 ==> final(writer)@ == old(writer)@ + apply_nodes(
            root@,
            path@,
            path@,
            OpV::Print,
        ).out + if matches_in(root@, path@).len() == 0 {
            unknown_line(path@)
        } else {
            Seq::<char>::empty()
        },
{
    if path.unicode_len() == 0 {
        write_listing(&root.nodes, None, writer);
        return ;
    }
    let (found, _, _) = search_full(&root.nodes, path);
    let (_, _) = apply_nodes_ref(&root.nodes, path, path, Op::Print, writer);
    if !found {
        write_unknown_line(path, writer);
    } else {
        proof {
            assert(final(writer)@ =~= final(writer)@ + Seq::<char>::empty());
        }
    }
}

} // verus!
