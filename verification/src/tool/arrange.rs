//! Arranging nodes by key: what it means for nodes to stand in ascending
//! order, and why that arrangement is the same for every order in which the
//! nodes are handed in.

use vstd::prelude::*;
use vstd::relations::{sorted_by, total_ordering};
use vstd::seq_lib::lemma_sorted_unique;
use crate::tool::order::{
    bytes_lt, lemma_lt_asymmetric, lemma_lt_irreflexive, lemma_lt_total, lemma_lt_transitive,
};
use crate::tool::types::Node;

verus! {

/// The keys of the nodes grow strictly from each node to every later one.
pub open spec fn is_ascending(t: Seq<Node>) -> bool {
    forall|i: int, j: int| 0 <= i < j < t.len() ==> bytes_lt(#[trigger] t[i].curr, #[trigger] t[j].curr)
}

/// No node has a key that comes before the key of an earlier node.
pub open spec fn is_sorted(t: Seq<Node>) -> bool {
    forall|i: int, j: int|
        0 <= i < j < t.len() ==> !bytes_lt(#[trigger] t[j].curr, #[trigger] t[i].curr)
}

/// No two nodes share a key.
pub open spec fn distinct_currs(s: Seq<Node>) -> bool {
    forall|i: int, j: int| 0 <= i < j < s.len() ==> (#[trigger] s[i]).curr != (#[trigger] s[j]).curr
}

/// The same nodes in ascending order of their keys. There is one such
/// arrangement when no two nodes share a key, and none otherwise.
pub open spec fn ascending(s: Seq<Node>) -> Seq<Node> {
    choose|t: Seq<Node>| is_ascending(t) && t.to_multiset() == s.to_multiset()
}

/// Nodes ordered by key first and by successor second.
pub open spec fn node_leq(a: Node, b: Node) -> bool {
    bytes_lt(a.curr, b.curr) || (a.curr == b.curr && (a.next == b.next || bytes_lt(a.next, b.next)))
}

proof fn lemma_node_leq_total_ordering()
    ensures
        total_ordering(|a: Node, b: Node| node_leq(a, b)),
{
    let r = |a: Node, b: Node| node_leq(a, b);
    assert forall|a: Node, b: Node| #[trigger] r(a, b) && #[trigger] r(b, a) implies a == b by {
        if bytes_lt(a.curr, b.curr) {
            lemma_lt_asymmetric(a.curr, b.curr);
            lemma_lt_irreflexive(a.curr);
        } else if bytes_lt(b.curr, a.curr) {
            lemma_lt_irreflexive(a.curr);
        } else if bytes_lt(a.next, b.next) {
            lemma_lt_asymmetric(a.next, b.next);
            lemma_lt_irreflexive(a.next);
        }
    }
    assert forall|a: Node, b: Node, c: Node| #[trigger] r(a, b) && #[trigger] r(b, c) implies r(
        a,
        c,
    ) by {
        if bytes_lt(a.curr, b.curr) && bytes_lt(b.curr, c.curr) {
            lemma_lt_transitive(a.curr, b.curr, c.curr);
        } else if a.curr == b.curr && b.curr == c.curr && bytes_lt(a.next, b.next) && bytes_lt(
            b.next,
            c.next,
        ) {
            lemma_lt_transitive(a.next, b.next, c.next);
        }
    }
    assert forall|a: Node, b: Node| #[trigger] r(a, b) || #[trigger] r(b, a) by {
        lemma_lt_total(a.curr, b.curr);
        lemma_lt_total(a.next, b.next);
    }
}

/// Two ascending arrangements of the same nodes are the same sequence.
pub proof fn lemma_ascending_unique(t1: Seq<Node>, t2: Seq<Node>)
    requires
        is_ascending(t1),
        is_ascending(t2),
        t1.to_multiset() == t2.to_multiset(),
    ensures
        t1 == t2,
{
    let r = |a: Node, b: Node| node_leq(a, b);
    lemma_node_leq_total_ordering();
    assert(sorted_by(t1, r));
    assert(sorted_by(t2, r));
    lemma_sorted_unique(t1, t2, r);
}

/// An ascending arrangement of the nodes of `s` is the one that `ascending`
/// names.
pub proof fn lemma_ascending_is(s: Seq<Node>, t: Seq<Node>)
    requires
        is_ascending(t),
        t.to_multiset() == s.to_multiset(),
    ensures
        ascending(s) == t,
{
    lemma_ascending_unique(ascending(s), t);
}

/// A value that stands at two places of a sequence occurs at least twice in
/// its multiset.
proof fn lemma_twice_counts<A>(q: Seq<A>, i: int, j: int)
    requires
        0 <= i < j < q.len(),
        q[i] == q[j],
    ensures
        q.to_multiset().count(q[i]) >= 2,
{
    broadcast use vstd::multiset::group_multiset_axioms;

    let r = q.remove(i);
    vstd::seq_lib::to_multiset_remove(q, i);
    assert(r[j - 1] == q[j]);
    assert(r.contains(q[i]));
    vstd::seq_lib::to_multiset_contains(r, q[i]);
    vstd::seq_lib::to_multiset_contains(q, q[i]);
    assert(q.contains(q[i]));
}

/// A value that occurs at least twice in the multiset of a sequence stands at
/// two places of it.
proof fn lemma_counts_twice<A>(q: Seq<A>, x: A) -> (places: (int, int))
    requires
        q.to_multiset().count(x) >= 2,
    ensures
        0 <= places.0 < places.1 < q.len(),
        q[places.0] == x,
        q[places.1] == x,
{
    broadcast use vstd::multiset::group_multiset_axioms;

    vstd::seq_lib::to_multiset_contains(q, x);
    let a = choose|a: int| 0 <= a < q.len() && q[a] == x;
    let r = q.remove(a);
    vstd::seq_lib::to_multiset_remove(q, a);
    vstd::seq_lib::to_multiset_contains(r, x);
    let b0 = choose|b: int| 0 <= b < r.len() && r[b] == x;
    let b = if b0 < a {
        b0
    } else {
        b0 + 1
    };
    assert(q[b] == x);
    if a < b {
        (a, b)
    } else {
        (b, a)
    }
}

/// Whether two nodes share a key does not depend on the order of the nodes.
pub proof fn lemma_distinct_currs_rearranged(s: Seq<Node>, t: Seq<Node>)
    requires
        s.to_multiset() == t.to_multiset(),
        distinct_currs(s),
    ensures
        distinct_currs(t),
{
    assert forall|i: int, j: int| 0 <= i < j < t.len() implies (#[trigger] t[i]).curr != (
    #[trigger] t[j]).curr by {
        if t[i].curr == t[j].curr {
            if t[i] == t[j] {
                lemma_twice_counts(t, i, j);
                let (a, b) = lemma_counts_twice(s, t[i]);
                assert(s[a].curr == s[b].curr);
            } else {
                vstd::seq_lib::to_multiset_contains(t, t[i]);
                vstd::seq_lib::to_multiset_contains(t, t[j]);
                vstd::seq_lib::to_multiset_contains(s, t[i]);
                vstd::seq_lib::to_multiset_contains(s, t[j]);
                assert(t.contains(t[i]));
                assert(t.contains(t[j]));
                let a = choose|a: int| 0 <= a < s.len() && s[a] == t[i];
                let b = choose|b: int| 0 <= b < s.len() && s[b] == t[j];
                if a < b {
                    assert(s[a].curr == s[b].curr);
                } else {
                    assert(s[b].curr == s[a].curr);
                }
            }
        }
    }
}

/// Nodes in ascending order have different keys.
pub proof fn lemma_ascending_distinct(t: Seq<Node>)
    requires
        is_ascending(t),
    ensures
        distinct_currs(t),
{
    assert forall|i: int, j: int| 0 <= i < j < t.len() implies (#[trigger] t[i]).curr != (
    #[trigger] t[j]).curr by {
        lemma_lt_irreflexive(t[i].curr);
    }
}

/// Sorted nodes of which no two neighbours share a key are in ascending
/// order.
pub proof fn lemma_sorted_distinct_neighbours(t: Seq<Node>)
    requires
        is_sorted(t),
        forall|k: int| 0 < k < t.len() ==> (#[trigger] t[k - 1]).curr != t[k].curr,
    ensures
        is_ascending(t),
{
    assert forall|i: int, j: int| 0 <= i < j < t.len() implies bytes_lt(
        #[trigger] t[i].curr,
        #[trigger] t[j].curr,
    ) by {
        lemma_between_neighbours(t, i, j);
    }
}

proof fn lemma_between_neighbours(t: Seq<Node>, i: int, j: int)
    requires
        is_sorted(t),
        forall|k: int| 0 < k < t.len() ==> (#[trigger] t[k - 1]).curr != t[k].curr,
        0 <= i < j < t.len(),
    ensures
        bytes_lt(t[i].curr, t[j].curr),
    decreases j - i,
{
    assert(t[j - 1].curr != t[j].curr);
    lemma_lt_total(t[j - 1].curr, t[j].curr);
    assert(!bytes_lt(t[j].curr, t[j - 1].curr));
    if i < j - 1 {
        lemma_between_neighbours(t, i, j - 1);
        lemma_lt_transitive(t[i].curr, t[j - 1].curr, t[j].curr);
    }
}

/// Nodes of which no two share a key have an ascending arrangement, and
/// `ascending` names it.
pub proof fn lemma_ascending_exists(s: Seq<Node>)
    requires
        distinct_currs(s),
    ensures
        is_ascending(ascending(s)),
        ascending(s).to_multiset() == s.to_multiset(),
{
    let r = |a: Node, b: Node| node_leq(a, b);
    lemma_node_leq_total_ordering();
    s.lemma_sort_by_ensures(r);
    let t = s.sort_by(r);
    lemma_distinct_currs_rearranged(s, t);
    assert forall|i: int, j: int| 0 <= i < j < t.len() implies bytes_lt(
        #[trigger] t[i].curr,
        #[trigger] t[j].curr,
    ) by {
        assert(r(t[i], t[j]));
        assert(t[i].curr != t[j].curr);
    }
    lemma_ascending_is(s, t);
}

} // verus!
