//! What holds of the two checks on the stretches of a well-formed list.

use vstd::prelude::*;
use vstd::seq_lib::lemma_multiset_commutative;
use crate::tool::arc::{
    closes, gap_at, gap_before, ordered_fault, ordered_first_fault, ordered_summary,
    rotated_fault, rotated_first_fault, rotated_summary, unordered_summary, wrap_before,
};
use crate::tool::arrange::{
    is_ascending, lemma_ascending_distinct, lemma_ascending_is, lemma_distinct_currs_rearranged,
};
use crate::tool::error::Error;
use crate::tool::order::{bytes_lt, lemma_lt_asymmetric, lemma_lt_irreflexive, lemma_lt_transitive};
use crate::tool::types::{Arc, Node};

verus! {

/// A whole list, its nodes in ascending order of their keys: each node is
/// followed by the node with the next greater key, and the last node by the
/// first. A list has at least two nodes, since no node follows itself.
pub open spec fn is_list(l: Seq<Node>) -> bool {
    &&& l.len() >= 2
    &&& forall|i: int|
        0 <= i < l.len() - 1 ==> (#[trigger] l[i]).next == l[i + 1].curr && bytes_lt(
            l[i].curr,
            l[i + 1].curr,
        )
    &&& l.last().next == l[0].curr
}

/// The place in the list that lies `k` nodes after the head, going round.
pub open spec fn place(l: Seq<Node>, k: int) -> int {
    if k < l.len() {
        k
    } else {
        k - l.len()
    }
}

/// The stretch of `n` nodes of the list that begins at place `p`, in the
/// order in which each node follows the one before. It goes round from the
/// last node to the head where it has to.
pub open spec fn arc_of(l: Seq<Node>, p: int, n: int) -> Seq<Node> {
    Seq::new(n as nat, |i: int| l[place(l, p + i)])
}

/// The arc that the stretch of `n` nodes from place `p` stands for.
pub open spec fn arc_ends(l: Seq<Node>, p: int, n: int) -> Arc {
    Arc { start: l[p].curr, end: l[place(l, p + n)].curr }
}

/// The keys of a list grow from each node to every later one.
pub proof fn lemma_list_ascending(l: Seq<Node>, i: int, j: int)
    requires
        is_list(l),
        0 <= i < j < l.len(),
    ensures
        bytes_lt(l[i].curr, l[j].curr),
    decreases j - i,
{
    if i < j - 1 {
        lemma_list_ascending(l, i, j - 1);
        lemma_lt_transitive(l[i].curr, l[j - 1].curr, l[j].curr);
    }
}

/// In a list only the last node points back, and no node names itself.
pub proof fn lemma_list_nodes(l: Seq<Node>, i: int)
    requires
        is_list(l),
        0 <= i < l.len(),
    ensures
        !l[i].is_self(),
        l[i].is_wrap() <==> i == l.len() - 1,
        l[i].next == l[place(l, i + 1)].curr,
{
    if i < l.len() - 1 {
        lemma_lt_asymmetric(l[i].curr, l[i + 1].curr);
        lemma_lt_irreflexive(l[i].curr);
    } else {
        lemma_list_ascending(l, 0, i);
        lemma_lt_irreflexive(l[i].curr);
    }
}

/// Two different places of a list hold different keys.
proof fn lemma_list_keys_differ(l: Seq<Node>, i: int, j: int)
    requires
        is_list(l),
        0 <= i < l.len(),
        0 <= j < l.len(),
        i != j,
    ensures
        l[i].curr != l[j].curr,
{
    if i < j {
        lemma_list_ascending(l, i, j);
    } else {
        lemma_list_ascending(l, j, i);
    }
    lemma_lt_irreflexive(l[i].curr);
}

proof fn lemma_arc_no_wrap_before(l: Seq<Node>, p: int, n: int, i: int)
    requires
        is_list(l),
        0 <= p < l.len(),
        1 <= n <= l.len(),
        0 <= i < n,
        arc_of(l, p, n)[i].is_wrap(),
    ensures
        !wrap_before(arc_of(l, p, n), i),
{
    let a = arc_of(l, p, n);
    lemma_list_nodes(l, place(l, p + i));
    assert forall|j: int| 0 <= j < i && j < a.len() implies !(#[trigger] a[j]).is_wrap() by {
        lemma_list_nodes(l, place(l, p + j));
    }
}

proof fn lemma_arc_no_fault(l: Seq<Node>, p: int, n: int, k: nat)
    requires
        is_list(l),
        0 <= p < l.len(),
        1 <= n <= l.len(),
        k <= n,
    ensures
        ordered_first_fault(arc_of(l, p, n), k) is None,
    decreases k,
{
    if k > 0 {
        let a = arc_of(l, p, n);
        let i = k - 1;
        lemma_arc_no_fault(l, p, n, i as nat);
        lemma_list_nodes(l, place(l, p + i));
        if i > 0 {
            lemma_list_nodes(l, place(l, p + i - 1));
        }
        if a[i].is_wrap() {
            lemma_arc_no_wrap_before(l, p, n, i);
        }
        assert(ordered_fault(a, i) is None);
    }
}

/// Every stretch of a list, its nodes taken in the order of the list, passes
/// the ordered check, and the summary names its two ends: the key of its
/// first node and the key of the node that follows its last. The start is
/// smaller than the end exactly when the stretch stops before the last node
/// of the list; the two are equal exactly when the stretch is the whole list;
/// otherwise the stretch holds the last node and its end is the smaller.
pub proof fn lemma_arc_summary(l: Seq<Node>, p: int, n: int)
    requires
        is_list(l),
        0 <= p < l.len(),
        1 <= n <= l.len(),
    ensures
        ordered_summary(arc_of(l, p, n)) == Ok::<Arc, Error>(arc_ends(l, p, n)),
        bytes_lt(arc_ends(l, p, n).start, arc_ends(l, p, n).end) <==> p + n < l.len(),
        arc_ends(l, p, n).is_complete() <==> n == l.len(),
        arc_ends(l, p, n).has_last() <==> p + n >= l.len(),
{
    let a = arc_of(l, p, n);
    lemma_arc_no_fault(l, p, n, n as nat);
    lemma_list_nodes(l, place(l, p + n - 1));
    let q = place(l, p + n);
    if p + n < l.len() {
        lemma_list_ascending(l, p, q);
        lemma_lt_irreflexive(l[p].curr);
    } else if q < p {
        lemma_list_ascending(l, q, p);
        lemma_lt_asymmetric(l[q].curr, l[p].curr);
        lemma_lt_irreflexive(l[p].curr);
    } else {
        lemma_lt_irreflexive(l[p].curr);
    }
}

/// The nodes of the stretch of `n` nodes from place `p`, in ascending order
/// of their keys: where the stretch goes round, the nodes from the head of
/// the list come first and the nodes up to the last node of the list after
/// them.
pub open spec fn arc_sorted(l: Seq<Node>, p: int, n: int) -> Seq<Node> {
    if p + n <= l.len() {
        l.subrange(p, p + n)
    } else {
        l.subrange(0, p + n - l.len()) + l.subrange(p, l.len() as int)
    }
}

/// The place in the list of the node at position `i` of `arc_sorted`.
spec fn sorted_place(l: Seq<Node>, p: int, n: int, i: int) -> int {
    if p + n <= l.len() {
        p + i
    } else if i < p + n - l.len() {
        i
    } else {
        i + l.len() - n
    }
}

proof fn lemma_arc_sorted(l: Seq<Node>, p: int, n: int)
    requires
        is_list(l),
        0 <= p < l.len(),
        1 <= n <= l.len(),
    ensures
        arc_sorted(l, p, n).len() == n,
        forall|i: int|
            0 <= i < n ==> #[trigger] arc_sorted(l, p, n)[i] == l[sorted_place(l, p, n, i)],
        is_ascending(arc_sorted(l, p, n)),
        arc_sorted(l, p, n).to_multiset() == arc_of(l, p, n).to_multiset(),
{
    let t = arc_sorted(l, p, n);
    let a = arc_of(l, p, n);
    let m = l.len() as int;
    assert forall|i: int, j: int| 0 <= i < j < t.len() implies bytes_lt(
        #[trigger] t[i].curr,
        #[trigger] t[j].curr,
    ) by {
        lemma_list_ascending(l, sorted_place(l, p, n, i), sorted_place(l, p, n, j));
    }
    if p + n <= m {
        assert(t =~= a);
    } else {
        let head = l.subrange(0, p + n - m);
        let tail = l.subrange(p, m);
        assert(a =~= tail + head);
        lemma_multiset_commutative(head, tail);
        lemma_multiset_commutative(tail, head);
    }
}

proof fn lemma_arc_sorted_gaps(l: Seq<Node>, p: int, n: int, i: int)
    requires
        is_list(l),
        0 <= p < l.len(),
        1 <= n <= l.len(),
    ensures
        gap_at(arc_sorted(l, p, n), i) <==> p + n > l.len() && n < l.len() && i == p + n - l.len(),
{
    let t = arc_sorted(l, p, n);
    lemma_arc_sorted(l, p, n);
    if 0 < i < n {
        let x = sorted_place(l, p, n, i - 1);
        let y = sorted_place(l, p, n, i);
        assert(t[i - 1] == l[x]);
        assert(t[i] == l[y]);
        lemma_list_nodes(l, x);
        if y != x + 1 {
            lemma_list_keys_differ(l, x + 1, y);
        }
    }
}

proof fn lemma_arc_sorted_no_fault(l: Seq<Node>, p: int, n: int, k: nat)
    requires
        is_list(l),
        0 <= p < l.len(),
        1 <= n <= l.len(),
        k <= n,
    ensures
        rotated_first_fault(arc_sorted(l, p, n), k) is None,
    decreases k,
{
    if k > 0 {
        let t = arc_sorted(l, p, n);
        let i = k - 1;
        lemma_arc_sorted(l, p, n);
        lemma_arc_sorted_no_fault(l, p, n, i as nat);
        assert(t[i] == l[sorted_place(l, p, n, i)]);
        lemma_list_nodes(l, sorted_place(l, p, n, i));
        if t[i].is_wrap() {
            assert forall|j: int| 0 <= j < i && j < t.len() implies !(#[trigger] t[j]).is_wrap() by {
                assert(t[j] == l[sorted_place(l, p, n, j)]);
                lemma_list_nodes(l, sorted_place(l, p, n, j));
            }
        }
        lemma_arc_sorted_gaps(l, p, n, i);
        if gap_at(t, i) {
            assert forall|j: int| j < i implies !#[trigger] gap_at(t, j) by {
                lemma_arc_sorted_gaps(l, p, n, j);
            }
            assert(t[0] == l[sorted_place(l, p, n, 0)]);
            assert(t[n - 1] == l[sorted_place(l, p, n, n - 1)]);
            assert(closes(t));
        }
        assert(rotated_fault(t, i) is None);
    }
}

/// The nodes of a stretch of a list, brought into ascending order, pass the
/// check that allows for one gap, and the summary names the two ends of the
/// stretch. The whole list is the one exception: in ascending order it runs
/// from the head to the head, wherever the stretch began.
pub proof fn lemma_arc_sorted_summary(l: Seq<Node>, p: int, n: int)
    requires
        is_list(l),
        0 <= p < l.len(),
        1 <= n <= l.len(),
    ensures
        rotated_summary(arc_sorted(l, p, n)) == Ok::<Arc, Error>(
            if n == l.len() {
                arc_ends(l, 0, n)
            } else {
                arc_ends(l, p, n)
            },
        ),
{
    let t = arc_sorted(l, p, n);
    let m = l.len() as int;
    lemma_arc_sorted(l, p, n);
    lemma_arc_sorted_no_fault(l, p, n, n as nat);
    assert(t[0] == l[sorted_place(l, p, n, 0)]);
    assert(t[n - 1] == l[sorted_place(l, p, n, n - 1)]);
    lemma_list_nodes(l, sorted_place(l, p, n, n - 1));
    if gap_before(t, n) {
        let g = choose|g: int| gap_at(t, g);
        lemma_arc_sorted_gaps(l, p, n, g);
        assert(t[g] == l[sorted_place(l, p, n, g)]);
        assert(t[g - 1] == l[sorted_place(l, p, n, g - 1)]);
        lemma_list_nodes(l, sorted_place(l, p, n, g - 1));
    } else {
        lemma_arc_sorted_gaps(l, p, n, p + n - m);
        if p + n > m && n < m {
            assert(gap_at(t, p + n - m));
        }
    }
}

/// The nodes of a stretch of a list pass the unordered check in whatever
/// order they are handed in, and the summary is the one that the ordered
/// check gives for the stretch in the order of the list.
///
/// The whole list taken from another node than its head is left out: the
/// ordered check then reports that node as both ends, the unordered check the
/// head (see `lemma_whole_list_any_order`).
pub proof fn lemma_unordered_agrees_with_ordered(l: Seq<Node>, p: int, n: int, s: Seq<Node>)
    requires
        is_list(l),
        0 <= p < l.len(),
        1 <= n <= l.len(),
        n == l.len() ==> p == 0,
        s.to_multiset() == arc_of(l, p, n).to_multiset(),
    ensures
        unordered_summary(s) == ordered_summary(arc_of(l, p, n)),
        unordered_summary(s) == Ok::<Arc, Error>(arc_ends(l, p, n)),
{
    lemma_arc_summary(l, p, n);
    lemma_unordered_summary_of_arc(l, p, n, s);
}

/// The nodes of a whole list pass the unordered check in whatever order they
/// are handed in, and the summary is complete: both its ends are the key of
/// the head.
pub proof fn lemma_whole_list_any_order(l: Seq<Node>, s: Seq<Node>)
    requires
        is_list(l),
        s.to_multiset() == l.to_multiset(),
    ensures
        unordered_summary(s) == Ok::<Arc, Error>(Arc { start: l[0].curr, end: l[0].curr }),
        unordered_summary(s) matches Ok(arc) && arc.is_complete(),
{
    let n = l.len() as int;
    assert(arc_of(l, 0, n) =~= l);
    lemma_unordered_summary_of_arc(l, 0, n, s);
}

/// The nodes of a stretch of a list, handed in in whatever order, pass the
/// unordered check, and the summary tells of the stretch what the summary of
/// the ordered check tells: its start is smaller than its end exactly when
/// the stretch stops before the last node of the list, the two are equal
/// exactly when the stretch is the whole list, and the summary has the last
/// node exactly when the stretch holds it.
pub proof fn lemma_unordered_arc_summary(l: Seq<Node>, p: int, n: int, s: Seq<Node>)
    requires
        is_list(l),
        0 <= p < l.len(),
        1 <= n <= l.len(),
        s.to_multiset() == arc_of(l, p, n).to_multiset(),
    ensures
        unordered_summary(s) matches Ok(arc) && (bytes_lt(arc.start, arc.end) <==> p + n < l.len())
            && (arc.is_complete() <==> n == l.len()) && (arc.has_last() <==> p + n >= l.len()),
{
    lemma_unordered_summary_of_arc(l, p, n, s);
    if n == l.len() {
        lemma_arc_summary(l, 0, n);
    } else {
        lemma_arc_summary(l, p, n);
    }
}

proof fn lemma_unordered_summary_of_arc(l: Seq<Node>, p: int, n: int, s: Seq<Node>)
    requires
        is_list(l),
        0 <= p < l.len(),
        1 <= n <= l.len(),
        s.to_multiset() == arc_of(l, p, n).to_multiset(),
    ensures
        unordered_summary(s) == Ok::<Arc, Error>(
            if n == l.len() {
                arc_ends(l, 0, n)
            } else {
                arc_ends(l, p, n)
            },
        ),
{
    let t = arc_sorted(l, p, n);
    lemma_arc_sorted(l, p, n);
    lemma_arc_sorted_summary(l, p, n);
    lemma_ascending_is(s, t);
    lemma_ascending_distinct(t);
    lemma_distinct_currs_rearranged(t, s);
    vstd::seq_lib::to_multiset_len(s);
    vstd::seq_lib::to_multiset_len(t);
}

/// Each node starts where the node before it ends.
pub open spec fn links_up(t: Seq<Node>) -> bool {
    forall|i: int| !#[trigger] gap_at(t, i)
}

/// At most one of the nodes points back.
pub open spec fn points_back_once(t: Seq<Node>) -> bool {
    forall|i: int, j: int|
        0 <= i < j < t.len() ==> !((#[trigger] t[i]).is_wrap() && (#[trigger] t[j]).is_wrap())
}

/// No node names itself as its successor.
pub open spec fn no_self_node(t: Seq<Node>) -> bool {
    forall|i: int| 0 <= i < t.len() ==> !(#[trigger] t[i]).is_self()
}

proof fn lemma_ordered_faults(t: Seq<Node>, n: nat)
    requires
        n <= t.len(),
    ensures
        ordered_first_fault(t, n) is None <==> forall|i: int|
            0 <= i < n ==> #[trigger] ordered_fault(t, i) is None,
        ordered_first_fault(t, n) matches Some(e) ==> exists|i: int|
            0 <= i < n && #[trigger] ordered_fault(t, i) == Some(e),
    decreases n,
{
    if n > 0 {
        lemma_ordered_faults(t, (n - 1) as nat);
        if ordered_first_fault(t, (n - 1) as nat) is None {
            if ordered_fault(t, n - 1) is Some {
                assert(ordered_first_fault(t, n) == ordered_fault(t, n - 1));
            }
        } else {
            let e = ordered_first_fault(t, (n - 1) as nat)->Some_0;
            let i = choose|i: int| 0 <= i < n - 1 && #[trigger] ordered_fault(t, i) == Some(e);
            assert(ordered_fault(t, i) is Some);
        }
    }
}

/// Nodes of which none names itself pass the ordered check exactly when they
/// link up and at most one of them points back. When they fail, they fail as
/// `Discontinuous` or `ReachLastTwice`.
pub proof fn lemma_ordered_passes_iff(t: Seq<Node>)
    requires
        t.len() > 0,
        no_self_node(t),
    ensures
        ordered_summary(t) is Ok <==> links_up(t) && points_back_once(t),
        ordered_summary(t) is Err ==> ordered_summary(t) == Err::<Arc, Error>(Error::Discontinuous)
            || ordered_summary(t) == Err::<Arc, Error>(Error::ReachLastTwice),
{
    let n = t.len();
    lemma_ordered_faults(t, n);
    if ordered_summary(t) is Ok {
        assert forall|i: int| !#[trigger] gap_at(t, i) by {
            if 0 < i < n {
                assert(ordered_fault(t, i) is None);
            }
        }
        assert forall|i: int, j: int| 0 <= i < j < t.len() implies !((#[trigger] t[i]).is_wrap() && (
        #[trigger] t[j]).is_wrap()) by {
            assert(ordered_fault(t, j) is None);
        }
    } else {
        let e = ordered_first_fault(t, n)->Some_0;
        let i = choose|i: int| 0 <= i < n && #[trigger] ordered_fault(t, i) == Some(e);
        assert(!t[i].is_self());
    }
    if links_up(t) && points_back_once(t) {
        assert forall|i: int| 0 <= i < n implies #[trigger] ordered_fault(t, i) is None by {
            assert(!gap_at(t, i));
            if t[i].is_wrap() && wrap_before(t, i) {
                let j = choose|j: int| 0 <= j < i && j < t.len() && (#[trigger] t[j]).is_wrap();
                assert(!(t[j].is_wrap() && t[i].is_wrap()));
            }
        }
    }
}

/// Nodes that are not in ascending order of their keys fail the ordered
/// check as `Discontinuous` or `ReachLastTwice`.
///
/// Left out are the nodes that link up with at most one of them pointing
/// back: they pass, in ascending order or not (a list taken from another
/// node than its head is of this kind).
pub proof fn lemma_ordered_rejects_disorder(t: Seq<Node>)
    requires
        t.len() > 0,
        no_self_node(t),
        !is_ascending(t),
        !(links_up(t) && points_back_once(t)),
    ensures
        ordered_summary(t) == Err::<Arc, Error>(Error::Discontinuous) || ordered_summary(t)
            == Err::<Arc, Error>(Error::ReachLastTwice),
{
    lemma_ordered_passes_iff(t);
}

/// A single node never makes a whole list: the ordered check refuses it or
/// gives a summary that is not complete.
pub proof fn lemma_single_node_incomplete(t: Seq<Node>)
    requires
        t.len() == 1,
    ensures
        !(ordered_summary(t) matches Ok(arc) && arc.is_complete()),
        !(unordered_summary(t) matches Ok(arc) && arc.is_complete()),
{
    assert(ordered_first_fault(t, 1) == ordered_fault(t, 0)) by {
        assert(ordered_first_fault(t, 0) is None);
    }
    if crate::tool::arrange::distinct_currs(t) {
        assert(is_ascending(t));
        lemma_ascending_is(t, t);
        assert(rotated_first_fault(t, 1) == rotated_fault(t, 0)) by {
            assert(rotated_first_fault(t, 0) is None);
        }
        assert(!gap_before(t, 1)) by {
            assert forall|j: int| j < 1 implies !#[trigger] gap_at(t, j) by {}
        }
    }
}

} // verus!
