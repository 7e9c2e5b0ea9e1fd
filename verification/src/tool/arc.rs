//! What the two checks compute, stated over sequences of nodes.

use vstd::prelude::*;
use crate::tool::arrange::{ascending, distinct_currs};
use crate::tool::error::Error;
use crate::tool::order::bytes_lt;
use crate::tool::types::{Arc, Field, ListItem, ListItemsSummary, Node};

verus! {

impl Node {
    /// The node names itself as its successor.
    pub open spec fn is_self(self) -> bool {
        self.curr == self.next
    }

    /// The node points back to a smaller key: it is the last node of the
    /// list, whose successor is the head.
    pub open spec fn is_wrap(self) -> bool {
        bytes_lt(self.next, self.curr)
    }
}

/// The nodes that a sequence of items describes.
pub open spec fn nodes<F: Field>(items: Seq<ListItem<F>>) -> Seq<Node> {
    Seq::new(items.len(), |i: int| items[i]@)
}

/// The outcome of a check, with its summary taken as the arc it stands for.
pub open spec fn outcome<F: Field>(res: Result<ListItemsSummary<F>, Error>) -> Result<Arc, Error> {
    match res {
        Ok(summary) => Ok(summary@),
        Err(e) => Err(e),
    }
}

/// Some node before position `i` points back.
pub open spec fn wrap_before(t: Seq<Node>, i: int) -> bool {
    exists|j: int| 0 <= j < i && j < t.len() && (#[trigger] t[j]).is_wrap()
}

/// The node at position `i` does not start where the node before it ends.
pub open spec fn gap_at(t: Seq<Node>, i: int) -> bool {
    0 < i < t.len() && t[i - 1].next != t[i].curr
}

/// There is a gap at some position before `i`.
pub open spec fn gap_before(t: Seq<Node>, i: int) -> bool {
    exists|j: int| j < i && #[trigger] gap_at(t, j)
}

/// What is wrong at position `i` when the nodes are taken in the order given,
/// if anything is.
pub open spec fn ordered_fault(t: Seq<Node>, i: int) -> Option<Error> {
    if gap_at(t, i) {
        Some(Error::Discontinuous)
    } else if t[i].is_self() {
        Some(Error::NextIsSelfItem)
    } else if t[i].is_wrap() && wrap_before(t, i) {
        Some(Error::ReachLastTwice)
    } else {
        None
    }
}

/// The first thing that is wrong among the first `n` positions.
pub open spec fn ordered_first_fault(t: Seq<Node>, n: nat) -> Option<Error>
    decreases n,
{
    if n == 0 {
        None
    } else {
        match ordered_first_fault(t, (n - 1) as nat) {
            Some(e) => Some(e),
            None => ordered_fault(t, n - 1),
        }
    }
}

/// The result of checking nodes in the order given: the first fault, or else
/// the arc from the first node to the successor of the last.
pub open spec fn ordered_summary(t: Seq<Node>) -> Result<Arc, Error> {
    if t.len() == 0 {
        Err(Error::EmptyList)
    } else {
        match ordered_first_fault(t, t.len()) {
            Some(e) => Err(e),
            None => Ok(Arc { start: t[0].curr, end: t.last().next }),
        }
    }
}

/// A fault, once met, stays the first fault however far one looks.
pub proof fn lemma_ordered_fault_stays(t: Seq<Node>, n: nat, m: nat)
    requires
        n <= m,
        ordered_first_fault(t, n) is Some,
    ensures
        ordered_first_fault(t, m) == ordered_first_fault(t, n),
    decreases m,
{
    if n < m {
        lemma_ordered_fault_stays(t, n, (m - 1) as nat);
    }
}

/// The successor of the last node is the first node: the nodes, once in
/// ascending order, may hold the end of the list followed by its beginning.
pub open spec fn closes(t: Seq<Node>) -> bool {
    t.len() > 0 && t[0].curr == t.last().next
}

/// What is wrong at position `i` when the nodes stand in ascending order and
/// one gap is allowed for, if anything is. A gap is where the list, cut open
/// at its last node, was laid out from its head: it is accepted once, and only
/// if the nodes close.
pub open spec fn rotated_fault(t: Seq<Node>, i: int) -> Option<Error> {
    if t[i].is_self() {
        Some(Error::NextIsSelfItem)
    } else if t[i].is_wrap() && wrap_before(t, i) {
        Some(Error::ReachLastTwice)
    } else if gap_at(t, i) && (gap_before(t, i) || !closes(t)) {
        Some(Error::Discontinuous)
    } else {
        None
    }
}

/// The first thing that is wrong among the first `n` positions, one gap
/// allowed for.
pub open spec fn rotated_first_fault(t: Seq<Node>, n: nat) -> Option<Error>
    decreases n,
{
    if n == 0 {
        None
    } else {
        match rotated_first_fault(t, (n - 1) as nat) {
            Some(e) => Some(e),
            None => rotated_fault(t, n - 1),
        }
    }
}

/// The result of checking nodes that stand in ascending order: the first
/// fault, or else the arc. Without a gap the arc runs from the first node to
/// the successor of the last. With a gap it runs from the node after the gap,
/// over the end of the list and its head, to the successor of the node before
/// the gap.
pub open spec fn rotated_summary(t: Seq<Node>) -> Result<Arc, Error> {
    if t.len() == 0 {
        Err(Error::EmptyList)
    } else {
        match rotated_first_fault(t, t.len()) {
            Some(e) => Err(e),
            None => if gap_before(t, t.len() as int) {
                let g = choose|g: int| gap_at(t, g);
                Ok(Arc { start: t[g].curr, end: t[g - 1].next })
            } else {
                Ok(Arc { start: t[0].curr, end: t.last().next })
            },
        }
    }
}

/// The result of checking nodes handed in in any order: nodes that share a
/// key are never part of one list; other nodes are checked in ascending
/// order of their keys.
pub open spec fn unordered_summary(s: Seq<Node>) -> Result<Arc, Error> {
    if s.len() == 0 {
        Err(Error::EmptyList)
    } else if !distinct_currs(s) {
        Err(Error::Discontinuous)
    } else {
        rotated_summary(ascending(s))
    }
}

/// A fault, once met, stays the first fault however far one looks.
pub proof fn lemma_rotated_fault_stays(t: Seq<Node>, n: nat, m: nat)
    requires
        n <= m,
        rotated_first_fault(t, n) is Some,
    ensures
        rotated_first_fault(t, m) == rotated_first_fault(t, n),
    decreases m,
{
    if n < m {
        lemma_rotated_fault_stays(t, n, (m - 1) as nat);
    }
}

} // verus!
