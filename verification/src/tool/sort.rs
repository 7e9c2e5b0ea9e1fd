//! Bringing items into the order of their keys.

use std::cmp::Ordering;
use vstd::prelude::*;
use crate::tool::arc::nodes;
use crate::tool::arrange::is_sorted;
use crate::tool::order::{bytes_lt, lemma_lt_total};
use crate::tool::types::{Field, ListItem};

verus! {

/// Compares two items by their keys.
pub fn compare_curr<F: Field>(a: &ListItem<F>, b: &ListItem<F>) -> (o: Ordering)
    ensures
        o == Ordering::Less <==> bytes_lt(a@.curr, b@.curr),
        o == Ordering::Greater <==> bytes_lt(b@.curr, a@.curr),
        o == Ordering::Equal <==> a@.curr == b@.curr,
{
    proof {
        lemma_lt_total(a@.curr, b@.curr);
        crate::tool::order::lemma_lt_irreflexive(a@.curr);
        if bytes_lt(a@.curr, b@.curr) {
            crate::tool::order::lemma_lt_asymmetric(a@.curr, b@.curr);
        }
    }
    if a.curr.key_lt(&b.curr) {
        Ordering::Less
    } else if b.curr.key_lt(&a.curr) {
        Ordering::Greater
    } else {
        Ordering::Equal
    }
}

/// Sorts the items by key with `sort_unstable_by` of the standard library,
/// which is handed `compare_curr`, a total order.
///
/// Taken on trust of the standard library: there are as many items
/// afterwards as before, they describe the same nodes, each as often as
/// before, and no item has a key that comes before the key of an earlier
/// item. Which of two items with one key comes first is left open.
#[verifier::external_body]
pub(crate) fn sort_by_curr<F: Field>(items: &mut Vec<ListItem<F>>)
    ensures
        final(items)@.len() == old(items)@.len(),
        nodes(final(items)@).to_multiset() == nodes(old(items)@).to_multiset(),
        is_sorted(nodes(final(items)@)),
{
    items.sort_unstable_by(|a, b| compare_curr(a, b));
}

} // verus!
