//! Checks of the integrity of a linked list.

use vstd::prelude::*;

pub mod arc;
pub mod arrange;
pub mod error;
pub mod laws;
pub mod order;
pub mod sort;
pub mod types;

use crate::tool::arc::{
    closes, gap_at, gap_before, lemma_ordered_fault_stays, lemma_rotated_fault_stays, nodes,
    ordered_fault, ordered_first_fault, ordered_summary, outcome, rotated_fault,
    rotated_first_fault, rotated_summary, unordered_summary, wrap_before,
};
use crate::tool::arrange::{
    distinct_currs, lemma_ascending_distinct, lemma_ascending_is,
    lemma_distinct_currs_rearranged, lemma_sorted_distinct_neighbours,
};
use crate::tool::error::Error;
use crate::tool::sort::sort_by_curr;
use crate::tool::types::{Field, ListItem, ListItemsSummary};

verus! {

/// Checks a part of linked list with ordered items.
///
/// The items are taken in the order given: each must start where the one
/// before it ends, none may name itself as its successor, and at most one may
/// point back to a smaller key. The summary runs from the first item to the
/// successor of the last.
pub fn check_linked_list_with_ordered_items<F: Field>(inputs: Vec<ListItem<F>>) -> (res: Result<
    ListItemsSummary<F>,
    Error,
>)
    ensures
        outcome(res) == ordered_summary(nodes(inputs@)),
{
    let ghost t = nodes(inputs@);
    let mut reach_last = false;
    let mut ends: Option<(F, F)> = None;
    for item in it: inputs.into_iter()
        invariant
            t == nodes(inputs@),
            it.seq() == inputs@,
            ordered_first_fault(t, it.index() as nat) is None,
            reach_last == wrap_before(t, it.index() as int),
            ends is None <==> it.index() == 0,
            ends matches Some((start, next)) ==> start.key() == t[0].curr && next.key() == t[it.index()
                - 1].next,
    {
        let ghost i = it.index() as int;
        assert(t[i] == item@);
        if let Some((_, next)) = &ends {
            if !next.key_eq(&item.curr) {
                proof {
                    lemma_ordered_fault_stays(t, (i + 1) as nat, t.len());
                }
                return Err(Error::Discontinuous);
            }
        }
        if item.curr.key_eq(&item.next) {
            proof {
                lemma_ordered_fault_stays(t, (i + 1) as nat, t.len());
            }
            return Err(Error::NextIsSelfItem);
        }
        if item.next.key_lt(&item.curr) {
            if reach_last {
                proof {
                    lemma_ordered_fault_stays(t, (i + 1) as nat, t.len());
                }
                return Err(Error::ReachLastTwice);
            }
            reach_last = true;
        }
        assert(ordered_fault(t, i) is None);
        assert(wrap_before(t, i + 1) == (wrap_before(t, i) || t[i].is_wrap())) by {
            if wrap_before(t, i + 1) && !wrap_before(t, i) {
                let j = choose|j: int| 0 <= j < i + 1 && j < t.len() && (#[trigger] t[j]).is_wrap();
                assert(j == i);
            }
        }
        ends = match ends {
            None => Some((item.curr, item.next)),
            Some((start, _)) => Some((start, item.next)),
        };
    }
    match ends {
        None => Err(Error::EmptyList),
        Some((start, next)) => Ok(ListItemsSummary::new(start, next)),
    }
}

/// Checks a part of linked list with unordered items.
///
/// The items are brought into ascending order of their keys and then
/// checked as a stretch of the list that may run over its end: one gap is
/// accepted where the head of the list follows its last item. Items that
/// share a key are refused as `Discontinuous`.
pub fn check_linked_list_with_unordered_items<F: Field>(inputs: Vec<ListItem<F>>) -> (res: Result<
    ListItemsSummary<F>,
    Error,
>)
    ensures
        outcome(res) == unordered_summary(nodes(inputs@)),
{
    let ghost s = nodes(inputs@);
    let mut items = inputs;
    if items.len() == 0 {
        return Err(Error::EmptyList);
    }
    sort_by_curr(&mut items);
    let ghost t = nodes(items@);
    let mut k: usize = 1;
    while k < items.len()
        invariant
            1 <= k <= items.len(),
            t == nodes(items@),
            s == nodes(inputs@),
            s.len() > 0,
            s.to_multiset() == t.to_multiset(),
            forall|j: int| 0 < j < k ==> (#[trigger] t[j - 1]).curr != t[j].curr,
        decreases items.len() - k,
    {
        if items[k - 1].curr.key_eq(&items[k].curr) {
            proof {
                if distinct_currs(s) {
                    lemma_distinct_currs_rearranged(s, t);
                    assert(t[k - 1].curr != t[k as int].curr);
                }
            }
            return Err(Error::Discontinuous);
        }
        k += 1;
    }
    proof {
        lemma_sorted_distinct_neighbours(t);
        lemma_ascending_is(s, t);
        lemma_ascending_distinct(t);
        lemma_distinct_currs_rearranged(t, s);
    }
    let has_last = items[0].curr.key_eq(&items[items.len() - 1].next);
    let mut reach_last = false;
    let mut ends: Option<(F, F)> = None;
    let mut end_opt: Option<F> = None;
    let ghost mut gap: int = 0;
    for item in it: items.into_iter()
        invariant
            t == nodes(items@),
            t.len() > 0,
            unordered_summary(nodes(inputs@)) == rotated_summary(t),
            it.seq() == items@,
            has_last == closes(t),
            rotated_first_fault(t, it.index() as nat) is None,
            reach_last == wrap_before(t, it.index() as int),
            ends is None <==> it.index() == 0,
            end_opt is Some <==> gap_before(t, it.index() as int),
            end_opt matches Some(end) ==> gap_at(t, gap) && gap < it.index() && end.key() == t[gap
                - 1].next && forall|g: int| g < it.index() && gap_at(t, g) ==> g == gap,
            ends matches Some((start, next)) ==> next.key() == t[it.index() - 1].next && start.key()
                == (if end_opt is Some {
                t[gap].curr
            } else {
                t[0].curr
            }),
    {
        let ghost i = it.index() as int;
        assert(t[i] == item@);
        if item.curr.key_eq(&item.next) {
            proof {
                lemma_rotated_fault_stays(t, (i + 1) as nat, t.len());
            }
            return Err(Error::NextIsSelfItem);
        }
        if item.next.key_lt(&item.curr) {
            if reach_last {
                proof {
                    lemma_rotated_fault_stays(t, (i + 1) as nat, t.len());
                }
                return Err(Error::ReachLastTwice);
            }
            reach_last = true;
        }
        assert(wrap_before(t, i + 1) == (wrap_before(t, i) || t[i].is_wrap())) by {
            if wrap_before(t, i + 1) && !wrap_before(t, i) {
                let j = choose|j: int| 0 <= j < i + 1 && j < t.len() && (#[trigger] t[j]).is_wrap();
                assert(j == i);
            }
        }
        assert(gap_before(t, i + 1) == (gap_before(t, i) || gap_at(t, i))) by {
            if gap_before(t, i + 1) && !gap_before(t, i) {
                let j = choose|j: int| j < i + 1 && #[trigger] gap_at(t, j);
                assert(j == i);
            }
        }
        match ends {
            None => {
                ends = Some((item.curr, item.next));
            },
            Some((start, next)) => {
                if !next.key_eq(&item.curr) {
                    if end_opt.is_some() || !has_last {
                        proof {
                            lemma_rotated_fault_stays(t, (i + 1) as nat, t.len());
                        }
                        return Err(Error::Discontinuous);
                    }
                    proof {
                        gap = i;
                    }
                    end_opt = Some(next);
                    ends = Some((item.curr, item.next));
                } else {
                    ends = Some((start, item.next));
                }
            },
        }
        assert(rotated_fault(t, i) is None);
    }
    match ends {
        None => Err(Error::EmptyList),
        Some((start, next)) => {
            match end_opt {
                Some(end) => {
                    proof {
                        let g = choose|g: int| gap_at(t, g);
                        assert(g == gap);
                    }
                    Ok(ListItemsSummary::new(start, end))
                },
                None => Ok(ListItemsSummary::new(start, next)),
            }
        },
    }
}

} // verus!
