//! What the host tells of the transaction, as plain values.

use vstd::prelude::*;
use crate::record::layout::{field, raw};
use crate::script::error::HostError;
use crate::tool::order::slice_eq;
use crate::tool::types::Node;

verus! {

/// One input or output of the transaction.
#[derive(Debug)]
pub struct Cell {
    /// The hash of the type script of the cell, if it has one.
    pub type_hash: Option<[u8; 32]>,
    /// The data of the cell, or why the host could not load it. It is read
    /// only where the cell is under the running script.
    pub data: Result<Vec<u8>, HostError>,
}

/// The answers of the host about the transaction and the running script.
#[derive(Debug)]
pub struct Transaction {
    /// The hash of the running script.
    pub script_hash: Result<[u8; 32], HostError>,
    /// The arguments of the running script.
    pub script_args: Result<Vec<u8>, HostError>,
    /// The bytes of the first input of the transaction.
    pub first_input: Result<Vec<u8>, HostError>,
    /// The inputs of the transaction, in its order.
    pub inputs: Vec<Cell>,
    /// The outputs of the transaction, in its order.
    pub outputs: Vec<Cell>,
}

/// Tells whether a cell with the given hash of its type script, if it has
/// one, is under the script with the given hash. The data of other cells is
/// never looked at.
pub fn is_type_hash(type_hash: &Option<[u8; 32]>, script_hash: &[u8; 32]) -> (b: bool)
    ensures
        b == (type_hash matches Some(hash) && hash@ == script_hash@),
{
    match type_hash {
        Some(hash) => slice_eq(hash.as_slice(), script_hash.as_slice()),
        None => false,
    }
}

impl Cell {
    /// The cell is under the script with the given hash.
    pub open spec fn is_under(self, script_hash: Seq<u8>) -> bool {
        self.type_hash matches Some(hash) && hash@ == script_hash
    }

    /// Tells whether the cell is under the script with the given hash.
    pub fn has_type(&self, script_hash: &[u8; 32]) -> (b: bool)
        ensures
            b == self.is_under(script_hash@),
    {
        is_type_hash(&self.type_hash, script_hash)
    }
}

/// The indexes of the cells under the script among the first `n` cells, in
/// ascending order.
pub open spec fn indexes_under(cells: Seq<Cell>, script_hash: Seq<u8>, n: nat) -> Seq<usize>
    decreases n,
{
    if n == 0 {
        Seq::<usize>::empty()
    } else {
        let before = indexes_under(cells, script_hash, (n - 1) as nat);
        if cells[n - 1].is_under(script_hash) {
            before.push((n - 1) as usize)
        } else {
            before
        }
    }
}

/// The indexes are indexes of cells.
pub open spec fn within(indexes: Seq<usize>, cells: Seq<Cell>) -> bool {
    forall|i: int| 0 <= i < indexes.len() ==> #[trigger] indexes[i] < cells.len()
}

/// The indexes found under a script are indexes of cells, at most one for
/// each cell looked at.
pub proof fn lemma_indexes_under(cells: Seq<Cell>, script_hash: Seq<u8>, n: nat)
    requires
        n <= cells.len() <= usize::MAX,
    ensures
        indexes_under(cells, script_hash, n).len() <= n,
        within(indexes_under(cells, script_hash, n), cells),
        forall|i: int|
            0 <= i < indexes_under(cells, script_hash, n).len() ==> cells[#[trigger] indexes_under(
                cells,
                script_hash,
                n,
            )[i] as int].is_under(script_hash),
        forall|k: int|
            0 <= k < n && (#[trigger] cells[k]).is_under(script_hash) ==> indexes_under(
                cells,
                script_hash,
                n,
            ).contains(k as usize),
    decreases n,
{
    if n > 0 {
        lemma_indexes_under(cells, script_hash, (n - 1) as nat);
        let before = indexes_under(cells, script_hash, (n - 1) as nat);
        let now = indexes_under(cells, script_hash, n);
        assert forall|k: int| 0 <= k < n && (#[trigger] cells[k]).is_under(script_hash) implies now.contains(
            k as usize,
        ) by {
            if k < n - 1 {
                let i = choose|i: int| 0 <= i < before.len() && before[i] == k as usize;
                assert(now[i] == k as usize);
            } else {
                assert(now[now.len() - 1] == k as usize);
            }
        }
    }
}

/// Finds the cells that are under the script with the given hash.
pub fn matching_indexes(script_hash: &[u8; 32], cells: &Vec<Cell>) -> (indexes: Vec<usize>)
    ensures
        indexes@ == indexes_under(cells@, script_hash@, cells@.len()),
        within(indexes@, cells@),
{
    let mut indexes: Vec<usize> = Vec::new();
    let mut index: usize = 0;
    while index < cells.len()
        invariant
            index <= cells.len(),
            indexes@ == indexes_under(cells@, script_hash@, index as nat),
        decreases cells.len() - index,
    {
        if cells[index].has_type(script_hash) {
            indexes.push(index);
        }
        index += 1;
    }
    proof {
        lemma_indexes_under(cells@, script_hash@, cells@.len());
    }
    indexes
}

/// The node that a record describes: the contents of its fields `curr` and
/// `next`.
pub open spec fn node_of(record: Seq<u8>) -> Node {
    Node { curr: raw(field(record, 1)), next: raw(field(record, 2)) }
}

/// The first of the given outcomes that is an error, if any is.
pub open spec fn first_error<E>(outcomes: Seq<Option<E>>) -> Option<E>
    decreases outcomes.len(),
{
    if outcomes.len() == 0 {
        None
    } else {
        match first_error(outcomes.drop_last()) {
            Some(e) => Some(e),
            None => outcomes.last(),
        }
    }
}

/// An error among the first outcomes is the first error of all of them.
pub proof fn lemma_first_error_stays<E>(outcomes: Seq<Option<E>>, n: int)
    requires
        0 <= n <= outcomes.len(),
        first_error(outcomes.take(n)) is Some,
    ensures
        first_error(outcomes) == first_error(outcomes.take(n)),
    decreases outcomes.len(),
{
    if n < outcomes.len() {
        assert(outcomes.drop_last().take(n) =~= outcomes.take(n));
        lemma_first_error_stays(outcomes.drop_last(), n);
    } else {
        assert(outcomes.take(n) =~= outcomes);
    }
}

/// Outcomes without an error followed by one more outcome have that
/// outcome as their first error, if it is one.
pub proof fn lemma_first_error_next<E>(outcomes: Seq<Option<E>>, n: int)
    requires
        0 <= n < outcomes.len(),
        first_error(outcomes.take(n)) is None,
    ensures
        first_error(outcomes.take(n + 1)) == outcomes[n],
{
    assert(outcomes.take(n + 1).drop_last() =~= outcomes.take(n));
}

} // verus!
