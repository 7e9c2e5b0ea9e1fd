//! What holds of the operations whatever the transaction.

use vstd::prelude::*;
use crate::script::entry::main_result;
use crate::script::error::{Error, InternalError};
use crate::script::host::{first_error, indexes_under, Transaction};
use crate::script::operations::create::{all_records, create_result, created_list_result};
use crate::script::operations::destroy::destroy_result;
use crate::script::operations::{loaded, nodes_of, parse_fault, parse_faults};
use crate::tool::arrange::is_ascending;
use crate::tool::error::Error as ToolError;
use crate::tool::laws::{
    is_list, lemma_ordered_passes_iff, lemma_single_node_incomplete, lemma_whole_list_any_order,
    links_up, no_self_node, points_back_once,
};
use crate::tool::types::Node;

verus! {

/// Outcomes of which none is an error have no first error.
pub proof fn lemma_no_error<E>(outcomes: Seq<Option<E>>)
    requires
        forall|i: int| 0 <= i < outcomes.len() ==> #[trigger] outcomes[i] is None,
    ensures
        first_error(outcomes) is None,
    decreases outcomes.len(),
{
    if outcomes.len() > 0 {
        lemma_no_error(outcomes.drop_last());
    }
}

/// A single record never makes a new list: creating a list from one output
/// fails, whatever the record and the arguments of the script.
pub proof fn lemma_create_single_fails(tx: Transaction, indexes: Seq<usize>)
    requires
        indexes.len() == 1,
    ensures
        create_result(tx, indexes) is Err,
        created_list_result(loaded(tx.outputs@, indexes)) is Err,
{
    lemma_single_node_incomplete(nodes_of(loaded(tx.outputs@, indexes)));
}

/// A transaction with no input and a single output under the script is no
/// operation at all.
pub proof fn lemma_single_output_unknown(tx: Transaction)
    requires
        tx.script_hash matches Ok(hash) && indexes_under(
            tx.inputs@,
            hash@,
            tx.inputs@.len(),
        ).len() == 0 && indexes_under(tx.outputs@, hash@, tx.outputs@.len()).len() == 1,
    ensures
        main_result(tx) == Err::<(), Error>(Error::Internal(InternalError::UnknownOperation)),
{
}

/// Destroying a whole list is accepted in whatever order its records stand
/// among the inputs: where every input at the given indexes is a record, and
/// their nodes are the nodes of a list, each once, the operation succeeds.
pub proof fn lemma_destroy_any_order(tx: Transaction, indexes: Seq<usize>, list: Seq<Node>)
    requires
        is_list(list),
        forall|i: int|
            0 <= i < indexes.len() ==> parse_fault(
                #[trigger] tx.inputs@[indexes[i] as int],
                InternalError::DestroyInvalidInputData,
            ) is None,
        nodes_of(loaded(tx.inputs@, indexes)).to_multiset() == list.to_multiset(),
    ensures
        destroy_result(tx, indexes) == Ok::<(), Error>(()),
{
    lemma_no_error(parse_faults(tx.inputs@, indexes, InternalError::DestroyInvalidInputData));
    lemma_whole_list_any_order(list, nodes_of(loaded(tx.inputs@, indexes)));
}

/// Creating a list from records that do not stand in ascending order of
/// their keys fails as `Discontinuous` or `ReachLastTwice`.
///
/// Left out are the records that link up with at most one of them pointing
/// back: a whole list taken from another node than its head is created as
/// well, a stretch that is not a whole list fails as incomplete.
pub proof fn lemma_create_rejects_disorder(records: Seq<Seq<u8>>)
    requires
        records.len() > 0,
        all_records(records),
        no_self_node(nodes_of(records)),
        !is_ascending(nodes_of(records)),
        !(links_up(nodes_of(records)) && points_back_once(nodes_of(records))),
    ensures
        created_list_result(records) == Err::<(), Error>(Error::Tool(ToolError::Discontinuous))
            || created_list_result(records) == Err::<(), Error>(
            Error::Tool(ToolError::ReachLastTwice),
        ),
{
    lemma_ordered_passes_iff(nodes_of(records));
}

} // verus!
