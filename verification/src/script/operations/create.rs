//! Putting a whole new list on the ledger.

use vstd::prelude::*;
use crate::record::bytes::BytesReader;
use crate::record::demo_data::DemoDataReader;
use crate::record::layout::is_demo_data;
use crate::script::error::{Error, HostError, InternalError};
use crate::script::host::{
    first_error, lemma_first_error_next, lemma_first_error_stays, node_of, within, Cell,
    Transaction,
};
use crate::script::operations::{loaded, nodes_of};
use crate::script::unique_id::{calculate_unique_id, unique_id};
use crate::tool::arc::{nodes, ordered_summary};
use crate::tool::check_linked_list_with_ordered_items;
use crate::tool::order::slice_eq;
use crate::tool::types::ListItem;

verus! {

/// Why the host could not load the data of the cells at the given indexes,
/// one after the other.
pub open spec fn load_faults(cells: Seq<Cell>, indexes: Seq<usize>) -> Seq<Option<HostError>> {
    Seq::new(
        indexes.len(),
        |i: int|
            match cells[indexes[i] as int].data {
                Ok(_) => None,
                Err(e) => Some(e),
            },
    )
}

/// All of the given byte strings are records.
pub open spec fn all_records(records: Seq<Seq<u8>>) -> bool {
    forall|i: int| 0 <= i < records.len() ==> is_demo_data(#[trigger] records[i], false)
}

/// The result of checking the records once they are loaded: all must be
/// records, and their items, in the order of the outputs, must make the
/// whole list.
pub open spec fn created_list_result(records: Seq<Seq<u8>>) -> Result<(), Error> {
    if !all_records(records) {
        Err(Error::Internal(InternalError::CreateInvalidOutputData))
    } else {
        match ordered_summary(nodes_of(records)) {
            Err(e) => Err(Error::Tool(e)),
            Ok(arc) => if arc.is_complete() {
                Ok(())
            } else {
                Err(Error::Internal(InternalError::CreateIncompleteList))
            },
        }
    }
}

/// The result of creating the list whose records are the outputs at the
/// given indexes. The arguments of the script must be the identifier made
/// from the first input of the transaction and the index of the first of
/// these outputs.
pub open spec fn create_result(tx: Transaction, indexes: Seq<usize>) -> Result<(), Error> {
    match tx.script_args {
        Err(e) => Err(Error::Internal(e.internal())),
        Ok(args) => if args@.len() != 32 {
            Err(Error::Internal(InternalError::CreateInvalidArgsLength))
        } else {
            match tx.first_input {
                Err(e) => Err(Error::Internal(e.internal())),
                Ok(input) => if unique_id(input@, indexes[0] as u64) != args@ {
                    Err(Error::Internal(InternalError::CreateIncorrectUniqueId))
                } else {
                    match first_error(load_faults(tx.outputs@, indexes)) {
                        Some(e) => Err(Error::Internal(e.internal())),
                        None => created_list_result(loaded(tx.outputs@, indexes)),
                    }
                },
            }
        },
    }
}

/// Takes from a record the item of the list: its key and the key of its
/// successor.
pub fn parse_linked_list_items<'a>(reader: DemoDataReader<'a>) -> (item: ListItem<BytesReader<'a>>)
    ensures
        item@ == node_of(reader@),
{
    ListItem::new(reader.curr(), reader.next())
}

/// Checks that the outputs at the given indexes make a whole new list, in
/// the order in which they stand, and that the script is bound to this
/// transaction by its arguments.
pub fn create(tx: &Transaction, indexes: Vec<usize>) -> (res: Result<(), Error>)
    requires
        indexes@.len() > 0,
        within(indexes@, tx.outputs@),
    ensures
        res == create_result(*tx, indexes@),
{
    // Check the script args: args length.
    let script_args = match &tx.script_args {
        Ok(args) => args,
        Err(e) => {
            return Err(Error::from(*e));
        },
    };
    if script_args.len() != 32 {
        return Err(Error::from(InternalError::CreateInvalidArgsLength));
    }
    // Check the script args: 32 bytes, the unique ID.
    let first_input = match &tx.first_input {
        Ok(input) => input,
        Err(e) => {
            return Err(Error::from(*e));
        },
    };
    let unique_id = calculate_unique_id(first_input.as_slice(), indexes[0]);
    if !slice_eq(unique_id.as_slice(), script_args.as_slice()) {
        return Err(Error::from(InternalError::CreateIncorrectUniqueId));
    }
    // The data of all the outputs.
    let ghost faults = load_faults(tx.outputs@, indexes@);
    let ghost records = loaded(tx.outputs@, indexes@);
    let mut outputs_data: Vec<&'_ Vec<u8>> = Vec::new();
    let mut i: usize = 0;
    while i < indexes.len()
        invariant
            i <= indexes.len(),
            within(indexes@, tx.outputs@),
            faults == load_faults(tx.outputs@, indexes@),
            records == loaded(tx.outputs@, indexes@),
            create_result(*tx, indexes@) == (match first_error(faults) {
                Some(e) => Err(Error::Internal(e.internal())),
                None => created_list_result(records),
            }),
            first_error(faults.take(i as int)) is None,
            outputs_data@.len() == i,
            forall|j: int| 0 <= j < i ==> (#[trigger] outputs_data@[j])@ == records[j],
        decreases indexes.len() - i,
    {
        proof {
            lemma_first_error_next(faults, i as int);
        }
        match &tx.outputs[indexes[i]].data {
            Ok(data) => {
                outputs_data.push(data);
            },
            Err(e) => {
                proof {
                    lemma_first_error_stays(faults, i + 1);
                }
                return Err(Error::from(*e));
            },
        }
        i += 1;
    }
    proof {
        assert(faults.take(i as int) =~= faults);
    }
    // Each output must be a record.
    let mut outputs_data_slice: Vec<DemoDataReader<'_>> = Vec::new();
    let mut k: usize = 0;
    while k < outputs_data.len()
        invariant
            k <= outputs_data.len(),
            create_result(*tx, indexes@) == created_list_result(records),
            outputs_data@.len() == records.len(),
            forall|j: int| 0 <= j < records.len() ==> (#[trigger] outputs_data@[j])@ == records[j],
            forall|j: int| 0 <= j < k ==> is_demo_data(#[trigger] records[j], false),
            outputs_data_slice@.len() == k,
            forall|j: int| 0 <= j < k ==> (#[trigger] outputs_data_slice@[j])@ == records[j],
        decreases outputs_data.len() - k,
    {
        match DemoDataReader::from_slice(outputs_data[k].as_slice()) {
            Ok(reader) => {
                outputs_data_slice.push(reader);
            },
            Err(_) => {
                proof {
                    assert(!is_demo_data(records[k as int], false)) by {
                        crate::record::layout::lemma_demo_data_verdict(records[k as int], false);
                    }
                }
                return Err(Error::from(InternalError::CreateInvalidOutputData));
            },
        }
        k += 1;
    }
    // The items should be ordered.
    let mut items: Vec<ListItem<BytesReader<'_>>> = Vec::new();
    let mut n: usize = 0;
    while n < outputs_data_slice.len()
        invariant
            n <= outputs_data_slice.len(),
            outputs_data_slice@.len() == records.len(),
            forall|j: int|
                0 <= j < records.len() ==> (#[trigger] outputs_data_slice@[j])@ == records[j],
            items@.len() == n,
            forall|j: int| 0 <= j < n ==> (#[trigger] items@[j])@ == node_of(records[j]),
        decreases outputs_data_slice.len() - n,
    {
        items.push(parse_linked_list_items(outputs_data_slice[n]));
        n += 1;
    }
    proof {
        assert(nodes(items@) =~= nodes_of(records));
    }
    let summary = match check_linked_list_with_ordered_items(items) {
        Ok(summary) => summary,
        Err(e) => {
            return Err(Error::from(e));
        },
    };
    if !summary.is_complete() {
        return Err(Error::from(InternalError::CreateIncompleteList));
    }
    Ok(())
}

} // verus!
