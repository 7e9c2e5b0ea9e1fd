//! Replacing a stretch of the list by another with the same ends.

use vstd::prelude::*;
use crate::script::error::{Error, InternalError};
use crate::script::host::{within, Transaction};
use crate::script::operations::{summarize, summary_of};

verus! {

/// The result of replacing the inputs at the given indexes by the outputs at
/// the given indexes: both must be stretches of the list, and with the same
/// two ends. The inputs are looked at first. An input that is no record is
/// reported as `DestroyInvalidInputData`, an output that is none as
/// `CreateInvalidOutputData`.
pub open spec fn update_result(
    tx: Transaction,
    inputs_indexes: Seq<usize>,
    outputs_indexes: Seq<usize>,
) -> Result<(), Error> {
    match summary_of(tx.inputs@, inputs_indexes, InternalError::DestroyInvalidInputData) {
        Err(e) => Err(e),
        Ok(inputs_arc) => match summary_of(
            tx.outputs@,
            outputs_indexes,
            InternalError::CreateInvalidOutputData,
        ) {
            Err(e) => Err(e),
            Ok(outputs_arc) => if inputs_arc == outputs_arc {
                Ok(())
            } else {
                Err(Error::Internal(InternalError::UpdateMismatchRange))
            },
        },
    }
}

/// Checks that the inputs and the outputs at the given indexes are
/// stretches of the list with the same two ends, in whatever order the
/// records stand. An update that is accepted leaves the ends as they were.
pub fn update(tx: &Transaction, inputs_indexes: Vec<usize>, outputs_indexes: Vec<usize>) -> (res:
    Result<(), Error>)
    requires
        within(inputs_indexes@, tx.inputs@),
        within(outputs_indexes@, tx.outputs@),
    ensures
        res == update_result(*tx, inputs_indexes@, outputs_indexes@),
        res is Ok ==> summary_of(
            tx.inputs@,
            inputs_indexes@,
            InternalError::DestroyInvalidInputData,
        ) is Ok && summary_of(tx.inputs@, inputs_indexes@, InternalError::DestroyInvalidInputData)
            == summary_of(tx.outputs@, outputs_indexes@, InternalError::CreateInvalidOutputData),
{
    let inputs_summary = match summarize(
        &tx.inputs,
        &inputs_indexes,
        InternalError::DestroyInvalidInputData,
    ) {
        Ok(summary) => summary,
        Err(e) => {
            return Err(e);
        },
    };
    let outputs_summary = match summarize(
        &tx.outputs,
        &outputs_indexes,
        InternalError::CreateInvalidOutputData,
    ) {
        Ok(summary) => summary,
        Err(e) => {
            return Err(e);
        },
    };
    if inputs_summary != outputs_summary {
        return Err(Error::from(InternalError::UpdateMismatchRange));
    }
    Ok(())
}

} // verus!
