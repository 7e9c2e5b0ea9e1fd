//! Taking a whole list off the ledger.

use vstd::prelude::*;
use crate::script::error::{Error, InternalError};
use crate::script::host::{within, Transaction};
use crate::script::operations::{summarize, summary_of};

verus! {

/// The result of destroying the list whose records are the inputs at the
/// given indexes: they must make the whole list.
pub open spec fn destroy_result(tx: Transaction, indexes: Seq<usize>) -> Result<(), Error> {
    match summary_of(tx.inputs@, indexes, InternalError::DestroyInvalidInputData) {
        Err(e) => Err(e),
        Ok(arc) => if arc.is_complete() {
            Ok(())
        } else {
            Err(Error::Internal(InternalError::DestroyIncompleteList))
        },
    }
}

/// Checks that the inputs at the given indexes make a whole list, in
/// whatever order they stand. The identifier of the list is not looked at.
pub fn destroy(tx: &Transaction, indexes: Vec<usize>) -> (res: Result<(), Error>)
    requires
        within(indexes@, tx.inputs@),
    ensures
        res == destroy_result(*tx, indexes@),
{
    let summary = match summarize(&tx.inputs, &indexes, InternalError::DestroyInvalidInputData) {
        Ok(summary) => summary,
        Err(e) => {
            return Err(e);
        },
    };
    if !summary.is_complete() {
        return Err(Error::from(InternalError::DestroyIncompleteList));
    }
    Ok(())
}

} // verus!
