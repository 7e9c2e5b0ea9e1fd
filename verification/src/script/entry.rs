//! The entry of the script: which operation a transaction is, and whether
//! it is accepted.

use vstd::prelude::*;
use crate::script::error::{Error, InternalError};
use crate::script::host::{indexes_under, matching_indexes, Transaction};
use crate::script::operations::create::create_result;
use crate::script::operations::destroy::destroy_result;
use crate::script::operations::update::update_result;
use crate::script::operations::{create, destroy, update};

verus! {

/// What a transaction does to the list.
#[derive(Clone, Copy, Debug, PartialEq, Eq, Structural)]
pub enum Operation {
    /// A new list is put on the ledger.
    Create,
    /// A list is taken off the ledger.
    Destroy,
    /// A stretch of a list is replaced.
    Update,
}

/// The operation of a transaction with the given numbers of inputs and of
/// outputs under the script. No input and two or more outputs create a list;
/// two or more inputs and no output destroy one; inputs and outputs update
/// one, but not one input with one output. Nothing else is an operation.
pub open spec fn operation_of(inputs: nat, outputs: nat) -> Option<Operation> {
    if inputs == 0 && outputs > 1 {
        Some(Operation::Create)
    } else if outputs == 0 && inputs > 1 {
        Some(Operation::Destroy)
    } else if inputs > 0 && outputs > 0 && !(inputs == 1 && outputs == 1) {
        Some(Operation::Update)
    } else {
        None
    }
}

/// Tells the operation of a transaction from the numbers of its inputs and
/// of its outputs that are under the script.
pub fn dispatch(inputs: usize, outputs: usize) -> (res: Result<Operation, Error>)
    ensures
        res == match operation_of(inputs as nat, outputs as nat) {
            Some(operation) => Ok::<Operation, Error>(operation),
            None => Err(Error::Internal(InternalError::UnknownOperation)),
        },
{
    if inputs == 0 && outputs > 1 {
        Ok(Operation::Create)
    } else if outputs == 0 && inputs > 1 {
        Ok(Operation::Destroy)
    } else if inputs > 0 && outputs > 0 && !(inputs == 1 && outputs == 1) {
        Ok(Operation::Update)
    } else {
        Err(Error::from(InternalError::UnknownOperation))
    }
}

/// Whether the script accepts a transaction, and if not, why.
pub open spec fn main_result(tx: Transaction) -> Result<(), Error> {
    match tx.script_hash {
        Err(e) => Err(Error::Internal(e.internal())),
        Ok(hash) => {
            let inputs = indexes_under(tx.inputs@, hash@, tx.inputs@.len());
            let outputs = indexes_under(tx.outputs@, hash@, tx.outputs@.len());
            match operation_of(inputs.len(), outputs.len()) {
                Some(Operation::Create) => create_result(tx, outputs),
                Some(Operation::Destroy) => destroy_result(tx, inputs),
                Some(Operation::Update) => update_result(tx, inputs, outputs),
                None => Err(Error::Internal(InternalError::UnknownOperation)),
            }
        },
    }
}

/// Decides whether the script accepts the transaction: finds the inputs and
/// the outputs that are under the script, tells the operation from their
/// numbers, and checks what the operation asks for.
pub fn main(tx: &Transaction) -> (res: Result<(), Error>)
    ensures
        res == main_result(*tx),
{
    let script_hash = match &tx.script_hash {
        Ok(hash) => hash,
        Err(e) => {
            return Err(Error::from(*e));
        },
    };
    // Find all input cells which use current script.
    let indexes_of_inputs = matching_indexes(script_hash, &tx.inputs);
    // Find all output cells which use current script.
    let indexes_of_outputs = matching_indexes(script_hash, &tx.outputs);
    match dispatch(indexes_of_inputs.len(), indexes_of_outputs.len()) {
        Ok(Operation::Create) => create(tx, indexes_of_outputs),
        Ok(Operation::Destroy) => destroy(tx, indexes_of_inputs),
        Ok(Operation::Update) => update(tx, indexes_of_inputs, indexes_of_outputs),
        Err(e) => Err(e),
    }
}

/// The exit status of the script: zero where the transaction is accepted,
/// else the number of the error.
pub fn exit_code(res: Result<(), Error>) -> (code: i8)
    ensures
        code == match res {
            Ok(()) => 0i8,
            Err(e) => e.exit_code(),
        },
        code == 0 <==> res is Ok,
{
    match res {
        Ok(()) => 0,
        Err(e) => {
            proof {
                crate::script::error::lemma_exit_code(e, e);
            }
            i8::from(e)
        },
    }
}

} // verus!
