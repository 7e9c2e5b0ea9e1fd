//! The three operations on a list, and what they share.

use vstd::prelude::*;

pub mod create;
pub mod destroy;
pub mod update;

pub use crate::script::operations::create::create;
pub use crate::script::operations::destroy::destroy;
pub use crate::script::operations::update::update;

use crate::record::bytes::BytesReader;
use crate::record::demo_data::DemoDataReader;
use crate::record::layout::is_demo_data;
use crate::script::error::{Error, HostError, InternalError};
use crate::script::host::{
    first_error, lemma_first_error_next, lemma_first_error_stays, node_of, within, Cell,
};
use crate::tool::arc::{nodes, unordered_summary};
use crate::tool::check_linked_list_with_unordered_items;
use crate::tool::types::{Arc, ListItem, ListItemsSummary, Node};

verus! {

/// The bytes that the host loaded for the cells at the given indexes, where
/// it loaded them.
pub open spec fn loaded(cells: Seq<Cell>, indexes: Seq<usize>) -> Seq<Seq<u8>> {
    Seq::new(indexes.len(), |i: int| cells[indexes[i] as int].data->Ok_0@)
}

/// The nodes that the records describe.
pub open spec fn nodes_of(records: Seq<Seq<u8>>) -> Seq<Node> {
    Seq::new(records.len(), |i: int| node_of(records[i]))
}

/// What is wrong with the data of a cell read as a record, if anything is:
/// the host could not load it, or it is no record, which is reported as
/// `invalid`.
pub open spec fn parse_fault(cell: Cell, invalid: InternalError) -> Option<Error> {
    match cell.data {
        Err(e) => Some(Error::Internal(e.internal())),
        Ok(data) => if is_demo_data(data@, false) {
            None
        } else {
            Some(Error::Internal(invalid))
        },
    }
}

/// What is wrong with the cells at the given indexes, one after the other.
pub open spec fn parse_faults(cells: Seq<Cell>, indexes: Seq<usize>, invalid: InternalError) -> Seq<
    Option<Error>,
> {
    Seq::new(indexes.len(), |i: int| parse_fault(cells[indexes[i] as int], invalid))
}

/// The arc that the records at the given indexes make, handed in in any
/// order: the first fault of a cell, or else the result of the unordered
/// check of their nodes.
pub open spec fn summary_of(cells: Seq<Cell>, indexes: Seq<usize>, invalid: InternalError) -> Result<
    Arc,
    Error,
> {
    match first_error(parse_faults(cells, indexes, invalid)) {
        Some(e) => Err(e),
        None => match unordered_summary(nodes_of(loaded(cells, indexes))) {
            Ok(arc) => Ok(arc),
            Err(e) => Err(Error::Tool(e)),
        },
    }
}

/// The result of an operation's check, with its summary taken as the arc it
/// stands for.
pub open spec fn summary_outcome<'a>(res: Result<ListItemsSummary<BytesReader<'a>>, Error>) -> Result<
    Arc,
    Error,
> {
    match res {
        Ok(summary) => Ok(summary@),
        Err(e) => Err(e),
    }
}

/// Reads the data of a cell as a record and takes from it the item of the
/// list: its key and the key of its successor.
pub fn parse_linked_list_items<'a>(
    data_res: &'a Result<Vec<u8>, HostError>,
    invalid: InternalError,
) -> (res: Result<ListItem<BytesReader<'a>>, Error>)
    ensures
        match res {
            Ok(item) => data_res matches Ok(data) && is_demo_data(data@, false) && item@ == node_of(
                data@,
            ),
            Err(e) => match data_res {
                Ok(data) => !is_demo_data(data@, false) && e == Error::Internal(invalid),
                Err(host) => e == Error::Internal(host.internal()),
            },
        },
{
    let data = match data_res {
        Ok(data) => data,
        Err(e) => {
            return Err(Error::from(*e));
        },
    };
    let reader = match DemoDataReader::from_slice(data.as_slice()) {
        Ok(reader) => reader,
        Err(_) => {
            return Err(Error::from(invalid));
        },
    };
    Ok(ListItem::new(reader.curr(), reader.next()))
}

/// Reads the cells at the given indexes as records and checks the items
/// that they hold as a stretch of the list, whatever their order.
pub fn summarize<'a>(cells: &'a Vec<Cell>, indexes: &Vec<usize>, invalid: InternalError) -> (res:
    Result<ListItemsSummary<BytesReader<'a>>, Error>)
    requires
        within(indexes@, cells@),
    ensures
        summary_outcome(res) == summary_of(cells@, indexes@, invalid),
{
    let ghost faults = parse_faults(cells@, indexes@, invalid);
    let ghost records = loaded(cells@, indexes@);
    let mut items: Vec<ListItem<BytesReader<'a>>> = Vec::new();
    let mut i: usize = 0;
    while i < indexes.len()
        invariant
            i <= indexes.len(),
            within(indexes@, cells@),
            faults == parse_faults(cells@, indexes@, invalid),
            records == loaded(cells@, indexes@),
            first_error(faults.take(i as int)) is None,
            items@.len() == i,
            forall|j: int| 0 <= j < i ==> (#[trigger] items@[j])@ == node_of(records[j]),
        decreases indexes.len() - i,
    {
        let index = indexes[i];
        proof {
            lemma_first_error_next(faults, i as int);
        }
        match parse_linked_list_items(&cells[index].data, invalid) {
            Ok(item) => {
                items.push(item);
            },
            Err(e) => {
                proof {
                    lemma_first_error_stays(faults, i + 1);
                }
                return Err(e);
            },
        }
        i += 1;
    }
    proof {
        assert(faults.take(i as int) =~= faults);
        assert(nodes(items@) =~= nodes_of(records));
    }
    match check_linked_list_with_unordered_items(items) {
        Ok(summary) => Ok(summary),
        Err(e) => Err(Error::from(e)),
    }
}

} // verus!
