//! Types.

use vstd::prelude::*;
use crate::tool::order::{bytes_lt, slice_eq, slice_lt};

verus! {

/// A value that can serve as a key of the list: it stands for a byte string,
/// and keys are compared as their byte strings are, lexicographically.
pub trait Field: Sized {
    /// The byte string that this key stands for.
    spec fn key(&self) -> Seq<u8>;

    /// Tells whether both keys stand for the same byte string.
    fn key_eq(&self, other: &Self) -> (r: bool)
        ensures
            r == (self.key() == other.key()),
    ;

    /// Tells whether this key comes strictly before the other.
    fn key_lt(&self, other: &Self) -> (r: bool)
        ensures
            r == bytes_lt(self.key(), other.key()),
    ;
}

/// A vector of bytes is the key that it holds.
impl Field for Vec<u8> {
    open spec fn key(&self) -> Seq<u8> {
        self@
    }

    fn key_eq(&self, other: &Self) -> (r: bool) {
        slice_eq(self.as_slice(), other.as_slice())
    }

    fn key_lt(&self, other: &Self) -> (r: bool) {
        slice_lt(self.as_slice(), other.as_slice())
    }
}

/// What an item says of the list: the node with key `curr` is followed by the
/// node with key `next`.
pub struct Node {
    /// The key of this node.
    pub curr: Seq<u8>,
    /// The key of the node that follows.
    pub next: Seq<u8>,
}

/// The two ends of a stretch of the list.
pub struct Arc {
    /// The key of the first node of the stretch.
    pub start: Seq<u8>,
    /// The key of the node that follows the last node of the stretch.
    pub end: Seq<u8>,
}

impl Arc {
    /// The stretch closes into the whole circle.
    pub open spec fn is_complete(self) -> bool {
        self.start == self.end
    }

    /// The stretch holds the node that points back to the head of the list.
    pub open spec fn has_last(self) -> bool {
        !bytes_lt(self.start, self.end)
    }
}

/// An item of the linked list that contains current data and the next data.
pub struct ListItem<F> {
    /// Current data.
    pub curr: F,
    /// Next data.
    pub next: F,
}

/// A summary of one or more than one continuous linked list items.
pub struct ListItemsSummary<F> {
    /// Current data of the first item.
    pub start: F,
    /// Next data of the last item.
    pub end: F,
}

impl<F: Field> View for ListItem<F> {
    type V = Node;

    open spec fn view(&self) -> Node {
        Node { curr: self.curr.key(), next: self.next.key() }
    }
}

impl<F: Field> View for ListItemsSummary<F> {
    type V = Arc;

    open spec fn view(&self) -> Arc {
        Arc { start: self.start.key(), end: self.end.key() }
    }
}

impl<F> ListItem<F> {
    /// Creates a new list item.
    pub fn new(curr: F, next: F) -> (item: Self)
        ensures
            item.curr == curr,
            item.next == next,
    {
        Self { curr, next }
    }
}

impl<F> ListItemsSummary<F> {
    /// Creates a new summary of one or more than one continuous linked list items.
    pub fn new(start: F, end: F) -> (summary: Self)
        ensures
            summary.start == start,
            summary.end == end,
    {
        Self { start, end }
    }
}

impl<F: Field> ListItemsSummary<F> {
    /// If current summary contains all items in the list.
    pub fn is_complete(&self) -> (r: bool)
        ensures
            r == self@.is_complete(),
    {
        self.start.key_eq(&self.end)
    }

    /// Contains the last item which next data points back to the first item of
    /// the linked list.
    pub fn has_last(&self) -> (r: bool)
        ensures
            r == self@.has_last(),
    {
        !self.start.key_lt(&self.end)
    }
}

impl<F: Field> PartialEq for ListItemsSummary<F> {
    fn eq(&self, other: &Self) -> (r: bool) {
        self.start.key_eq(&other.start) && self.end.key_eq(&other.end)
    }
}

impl<F: Field> vstd::std_specs::cmp::PartialEqSpecImpl for ListItemsSummary<F> {
    open spec fn obeys_eq_spec() -> bool {
        true
    }

    open spec fn eq_spec(&self, other: &Self) -> bool {
        self@ == other@
    }
}

} // verus!
