//! Comparing byte strings with `==` and `<`: by their content,
//! lexicographically.

use std::cmp::Ordering;
use vstd::prelude::*;
use vstd::std_specs::cmp::{PartialEqSpecImpl, PartialOrdSpecImpl};
use crate::record::bytes::{Bytes, BytesReader};
use crate::record::layout::raw;
use crate::tool::order::{bytes_lt, lemma_lt_asymmetric, lemma_lt_irreflexive, slice_lt};

verus! {

/// How the byte string `a` stands to `b` in lexicographic order.
pub open spec fn bytes_ordering(a: Seq<u8>, b: Seq<u8>) -> Ordering {
    if bytes_lt(a, b) {
        Ordering::Less
    } else if bytes_lt(b, a) {
        Ordering::Greater
    } else {
        Ordering::Equal
    }
}

/// Only equal byte strings are neither before nor after one another.
pub proof fn lemma_bytes_ordering(a: Seq<u8>, b: Seq<u8>)
    ensures
        bytes_ordering(a, b) == Ordering::Equal <==> a == b,
        bytes_ordering(a, b) == Ordering::Less <==> bytes_ordering(b, a) == Ordering::Greater,
{
    crate::tool::order::lemma_lt_total(a, b);
    lemma_lt_irreflexive(a);
    if bytes_lt(a, b) {
        lemma_lt_asymmetric(a, b);
    }
}

/// Tells how the slice `a` stands to `b` in lexicographic order.
pub fn slice_ordering(a: &[u8], b: &[u8]) -> (o: Ordering)
    ensures
        o == bytes_ordering(a@, b@),
{
    if slice_lt(a, b) {
        Ordering::Less
    } else if slice_lt(b, a) {
        Ordering::Greater
    } else {
        Ordering::Equal
    }
}

impl<'r> PartialEq for BytesReader<'r> {
    fn eq(&self, other: &Self) -> (r: bool) {
        proof {
            lemma_bytes_ordering(raw(self@), raw(other@));
        }
        matches!(slice_ordering(self.raw_data(), other.raw_data()), Ordering::Equal)
    }
}

impl<'r> PartialEqSpecImpl for BytesReader<'r> {
    open spec fn obeys_eq_spec() -> bool {
        true
    }

    open spec fn eq_spec(&self, other: &Self) -> bool {
        raw(self@) == raw(other@)
    }
}

impl<'r> Eq for BytesReader<'r> {

}

impl<'r> PartialOrd for BytesReader<'r> {
    fn partial_cmp(&self, other: &Self) -> (r: Option<Ordering>) {
        Some(slice_ordering(self.raw_data(), other.raw_data()))
    }
}

impl<'r> PartialOrdSpecImpl for BytesReader<'r> {
    open spec fn obeys_partial_cmp_spec() -> bool {
        true
    }

    open spec fn partial_cmp_spec(&self, other: &Self) -> Option<Ordering> {
        Some(bytes_ordering(raw(self@), raw(other@)))
    }
}

impl PartialEq for Bytes {
    fn eq(&self, other: &Self) -> (r: bool) {
        self.as_reader() == other.as_reader()
    }
}

impl PartialEqSpecImpl for Bytes {
    open spec fn obeys_eq_spec() -> bool {
        true
    }

    open spec fn eq_spec(&self, other: &Self) -> bool {
        raw(self@) == raw(other@)
    }
}

impl Eq for Bytes {

}

impl PartialOrd for Bytes {
    fn partial_cmp(&self, other: &Self) -> (r: Option<Ordering>) {
        self.as_reader().partial_cmp(&other.as_reader())
    }
}

impl PartialOrdSpecImpl for Bytes {
    open spec fn obeys_partial_cmp_spec() -> bool {
        true
    }

    open spec fn partial_cmp_spec(&self, other: &Self) -> Option<Ordering> {
        Some(bytes_ordering(raw(self@), raw(other@)))
    }
}

} // verus!
