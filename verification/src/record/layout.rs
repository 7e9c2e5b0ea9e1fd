//! The layout of byte strings and records, and what a reader says of given
//! bytes.

use vstd::prelude::*;
use crate::record::error::{Schema, VerificationError};
use crate::record::number::{le_bytes, le_u32};

verus! {

/// The bytes are a byte string: a number and then as many bytes as the
/// number says.
pub open spec fn is_bytes(s: Seq<u8>) -> bool {
    s.len() >= 4 && s.len() == 4 + le_u32(s)
}

/// The content of a byte string: what follows its number.
pub open spec fn raw(s: Seq<u8>) -> Seq<u8> {
    s.skip(4)
}

/// The byte string with the given content.
pub open spec fn bytes_encoding(content: Seq<u8>) -> Seq<u8> {
    le_bytes(content.len() as u32) + content
}

/// What the reader of a byte string says of `s`.
pub open spec fn bytes_verdict(s: Seq<u8>) -> Result<(), VerificationError> {
    if s.len() < 4 {
        Err(VerificationError::HeaderIsBroken(Schema::BytesReader, 4, s.len() as u64))
    } else if s.len() != 4 + le_u32(s) {
        Err(
            VerificationError::TotalSizeNotMatch(
                Schema::BytesReader,
                (4 + le_u32(s)) as u64,
                s.len() as u64,
            ),
        )
    } else {
        Ok(())
    }
}

/// A byte string made from content that is not too long is a byte string,
/// and its content is the content it was made from.
pub proof fn lemma_bytes_round_trip(content: Seq<u8>)
    requires
        content.len() <= u32::MAX,
    ensures
        is_bytes(bytes_encoding(content)),
        bytes_verdict(bytes_encoding(content)) is Ok,
        raw(bytes_encoding(content)) == content,
        bytes_encoding(content).len() == 4 + content.len(),
{
    let n = content.len() as u32;
    let s = bytes_encoding(content);
    crate::record::number::lemma_le_round_trip(n);
    assert(s.subrange(0, 4) =~= le_bytes(n).subrange(0, 4));
    crate::record::number::lemma_le_prefix(s, le_bytes(n));
    assert(raw(s) =~= content);
}

/// The number of fields of a record.
pub const FIELD_COUNT: usize = 3;

/// Entry `i` of the offset table of a record: where field `i` starts.
pub open spec fn offset(s: Seq<u8>, i: int) -> int {
    le_u32(s.skip(4 + 4 * i))
}

/// The number of fields that the offset table has room for: the first field
/// starts where the table ends.
pub open spec fn field_count(s: Seq<u8>) -> int {
    offset(s, 0) / 4 - 1
}

/// Where field `i` starts; for the number of fields in place of `i`, where
/// the record ends.
pub open spec fn mark(s: Seq<u8>, i: int) -> int {
    if i < field_count(s) {
        offset(s, i)
    } else {
        s.len() as int
    }
}

/// The bytes of field `i` of a record: from where it starts to where the
/// next field starts, or to the end of the record.
pub open spec fn field(s: Seq<u8>, i: int) -> Seq<u8> {
    s.subrange(mark(s, i), mark(s, i + 1))
}

/// No field starts after the field that follows it, nor after the end of the
/// record.
pub open spec fn offsets_grow(s: Seq<u8>) -> bool {
    forall|i: int, j: int|
        0 <= i < field_count(s) && j == i + 1 ==> #[trigger] mark(s, i) <= #[trigger] mark(s, j)
}

/// The bytes are a record: its size, the table of the offsets of its fields,
/// and the fields, of which the first three are byte strings. A record read
/// strictly has three fields; one read compatibly may have more.
pub open spec fn is_demo_data(s: Seq<u8>, compatible: bool) -> bool {
    &&& s.len() >= 8
    &&& le_u32(s) == s.len()
    &&& offset(s, 0) % 4 == 0
    &&& 8 <= offset(s, 0) <= s.len()
    &&& field_count(s) >= 3
    &&& compatible || field_count(s) == 3
    &&& offsets_grow(s)
    &&& is_bytes(field(s, 0))
    &&& is_bytes(field(s, 1))
    &&& is_bytes(field(s, 2))
}

/// What the reader of a byte string says of a field, if the field is at
/// fault.
pub open spec fn field_verdict(s: Seq<u8>) -> Result<(), VerificationError> {
    if bytes_verdict(field(s, 0)) is Err {
        bytes_verdict(field(s, 0))
    } else if bytes_verdict(field(s, 1)) is Err {
        bytes_verdict(field(s, 1))
    } else {
        bytes_verdict(field(s, 2))
    }
}

/// What the reader of a record says of `s`.
pub open spec fn demo_data_verdict(s: Seq<u8>, compatible: bool) -> Result<(), VerificationError> {
    if s.len() < 4 {
        Err(VerificationError::HeaderIsBroken(Schema::DemoDataReader, 4, s.len() as u64))
    } else if s.len() != le_u32(s) {
        Err(
            VerificationError::TotalSizeNotMatch(
                Schema::DemoDataReader,
                le_u32(s) as u64,
                s.len() as u64,
            ),
        )
    } else if s.len() < 8 {
        Err(VerificationError::HeaderIsBroken(Schema::DemoDataReader, 8, s.len() as u64))
    } else if offset(s, 0) % 4 != 0 || offset(s, 0) < 8 {
        Err(VerificationError::OffsetsNotMatch(Schema::DemoDataReader))
    } else if s.len() < offset(s, 0) {
        Err(
            VerificationError::HeaderIsBroken(
                Schema::DemoDataReader,
                offset(s, 0) as u64,
                s.len() as u64,
            ),
        )
    } else if field_count(s) < 3 || (!compatible && field_count(s) > 3) {
        Err(
            VerificationError::FieldCountNotMatch(
                Schema::DemoDataReader,
                3,
                field_count(s) as u64,
            ),
        )
    } else if !offsets_grow(s) {
        Err(VerificationError::OffsetsNotMatch(Schema::DemoDataReader))
    } else {
        field_verdict(s)
    }
}

/// The reader accepts exactly the records.
pub proof fn lemma_demo_data_verdict(s: Seq<u8>, compatible: bool)
    ensures
        demo_data_verdict(s, compatible) is Ok <==> is_demo_data(s, compatible),
{
}

/// The record with the three given byte strings as its fields.
pub open spec fn record_of(demo: Seq<u8>, curr: Seq<u8>, next: Seq<u8>) -> Seq<u8> {
    le_bytes((16 + demo.len() + curr.len() + next.len()) as u32) + le_bytes(16) + le_bytes(
        (16 + demo.len()) as u32,
    ) + le_bytes((16 + demo.len() + curr.len()) as u32) + demo + curr + next
}

/// The record whose three fields have the given contents.
pub open spec fn record_encoding(demo: Seq<u8>, curr: Seq<u8>, next: Seq<u8>) -> Seq<u8> {
    record_of(bytes_encoding(demo), bytes_encoding(curr), bytes_encoding(next))
}

proof fn lemma_number_at(s: Seq<u8>, at: int, n: u32)
    requires
        0 <= at,
        at + 4 <= s.len(),
        s.subrange(at, at + 4) == le_bytes(n),
    ensures
        le_u32(s.skip(at)) == n,
{
    crate::record::number::lemma_le_round_trip(n);
    assert(s.skip(at).subrange(0, 4) =~= s.subrange(at, at + 4));
    assert(le_bytes(n).subrange(0, 4) =~= le_bytes(n));
    crate::record::number::lemma_le_prefix(s.skip(at), le_bytes(n));
}

proof fn lemma_seven_parts(
    a: Seq<u8>,
    b: Seq<u8>,
    c: Seq<u8>,
    d: Seq<u8>,
    e: Seq<u8>,
    f: Seq<u8>,
    g: Seq<u8>,
)
    requires
        a.len() == 4,
        b.len() == 4,
        c.len() == 4,
        d.len() == 4,
    ensures
        ({
            let s = a + b + c + d + e + f + g;
            let at_f = 16 + e.len() as int;
            let at_g = at_f + f.len() as int;
            &&& s.len() == at_g + g.len()
            &&& s.subrange(0, 4) == a
            &&& s.subrange(4, 8) == b
            &&& s.subrange(8, 12) == c
            &&& s.subrange(12, 16) == d
            &&& s.subrange(16, at_f) == e
            &&& s.subrange(at_f, at_g) == f
            &&& s.subrange(at_g, s.len() as int) == g
        }),
{
    let s = a + b + c + d + e + f + g;
    let at_f = 16 + e.len() as int;
    let at_g = at_f + f.len() as int;
    assert(s.subrange(0, 4) =~= a);
    assert(s.subrange(4, 8) =~= b);
    assert(s.subrange(8, 12) =~= c);
    assert(s.subrange(12, 16) =~= d);
    assert(s.subrange(16, at_f) =~= e);
    assert(s.subrange(at_f, at_g) =~= f);
    assert(s.subrange(at_g, s.len() as int) =~= g);
}

/// Three byte strings that are not too long make a record, read strictly,
/// whose fields they are.
pub proof fn lemma_record_of(demo: Seq<u8>, curr: Seq<u8>, next: Seq<u8>)
    requires
        is_bytes(demo),
        is_bytes(curr),
        is_bytes(next),
        16 + demo.len() + curr.len() + next.len() <= u32::MAX,
    ensures
        record_of(demo, curr, next).len() == 16 + demo.len() + curr.len() + next.len(),
        is_demo_data(record_of(demo, curr, next), false),
        is_demo_data(record_of(demo, curr, next), true),
        field_count(record_of(demo, curr, next)) == 3,
        field(record_of(demo, curr, next), 0) == demo,
        field(record_of(demo, curr, next), 1) == curr,
        field(record_of(demo, curr, next), 2) == next,
{
    let s = record_of(demo, curr, next);
    let total = (16 + demo.len() + curr.len() + next.len()) as u32;
    let second = (16 + demo.len()) as u32;
    let third = (16 + demo.len() + curr.len()) as u32;
    crate::record::number::lemma_le_round_trip(total);
    crate::record::number::lemma_le_round_trip(16);
    crate::record::number::lemma_le_round_trip(second);
    crate::record::number::lemma_le_round_trip(third);
    lemma_seven_parts(
        le_bytes(total),
        le_bytes(16),
        le_bytes(second),
        le_bytes(third),
        demo,
        curr,
        next,
    );
    assert(s.skip(0) =~= s);
    lemma_number_at(s, 0, total);
    lemma_number_at(s, 4, 16);
    lemma_number_at(s, 8, second);
    lemma_number_at(s, 12, third);
    assert(offset(s, 0) == 16);
    assert(offset(s, 1) == second);
    assert(offset(s, 2) == third);
    assert(field_count(s) == 3);
    assert(field(s, 0) == demo);
    assert(field(s, 1) == curr);
    assert(field(s, 2) == next);
    assert(mark(s, 0) == 16 && mark(s, 1) == second && mark(s, 2) == third && mark(s, 3) == s.len());
    assert(offsets_grow(s)) by {
        assert forall|i: int, j: int| 0 <= i < field_count(s) && j == i + 1 implies #[trigger] mark(
            s,
            i,
        ) <= #[trigger] mark(s, j) by {
            assert(i == 0 || i == 1 || i == 2);
        }
    }
}

/// Writing three contents as a record and reading the record back gives the
/// three contents: the record is accepted, read strictly, and the contents of
/// its fields are the contents it was made from.
pub proof fn lemma_record_round_trip(demo: Seq<u8>, curr: Seq<u8>, next: Seq<u8>)
    requires
        28 + demo.len() + curr.len() + next.len() <= u32::MAX,
    ensures
        demo_data_verdict(record_encoding(demo, curr, next), false) is Ok,
        raw(field(record_encoding(demo, curr, next), 0)) == demo,
        raw(field(record_encoding(demo, curr, next), 1)) == curr,
        raw(field(record_encoding(demo, curr, next), 2)) == next,
{
    lemma_bytes_round_trip(demo);
    lemma_bytes_round_trip(curr);
    lemma_bytes_round_trip(next);
    lemma_record_of(bytes_encoding(demo), bytes_encoding(curr), bytes_encoding(next));
    lemma_demo_data_verdict(record_encoding(demo, curr, next), false);
}

} // verus!
