//! Records: the payload of one node of the list, with its key and the key
//! of its successor.

use vstd::prelude::*;
use vstd::slice::slice_subrange;
use crate::record::buffer::{buffer_as_slice, buffer_from_vec, buffer_slice, Buffer};
use crate::record::bytes::{Bytes, BytesReader};
use crate::record::error::{Schema, VerificationError};
use crate::record::layout::{
    bytes_encoding, demo_data_verdict, field, field_count, is_demo_data,
    lemma_bytes_round_trip, lemma_record_of, mark, offset, offsets_grow, record_encoding,
    record_of, FIELD_COUNT,
};
use crate::record::number::{le_u32, pack_number, unpack_number, NUMBER_SIZE};

verus! {

/// A record that owns its bytes.
pub struct DemoData(Buffer);

/// A record in borrowed bytes.
#[derive(Clone, Copy)]
pub struct DemoDataReader<'r>(&'r [u8]);

impl View for DemoData {
    type V = Seq<u8>;

    /// All the bytes of the record.
    closed spec fn view(&self) -> Seq<u8> {
        self.0@
    }
}

impl<'r> View for DemoDataReader<'r> {
    type V = Seq<u8>;

    /// All the bytes of the record.
    closed spec fn view(&self) -> Seq<u8> {
        self.0@
    }
}

/// Every field of a record whose offsets grow lies within the record.
pub proof fn lemma_field_within(s: Seq<u8>, i: int)
    requires
        offsets_grow(s),
        0 <= i < field_count(s),
    ensures
        mark(s, i) <= mark(s, i + 1) <= s.len(),
    decreases field_count(s) - i,
{
    if i + 1 < field_count(s) {
        lemma_field_within(s, i + 1);
    }
}

/// Reads the number that starts at byte `at`.
fn number_at(slice: &[u8], at: usize) -> (n: u32)
    requires
        at + 4 <= slice@.len(),
    ensures
        n == le_u32(slice@.skip(at as int)),
{
    unpack_number(slice_subrange(slice, at, slice.len()))
}

/// Reads entry `i` of the offset table.
fn offset_at(slice: &[u8], i: usize) -> (n: usize)
    requires
        8 + 4 * i <= slice@.len(),
    ensures
        n == offset(slice@, i as int),
{
    proof {
        assert(slice.len() == slice@.len());
    }
    number_at(slice, NUMBER_SIZE + NUMBER_SIZE * i) as usize
}

impl<'r> DemoDataReader<'r> {
    /// The number of fields that every record has.
    pub const FIELD_COUNT: usize = FIELD_COUNT;

    #[verifier::type_invariant]
    spec fn well_formed(self) -> bool {
        is_demo_data(self.0@, true)
    }

    /// The number of bytes of the record.
    pub fn total_size(&self) -> (n: usize)
        ensures
            n == self@.len(),
    {
        proof {
            use_type_invariant(self);
        }
        unpack_number(self.as_slice()) as usize
    }

    /// The number of fields of the record.
    pub fn field_count(&self) -> (n: usize)
        ensures
            n == field_count(self@),
            n >= 3,
    {
        proof {
            use_type_invariant(self);
        }
        if self.total_size() == NUMBER_SIZE {
            0
        } else {
            (offset_at(self.as_slice(), 0) / 4) - 1
        }
    }

    /// The number of fields beyond the three that every record has.
    pub fn count_extra_fields(&self) -> (n: usize)
        ensures
            n == field_count(self@) - 3,
    {
        self.field_count() - Self::FIELD_COUNT
    }

    /// Tells whether the record has more than its three fields.
    pub fn has_extra_fields(&self) -> (b: bool)
        ensures
            b == (field_count(self@) != 3),
    {
        Self::FIELD_COUNT != self.field_count()
    }

    /// The field `demo`: what the node carries besides its keys.
    pub fn demo(&self) -> (reader: BytesReader<'r>)
        ensures
            reader@ == field(self@, 0),
    {
        proof {
            use_type_invariant(self);
            lemma_field_within(self.0@, 0);
        }
        let slice = self.as_slice();
        let start = offset_at(slice, 0);
        let end = offset_at(slice, 1);
        BytesReader::new_unchecked(slice_subrange(slice, start, end))
    }

    /// The field `curr`: the key of the node.
    pub fn curr(&self) -> (reader: BytesReader<'r>)
        ensures
            reader@ == field(self@, 1),
    {
        proof {
            use_type_invariant(self);
            lemma_field_within(self.0@, 1);
        }
        let slice = self.as_slice();
        let start = offset_at(slice, 1);
        let end = offset_at(slice, 2);
        BytesReader::new_unchecked(slice_subrange(slice, start, end))
    }

    /// The field `next`: the key of the node that follows.
    pub fn next(&self) -> (reader: BytesReader<'r>)
        ensures
            reader@ == field(self@, 2),
    {
        proof {
            use_type_invariant(self);
            lemma_field_within(self.0@, 2);
        }
        let slice = self.as_slice();
        let start = offset_at(slice, 2);
        if self.has_extra_fields() {
            let end = offset_at(slice, 3);
            BytesReader::new_unchecked(slice_subrange(slice, start, end))
        } else {
            BytesReader::new_unchecked(slice_subrange(slice, start, slice.len()))
        }
    }

    /// A record of the same bytes that owns them.
    pub fn to_entity(&self) -> (entity: DemoData)
        ensures
            entity@ == self@,
    {
        proof {
            use_type_invariant(self);
        }
        DemoData::new_unchecked(vstd::slice::slice_to_vec(self.as_slice()))
    }

    /// Takes `slice`, which must be a record, for one.
    pub fn new_unchecked(slice: &'r [u8]) -> (reader: Self)
        requires
            is_demo_data(slice@, true),
        ensures
            reader@ == slice@,
    {
        DemoDataReader(slice)
    }

    /// All the bytes of the record.
    pub fn as_slice(&self) -> (slice: &'r [u8])
        ensures
            slice@ == self@,
            is_demo_data(self@, true),
    {
        proof {
            use_type_invariant(self);
        }
        self.0
    }

    /// Tells whether `slice` is a record, and if not, why. Read compatibly,
    /// a record may have more than its three fields.
    pub fn verify(slice: &[u8], compatible: bool) -> (res: Result<(), VerificationError>)
        ensures
            res == demo_data_verdict(slice@, compatible),
            res is Ok <==> is_demo_data(slice@, compatible),
    {
        let ghost s = slice@;
        proof {
            crate::record::layout::lemma_demo_data_verdict(s, compatible);
        }
        let slice_len = slice.len();
        if slice_len < NUMBER_SIZE {
            return Err(
                VerificationError::HeaderIsBroken(
                    Schema::DemoDataReader,
                    NUMBER_SIZE as u64,
                    slice_len as u64,
                ),
            );
        }
        let total_size = unpack_number(slice) as usize;
        if slice_len != total_size {
            return Err(
                VerificationError::TotalSizeNotMatch(
                    Schema::DemoDataReader,
                    total_size as u64,
                    slice_len as u64,
                ),
            );
        }
        if slice_len < NUMBER_SIZE * 2 {
            return Err(
                VerificationError::HeaderIsBroken(
                    Schema::DemoDataReader,
                    (NUMBER_SIZE * 2) as u64,
                    slice_len as u64,
                ),
            );
        }
        let offset_first = offset_at(slice, 0);
        if offset_first % NUMBER_SIZE != 0 || offset_first < NUMBER_SIZE * 2 {
            return Err(VerificationError::OffsetsNotMatch(Schema::DemoDataReader));
        }
        if slice_len < offset_first {
            return Err(
                VerificationError::HeaderIsBroken(
                    Schema::DemoDataReader,
                    offset_first as u64,
                    slice_len as u64,
                ),
            );
        }
        let field_count = offset_first / NUMBER_SIZE - 1;
        if field_count < Self::FIELD_COUNT {
            return Err(
                VerificationError::FieldCountNotMatch(
                    Schema::DemoDataReader,
                    Self::FIELD_COUNT as u64,
                    field_count as u64,
                ),
            );
        } else if !compatible && field_count > Self::FIELD_COUNT {
            return Err(
                VerificationError::FieldCountNotMatch(
                    Schema::DemoDataReader,
                    Self::FIELD_COUNT as u64,
                    field_count as u64,
                ),
            );
        }
        let mut offsets: Vec<usize> = Vec::new();
        let mut i: usize = 0;
        while i < field_count
            invariant
                s == slice@,
                i <= field_count,
                4 + 4 * field_count == offset_first,
                offset_first <= slice_len,
                slice_len == s.len(),
                field_count == crate::record::layout::field_count(s),
                offsets@.len() == i,
                forall|j: int| 0 <= j < i ==> offsets@[j] == mark(s, j),
            decreases field_count - i,
        {
            offsets.push(offset_at(slice, i));
            i += 1;
        }
        offsets.push(total_size);
        let ghost rest = if offsets_grow(s) {
            crate::record::layout::field_verdict(s)
        } else {
            Err(VerificationError::OffsetsNotMatch(Schema::DemoDataReader))
        };
        let mut k: usize = 0;
        while k < field_count
            invariant
                s == slice@,
                demo_data_verdict(s, compatible) == rest,
                k <= field_count,
                field_count == crate::record::layout::field_count(s),
                offsets@.len() == field_count + 1,
                forall|j: int| 0 <= j <= field_count ==> offsets@[j] == mark(s, j),
                forall|a: int, b: int|
                    0 <= a < k && b == a + 1 ==> #[trigger] mark(s, a) <= #[trigger] mark(s, b),
                !offsets_grow(s) ==> rest == Err::<(), VerificationError>(
                    VerificationError::OffsetsNotMatch(Schema::DemoDataReader),
                ),
            decreases field_count - k,
        {
            if offsets[k] > offsets[k + 1] {
                proof {
                    assert(mark(s, k as int) > mark(s, k + 1));
                    crate::record::layout::lemma_demo_data_verdict(s, compatible);
                }
                return Err(VerificationError::OffsetsNotMatch(Schema::DemoDataReader));
            }
            k += 1;
        }
        proof {
            crate::record::layout::lemma_demo_data_verdict(s, compatible);
            lemma_field_within(s, 0);
            lemma_field_within(s, 1);
            lemma_field_within(s, 2);
        }
        match BytesReader::verify(slice_subrange(slice, offsets[0], offsets[1]), compatible) {
            Ok(()) => {},
            Err(e) => {
                return Err(e);
            },
        }
        match BytesReader::verify(slice_subrange(slice, offsets[1], offsets[2]), compatible) {
            Ok(()) => {},
            Err(e) => {
                return Err(e);
            },
        }
        match BytesReader::verify(slice_subrange(slice, offsets[2], offsets[3]), compatible) {
            Ok(()) => {},
            Err(e) => {
                return Err(e);
            },
        }
        Ok(())
    }

    /// Reads `slice` strictly as a record: it must have three fields.
    pub fn from_slice(slice: &'r [u8]) -> (res: Result<Self, VerificationError>)
        ensures
            match res {
                Ok(reader) => is_demo_data(slice@, false) && reader@ == slice@,
                Err(e) => demo_data_verdict(slice@, false) == Err::<(), VerificationError>(e),
            },
    {
        match Self::verify(slice, false) {
            Ok(()) => Ok(Self::new_unchecked(slice)),
            Err(e) => Err(e),
        }
    }

    /// Reads `slice` compatibly as a record: it may have more than three fields.
    pub fn from_compatible_slice(slice: &'r [u8]) -> (res: Result<Self, VerificationError>)
        ensures
            match res {
                Ok(reader) => is_demo_data(slice@, true) && reader@ == slice@,
                Err(e) => demo_data_verdict(slice@, true) == Err::<(), VerificationError>(e),
            },
    {
        match Self::verify(slice, true) {
            Ok(()) => Ok(Self::new_unchecked(slice)),
            Err(e) => Err(e),
        }
    }
}

impl DemoData {
    /// The number of fields that every record has.
    pub const FIELD_COUNT: usize = FIELD_COUNT;

    #[verifier::type_invariant]
    spec fn well_formed(self) -> bool {
        is_demo_data(self.0@, true)
    }

    /// The number of bytes of the record.
    pub fn total_size(&self) -> (n: usize)
        ensures
            n == self@.len(),
    {
        self.as_reader().total_size()
    }

    /// The number of fields of the record.
    pub fn field_count(&self) -> (n: usize)
        ensures
            n == field_count(self@),
            n >= 3,
    {
        self.as_reader().field_count()
    }

    /// The number of fields beyond the three that every record has.
    pub fn count_extra_fields(&self) -> (n: usize)
        ensures
            n == field_count(self@) - 3,
    {
        self.field_count() - Self::FIELD_COUNT
    }

    /// Tells whether the record has more than its three fields.
    pub fn has_extra_fields(&self) -> (b: bool)
        ensures
            b == (field_count(self@) != 3),
    {
        Self::FIELD_COUNT != self.field_count()
    }

    /// The field `demo`: what the node carries besides its keys.
    pub fn demo(&self) -> (entity: Bytes)
        ensures
            entity@ == field(self@, 0),
    {
        proof {
            use_type_invariant(self);
            lemma_field_within(self.0@, 0);
        }
        let slice = self.as_slice();
        let start = offset_at(slice, 0);
        let end = offset_at(slice, 1);
        Bytes::from_buffer(buffer_slice(&self.0, start, end))
    }

    /// The field `curr`: the key of the node.
    pub fn curr(&self) -> (entity: Bytes)
        ensures
            entity@ == field(self@, 1),
    {
        proof {
            use_type_invariant(self);
            lemma_field_within(self.0@, 1);
        }
        let slice = self.as_slice();
        let start = offset_at(slice, 1);
        let end = offset_at(slice, 2);
        Bytes::from_buffer(buffer_slice(&self.0, start, end))
    }

    /// The field `next`: the key of the node that follows.
    pub fn next(&self) -> (entity: Bytes)
        ensures
            entity@ == field(self@, 2),
    {
        proof {
            use_type_invariant(self);
            lemma_field_within(self.0@, 2);
        }
        let slice = self.as_slice();
        let start = offset_at(slice, 2);
        if self.has_extra_fields() {
            let end = offset_at(slice, 3);
            Bytes::from_buffer(buffer_slice(&self.0, start, end))
        } else {
            Bytes::from_buffer(buffer_slice(&self.0, start, slice.len()))
        }
    }

    /// A reader of the record.
    pub fn as_reader<'r>(&'r self) -> (reader: DemoDataReader<'r>)
        ensures
            reader@ == self@,
    {
        proof {
            use_type_invariant(self);
        }
        DemoDataReader::new_unchecked(self.as_slice())
    }

    /// Takes `data`, which must be a record, for one.
    pub fn new_unchecked(data: Vec<u8>) -> (entity: Self)
        requires
            is_demo_data(data@, true),
        ensures
            entity@ == data@,
    {
        DemoData(buffer_from_vec(data))
    }

    /// A copy of all the bytes of the record.
    pub fn as_bytes(&self) -> (data: Vec<u8>)
        ensures
            data@ == self@,
    {
        vstd::slice::slice_to_vec(self.as_slice())
    }

    /// All the bytes of the record.
    pub fn as_slice(&self) -> (slice: &[u8])
        ensures
            slice@ == self@,
            is_demo_data(self@, true),
    {
        proof {
            use_type_invariant(self);
        }
        buffer_as_slice(&self.0)
    }

    /// Reads `slice` strictly as a record: it must have three fields.
    pub fn from_slice(slice: &[u8]) -> (res: Result<Self, VerificationError>)
        ensures
            match res {
                Ok(entity) => is_demo_data(slice@, false) && entity@ == slice@,
                Err(e) => demo_data_verdict(slice@, false) == Err::<(), VerificationError>(e),
            },
    {
        match DemoDataReader::from_slice(slice) {
            Ok(reader) => Ok(reader.to_entity()),
            Err(e) => Err(e),
        }
    }

    /// Reads `slice` compatibly as a record: it may have more than three fields.
    pub fn from_compatible_slice(slice: &[u8]) -> (res: Result<Self, VerificationError>)
        ensures
            match res {
                Ok(entity) => is_demo_data(slice@, true) && entity@ == slice@,
                Err(e) => demo_data_verdict(slice@, true) == Err::<(), VerificationError>(e),
            },
    {
        match DemoDataReader::from_compatible_slice(slice) {
            Ok(reader) => Ok(reader.to_entity()),
            Err(e) => Err(e),
        }
    }

    /// A builder with three empty fields.
    pub fn new_builder() -> (builder: DemoDataBuilder)
        ensures
            builder@ == DemoDataBuilder::empty_fields(),
    {
        DemoDataBuilder::default()
    }

    /// A builder with the three fields of the record.
    pub fn as_builder(self) -> (builder: DemoDataBuilder)
        ensures
            builder@ == (field(self@, 0), field(self@, 1), field(self@, 2)),
    {
        Self::new_builder().demo(self.demo()).curr(self.curr()).next(self.next())
    }

    /// The record whose three fields have the given contents.
    pub fn new_from_raw_slices(demo: &[u8], curr: &[u8], next: &[u8]) -> (entity: Self)
        requires
            28 + demo@.len() + curr@.len() + next@.len() <= u32::MAX,
        ensures
            entity@ == record_encoding(demo@, curr@, next@),
    {
        proof {
            lemma_bytes_round_trip(demo@);
            lemma_bytes_round_trip(curr@);
            lemma_bytes_round_trip(next@);
        }
        Self::new_builder().demo(Bytes::new_from_raw_slice(demo)).curr(
            Bytes::new_from_raw_slice(curr),
        ).next(Bytes::new_from_raw_slice(next)).build()
    }
}

impl Clone for DemoData {
    fn clone(&self) -> (copy: Self)
        ensures
            copy@ == self@,
    {
        proof {
            use_type_invariant(self);
        }
        DemoData(buffer_from_vec(self.as_bytes()))
    }
}

impl Default for DemoData {
    /// The record with three empty fields.
    fn default() -> (entity: Self)
        ensures
            entity@ == record_encoding(Seq::<u8>::empty(), Seq::<u8>::empty(), Seq::<u8>::empty()),
    {
        proof {
            lemma_bytes_round_trip(Seq::<u8>::empty());
        }
        DemoDataBuilder::default().build()
    }
}

/// Collects the three fields of a record that is to be built.
pub struct DemoDataBuilder {
    pub(crate) demo: Bytes,
    pub(crate) curr: Bytes,
    pub(crate) next: Bytes,
}

impl View for DemoDataBuilder {
    type V = (Seq<u8>, Seq<u8>, Seq<u8>);

    /// The bytes of the three fields as they stand: `demo`, `curr`, `next`.
    closed spec fn view(&self) -> (Seq<u8>, Seq<u8>, Seq<u8>) {
        (self.demo@, self.curr@, self.next@)
    }
}

impl Default for DemoDataBuilder {
    fn default() -> (builder: Self)
        ensures
            builder@ == Self::empty_fields(),
    {
        DemoDataBuilder { demo: Bytes::default(), curr: Bytes::default(), next: Bytes::default() }
    }
}

impl DemoDataBuilder {
    /// The number of fields that every record has.
    pub const FIELD_COUNT: usize = FIELD_COUNT;

    /// Three empty byte strings.
    pub open spec fn empty_fields() -> (Seq<u8>, Seq<u8>, Seq<u8>) {
        (
            bytes_encoding(Seq::<u8>::empty()),
            bytes_encoding(Seq::<u8>::empty()),
            bytes_encoding(Seq::<u8>::empty()),
        )
    }

    /// The number of bytes of the record that the fields make.
    pub open spec fn spec_expected_length(self) -> nat {
        16 + self@.0.len() + self@.1.len() + self@.2.len()
    }

    /// Sets the field `demo`.
    pub fn demo(self, v: Bytes) -> (builder: Self)
        ensures
            builder@ == (v@, self@.1, self@.2),
    {
        let mut builder = self;
        builder.demo = v;
        builder
    }

    /// Sets the field `curr`.
    pub fn curr(self, v: Bytes) -> (builder: Self)
        ensures
            builder@ == (self@.0, v@, self@.2),
    {
        let mut builder = self;
        builder.curr = v;
        builder
    }

    /// Sets the field `next`.
    pub fn next(self, v: Bytes) -> (builder: Self)
        ensures
            builder@ == (self@.0, self@.1, v@),
    {
        let mut builder = self;
        builder.next = v;
        builder
    }

    /// The number of bytes of the record that is to be built.
    pub fn expected_length(&self) -> (n: usize)
        requires
            self.spec_expected_length() <= usize::MAX,
        ensures
            n == self.spec_expected_length(),
    {
        NUMBER_SIZE * (Self::FIELD_COUNT + 1) + self.demo.as_slice().len()
            + self.curr.as_slice().len() + self.next.as_slice().len()
    }

    /// Appends the record to `writer`.
    pub fn write(&self, writer: &mut Vec<u8>)
        requires
            self.spec_expected_length() <= u32::MAX,
        ensures
            final(writer)@ == old(writer)@ + record_of(self@.0, self@.1, self@.2),
            is_demo_data(record_of(self@.0, self@.1, self@.2), false),
    {
        let mut total_size = NUMBER_SIZE * (Self::FIELD_COUNT + 1);
        let mut offsets: Vec<usize> = Vec::with_capacity(Self::FIELD_COUNT);
        offsets.push(total_size);
        total_size += self.demo.as_slice().len();
        offsets.push(total_size);
        total_size += self.curr.as_slice().len();
        offsets.push(total_size);
        total_size += self.next.as_slice().len();
        let head = pack_number(total_size as u32);
        writer.extend_from_slice(head.as_slice());
        let first = pack_number(offsets[0] as u32);
        writer.extend_from_slice(first.as_slice());
        let second = pack_number(offsets[1] as u32);
        writer.extend_from_slice(second.as_slice());
        let third = pack_number(offsets[2] as u32);
        writer.extend_from_slice(third.as_slice());
        writer.extend_from_slice(self.demo.as_slice());
        writer.extend_from_slice(self.curr.as_slice());
        writer.extend_from_slice(self.next.as_slice());
        proof {
            lemma_record_of(self@.0, self@.1, self@.2);
        }
    }

    /// Builds the record.
    pub fn build(&self) -> (entity: DemoData)
        requires
            self.spec_expected_length() <= u32::MAX,
        ensures
            entity@ == record_of(self@.0, self@.1, self@.2),
    {
        let mut inner: Vec<u8> = Vec::with_capacity(self.expected_length());
        self.write(&mut inner);
        DemoData::new_unchecked(inner)
    }
}

} // verus!
