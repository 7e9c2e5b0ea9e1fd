//! Byte strings: the keys and the payload of a record.

use vstd::prelude::*;
use vstd::slice::slice_subrange;
use crate::record::buffer::{buffer_as_slice, buffer_from_vec, buffer_slice, Buffer};
use crate::record::error::{Schema, VerificationError};
use crate::record::layout::{bytes_encoding, bytes_verdict, is_bytes, lemma_bytes_round_trip, raw};
use crate::record::number::{
    le_bytes, lemma_le_round_trip, pack_number, unpack_number, NUMBER_SIZE,
};
use crate::tool::order::{slice_eq, slice_lt};
use crate::tool::types::Field;

verus! {

/// A byte string that owns its bytes.
pub struct Bytes(Buffer);

/// A byte string in borrowed bytes.
#[derive(Clone, Copy)]
pub struct BytesReader<'r>(&'r [u8]);

impl View for Bytes {
    type V = Seq<u8>;

    /// All the bytes of the byte string, its number included.
    closed spec fn view(&self) -> Seq<u8> {
        self.0@
    }
}

impl<'r> View for BytesReader<'r> {
    type V = Seq<u8>;

    /// All the bytes of the byte string, its number included.
    closed spec fn view(&self) -> Seq<u8> {
        self.0@
    }
}

impl<'r> BytesReader<'r> {
    /// The number of bytes of one item of the content.
    pub const ITEM_SIZE: usize = 1;

    #[verifier::type_invariant]
    spec fn well_formed(self) -> bool {
        is_bytes(self.0@)
    }

    /// The number of bytes of the byte string, its number included.
    pub fn total_size(&self) -> (n: usize)
        ensures
            n == self@.len(),
    {
        proof {
            use_type_invariant(self);
            assert(self.0.len() == self.0@.len());
        }
        NUMBER_SIZE + Self::ITEM_SIZE * self.item_count()
    }

    /// The number of bytes of the content, as the byte string says it.
    pub fn item_count(&self) -> (n: usize)
        ensures
            n == raw(self@).len(),
            n == self@.len() - 4,
    {
        proof {
            use_type_invariant(self);
        }
        unpack_number(self.as_slice()) as usize
    }

    /// The number of bytes of the content.
    pub fn len(&self) -> (n: usize)
        ensures
            n == raw(self@).len(),
    {
        self.item_count()
    }

    /// Tells whether the content is empty.
    pub fn is_empty(&self) -> (b: bool)
        ensures
            b == (raw(self@).len() == 0),
    {
        self.len() == 0
    }

    /// The byte of the content at `idx`, if there is one.
    pub fn get(&self, idx: usize) -> (byte: Option<u8>)
        ensures
            byte == if idx < raw(self@).len() {
                Some(raw(self@)[idx as int])
            } else {
                None
            },
    {
        if idx >= self.len() {
            None
        } else {
            Some(self.get_unchecked(idx))
        }
    }

    /// The byte of the content at `idx`, which must be there.
    pub fn get_unchecked(&self, idx: usize) -> (byte: u8)
        requires
            idx < raw(self@).len(),
        ensures
            byte == raw(self@)[idx as int],
    {
        proof {
            use_type_invariant(self);
            assert(self.0.len() == self.0@.len());
        }
        let start = NUMBER_SIZE + Self::ITEM_SIZE * idx;
        self.as_slice()[start]
    }

    /// The content: the bytes after the number.
    pub fn raw_data(&self) -> (data: &'r [u8])
        ensures
            data@ == raw(self@),
    {
        proof {
            use_type_invariant(self);
        }
        let slice = self.as_slice();
        slice_subrange(slice, NUMBER_SIZE, slice.len())
    }

    /// A byte string of the same bytes that owns them.
    pub fn to_entity(&self) -> (entity: Bytes)
        ensures
            entity@ == self@,
    {
        proof {
            use_type_invariant(self);
        }
        Bytes::new_unchecked(vstd::slice::slice_to_vec(self.as_slice()))
    }

    /// Takes `slice`, which must be a byte string, for one.
    pub fn new_unchecked(slice: &'r [u8]) -> (reader: Self)
        requires
            is_bytes(slice@),
        ensures
            reader@ == slice@,
    {
        BytesReader(slice)
    }

    /// All the bytes of the byte string.
    pub fn as_slice(&self) -> (slice: &'r [u8])
        ensures
            slice@ == self@,
            is_bytes(self@),
    {
        proof {
            use_type_invariant(self);
        }
        self.0
    }

    /// Tells whether `slice` is a byte string, and if not, why.
    pub fn verify(slice: &[u8], _compatible: bool) -> (res: Result<(), VerificationError>)
        ensures
            res == bytes_verdict(slice@),
            res is Ok <==> is_bytes(slice@),
    {
        let slice_len = slice.len();
        if slice_len < NUMBER_SIZE {
            return Err(
                VerificationError::HeaderIsBroken(
                    Schema::BytesReader,
                    NUMBER_SIZE as u64,
                    slice_len as u64,
                ),
            );
        }
        let item_count = unpack_number(slice);
        let total_size: u64 = NUMBER_SIZE as u64 + Self::ITEM_SIZE as u64 * item_count as u64;
        if slice_len as u64 != total_size {
            return Err(
                VerificationError::TotalSizeNotMatch(
                    Schema::BytesReader,
                    total_size,
                    slice_len as u64,
                ),
            );
        }
        Ok(())
    }

    /// Reads `slice` strictly as a byte string.
    pub fn from_slice(slice: &'r [u8]) -> (res: Result<Self, VerificationError>)
        ensures
            match res {
                Ok(reader) => bytes_verdict(slice@) is Ok && reader@ == slice@,
                Err(e) => bytes_verdict(slice@) == Err::<(), VerificationError>(e),
            },
    {
        match Self::verify(slice, false) {
            Ok(()) => Ok(Self::new_unchecked(slice)),
            Err(e) => Err(e),
        }
    }

    /// Reads `slice` compatibly as a byte string, which is to read it strictly.
    pub fn from_compatible_slice(slice: &'r [u8]) -> (res: Result<Self, VerificationError>)
        ensures
            match res {
                Ok(reader) => bytes_verdict(slice@) is Ok && reader@ == slice@,
                Err(e) => bytes_verdict(slice@) == Err::<(), VerificationError>(e),
            },
    {
        match Self::verify(slice, true) {
            Ok(()) => Ok(Self::new_unchecked(slice)),
            Err(e) => Err(e),
        }
    }
}

impl Bytes {
    /// The number of bytes of one item of the content.
    pub const ITEM_SIZE: usize = 1;

    #[verifier::type_invariant]
    spec fn well_formed(self) -> bool {
        is_bytes(self.0@)
    }

    /// The number of bytes of the byte string, its number included.
    pub fn total_size(&self) -> (n: usize)
        ensures
            n == self@.len(),
    {
        self.as_reader().total_size()
    }

    /// The number of bytes of the content, as the byte string says it.
    pub fn item_count(&self) -> (n: usize)
        ensures
            n == raw(self@).len(),
            n == self@.len() - 4,
    {
        self.as_reader().item_count()
    }

    /// The number of bytes of the content.
    pub fn len(&self) -> (n: usize)
        ensures
            n == raw(self@).len(),
    {
        self.item_count()
    }

    /// Tells whether the content is empty.
    pub fn is_empty(&self) -> (b: bool)
        ensures
            b == (raw(self@).len() == 0),
    {
        self.len() == 0
    }

    /// The byte of the content at `idx`, if there is one.
    pub fn get(&self, idx: usize) -> (byte: Option<u8>)
        ensures
            byte == if idx < raw(self@).len() {
                Some(raw(self@)[idx as int])
            } else {
                None
            },
    {
        if idx >= self.len() {
            None
        } else {
            Some(self.get_unchecked(idx))
        }
    }

    /// The byte of the content at `idx`, which must be there.
    pub fn get_unchecked(&self, idx: usize) -> (byte: u8)
        requires
            idx < raw(self@).len(),
        ensures
            byte == raw(self@)[idx as int],
    {
        self.as_reader().get_unchecked(idx)
    }

    /// The content: the bytes after the number.
    pub fn raw_data(&self) -> (data: Vec<u8>)
        ensures
            data@ == raw(self@),
    {
        proof {
            use_type_invariant(self);
        }
        let content = buffer_slice(&self.0, NUMBER_SIZE, buffer_as_slice(&self.0).len());
        vstd::slice::slice_to_vec(buffer_as_slice(&content))
    }

    /// A reader of the byte string.
    pub fn as_reader<'r>(&'r self) -> (reader: BytesReader<'r>)
        ensures
            reader@ == self@,
    {
        proof {
            use_type_invariant(self);
        }
        BytesReader::new_unchecked(self.as_slice())
    }

    /// Takes `data`, which must be a byte string, for one.
    pub fn new_unchecked(data: Vec<u8>) -> (entity: Self)
        requires
            is_bytes(data@),
        ensures
            entity@ == data@,
    {
        Bytes(buffer_from_vec(data))
    }

    /// Takes the buffer, which must hold a byte string, for one.
    pub(crate) fn from_buffer(data: Buffer) -> (entity: Self)
        requires
            is_bytes(data@),
        ensures
            entity@ == data@,
    {
        Bytes(data)
    }

    /// A copy of all the bytes of the byte string.
    pub fn as_bytes(&self) -> (data: Vec<u8>)
        ensures
            data@ == self@,
    {
        vstd::slice::slice_to_vec(self.as_slice())
    }

    /// All the bytes of the byte string.
    pub fn as_slice(&self) -> (slice: &[u8])
        ensures
            slice@ == self@,
            is_bytes(self@),
    {
        proof {
            use_type_invariant(self);
        }
        buffer_as_slice(&self.0)
    }

    /// Reads `slice` strictly as a byte string.
    pub fn from_slice(slice: &[u8]) -> (res: Result<Self, VerificationError>)
        ensures
            match res {
                Ok(entity) => bytes_verdict(slice@) is Ok && entity@ == slice@,
                Err(e) => bytes_verdict(slice@) == Err::<(), VerificationError>(e),
            },
    {
        match BytesReader::from_slice(slice) {
            Ok(reader) => Ok(reader.to_entity()),
            Err(e) => Err(e),
        }
    }

    /// Reads `slice` compatibly as a byte string, which is to read it strictly.
    pub fn from_compatible_slice(slice: &[u8]) -> (res: Result<Self, VerificationError>)
        ensures
            match res {
                Ok(entity) => bytes_verdict(slice@) is Ok && entity@ == slice@,
                Err(e) => bytes_verdict(slice@) == Err::<(), VerificationError>(e),
            },
    {
        match BytesReader::from_compatible_slice(slice) {
            Ok(reader) => Ok(reader.to_entity()),
            Err(e) => Err(e),
        }
    }

    /// A builder with no content yet.
    pub fn new_builder() -> (builder: BytesBuilder)
        ensures
            builder@ == Seq::<u8>::empty(),
    {
        BytesBuilder::default()
    }

    /// A builder with the content of the byte string.
    pub fn as_builder(self) -> (builder: BytesBuilder)
        ensures
            builder@ == raw(self@),
    {
        let content = vstd::slice::slice_to_vec(self.as_reader().raw_data());
        Self::new_builder().extend(content)
    }

    /// The bytes of the content, to be taken one after the other.
    pub fn into_iter(self) -> (iter: BytesIterator)
        ensures
            iter.bytes() == raw(self@),
            iter.position() == 0,
    {
        let len = self.len();
        BytesIterator(self, 0, len)
    }

    /// The byte string with the content `slice`.
    pub fn new_from_raw_slice(slice: &[u8]) -> (entity: Self)
        requires
            slice@.len() <= u32::MAX,
            slice@.len() + 4 <= usize::MAX,
        ensures
            entity@ == bytes_encoding(slice@),
            raw(entity@) == slice@,
    {
        let len = slice.len();
        let mut vec: Vec<u8> = Vec::with_capacity(NUMBER_SIZE + len);
        let number = pack_number(len as u32);
        vec.extend_from_slice(number.as_slice());
        vec.extend_from_slice(slice);
        proof {
            lemma_bytes_round_trip(slice@);
            assert(vec@ =~= bytes_encoding(slice@));
        }
        Self::new_unchecked(vec)
    }
}

impl Clone for Bytes {
    fn clone(&self) -> (copy: Self)
        ensures
            copy@ == self@,
    {
        proof {
            use_type_invariant(self);
        }
        Bytes(buffer_from_vec(self.as_bytes()))
    }
}

impl Default for Bytes {
    /// The empty byte string.
    fn default() -> (entity: Self)
        ensures
            entity@ == bytes_encoding(Seq::<u8>::empty()),
    {
        let mut v: Vec<u8> = Vec::new();
        v.push(0);
        v.push(0);
        v.push(0);
        v.push(0);
        proof {
            lemma_bytes_round_trip(Seq::<u8>::empty());
            reveal(le_bytes);
            assert(v@ =~= bytes_encoding(Seq::<u8>::empty()));
        }
        Bytes::new_unchecked(v)
    }
}

impl Field for Bytes {
    /// The content of the byte string.
    open spec fn key(&self) -> Seq<u8> {
        raw(self@)
    }

    fn key_eq(&self, other: &Self) -> (r: bool) {
        slice_eq(self.as_reader().raw_data(), other.as_reader().raw_data())
    }

    fn key_lt(&self, other: &Self) -> (r: bool) {
        slice_lt(self.as_reader().raw_data(), other.as_reader().raw_data())
    }
}

impl<'r> Field for BytesReader<'r> {
    /// The content of the byte string.
    open spec fn key(&self) -> Seq<u8> {
        raw(self@)
    }

    fn key_eq(&self, other: &Self) -> (r: bool) {
        slice_eq(self.raw_data(), other.raw_data())
    }

    fn key_lt(&self, other: &Self) -> (r: bool) {
        slice_lt(self.raw_data(), other.raw_data())
    }
}

/// Collects the content of a byte string that is to be built.
#[derive(Debug)]
pub struct BytesBuilder(pub(crate) Vec<u8>);

impl View for BytesBuilder {
    type V = Seq<u8>;

    /// The content collected so far.
    closed spec fn view(&self) -> Seq<u8> {
        self.0@
    }
}

impl Default for BytesBuilder {
    fn default() -> (builder: Self)
        ensures
            builder@ == Seq::<u8>::empty(),
    {
        BytesBuilder(Vec::new())
    }
}

impl BytesBuilder {
    /// The number of bytes of one item of the content.
    pub const ITEM_SIZE: usize = 1;

    /// Replaces the content.
    pub fn set(self, v: Vec<u8>) -> (builder: Self)
        ensures
            builder@ == v@,
    {
        let mut builder = self;
        builder.0 = v;
        builder
    }

    /// Adds a byte to the content.
    pub fn push(self, v: u8) -> (builder: Self)
        ensures
            builder@ == self@.push(v),
    {
        let mut builder = self;
        builder.0.push(v);
        builder
    }

    /// Adds bytes to the content.
    pub fn extend(self, items: Vec<u8>) -> (builder: Self)
        ensures
            builder@ == self@ + items@,
    {
        let mut builder = self;
        let mut i: usize = 0;
        while i < items.len()
            invariant
                i <= items.len(),
                builder.0@ == self@ + items@.subrange(0, i as int),
            decreases items.len() - i,
        {
            builder.0.push(items[i]);
            i += 1;
        }
        builder
    }

    /// Puts `v` in the place of the byte at `index`, if there is one, and gives
    /// the byte that was there.
    pub fn replace(&mut self, index: usize, v: u8) -> (previous: Option<u8>)
        ensures
            index < old(self)@.len() ==> previous == Some(old(self)@[index as int]) && final(self)@
                == old(self)@.update(index as int, v),
            index >= old(self)@.len() ==> previous is None && final(self)@ == old(self)@,
    {
        if index < self.0.len() {
            let previous = self.0[index];
            self.0[index] = v;
            Some(previous)
        } else {
            None
        }
    }

    /// The number of bytes of the byte string that is to be built.
    pub fn expected_length(&self) -> (n: usize)
        requires
            self@.len() + 4 <= usize::MAX,
        ensures
            n == bytes_encoding(self@).len(),
            n == 4 + self@.len(),
    {
        proof {
            lemma_le_round_trip(self@.len() as u32);
        }
        NUMBER_SIZE + Self::ITEM_SIZE * self.0.len()
    }

    /// Appends the byte string to `writer`.
    pub fn write(&self, writer: &mut Vec<u8>)
        requires
            self@.len() <= u32::MAX,
        ensures
            final(writer)@ == old(writer)@ + bytes_encoding(self@),
    {
        let number = pack_number(self.0.len() as u32);
        writer.extend_from_slice(number.as_slice());
        writer.extend_from_slice(self.0.as_slice());
    }

    /// Builds the byte string.
    pub fn build(&self) -> (entity: Bytes)
        requires
            self@.len() <= u32::MAX,
        ensures
            entity@ == bytes_encoding(self@),
            raw(entity@) == self@,
    {
        let mut inner: Vec<u8> = Vec::new();
        self.write(&mut inner);
        proof {
            lemma_bytes_round_trip(self@);
        }
        Bytes::new_unchecked(inner)
    }
}

/// Hands out the bytes of the content of a byte string one after the other.
pub struct BytesIterator(Bytes, usize, usize);

impl BytesIterator {
    #[verifier::type_invariant]
    spec fn well_formed(self) -> bool {
        self.1 <= self.2 && self.2 == raw(self.0@).len()
    }

    /// The bytes that are handed out, from the first.
    pub closed spec fn bytes(self) -> Seq<u8> {
        raw(self.0@)
    }

    /// The number of bytes handed out so far.
    pub closed spec fn position(self) -> int {
        self.1 as int
    }

    /// Hands out the next byte, if one is left.
    pub fn next(&mut self) -> (byte: Option<u8>)
        ensures
            final(self).bytes() == old(self).bytes(),
            0 <= old(self).position() <= old(self).bytes().len(),
            old(self).position() < old(self).bytes().len() ==> byte == Some(
                old(self).bytes()[old(self).position()],
            ) && final(self).position() == old(self).position() + 1,
            old(self).position() == old(self).bytes().len() ==> byte is None
                && final(self).position() == old(self).position(),
    {
        proof {
            use_type_invariant(&*self);
        }
        if self.1 >= self.2 {
            None
        } else {
            let ret = self.0.get_unchecked(self.1);
            self.1 += 1;
            Some(ret)
        }
    }

    /// The number of bytes that are left to hand out.
    pub fn len(&self) -> (n: usize)
        ensures
            n == self.bytes().len() - self.position(),
    {
        proof {
            use_type_invariant(self);
        }
        self.2 - self.1
    }
}

} // verus!
