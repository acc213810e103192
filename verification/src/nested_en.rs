use crate::codec_err::EncodeError;
use crate::num_conv::{be_bytes, encode_be, lemma_be_bytes_of_word};
use crate::type_info::TypeInfo;
use vstd::prelude::*;

verus! {

/// The destination of nested encodings: bytes can only be added at its end.
pub trait NestedEncodeOutput {
    /// The bytes that have been written so far.
    spec fn written(&self) -> Seq<u8>;

    /// Writes `bytes` at the end.
    fn write(&mut self, bytes: &[u8])
        ensures
            final(self).written() == old(self).written() + bytes@,
    ;

    /// Writes one byte at the end.
    fn push_byte(&mut self, byte: u8)
        ensures
            final(self).written() == old(self).written().push(byte),
    ;
}

impl NestedEncodeOutput for Vec<u8> {
    open spec fn written(&self) -> Seq<u8> {
        self@
    }

    fn write(&mut self, bytes: &[u8]) {
        self.extend_from_slice(bytes);
    }

    fn push_byte(&mut self, byte: u8) {
        self.push(byte);
    }
}

/// Encoding of a value that is embedded in a larger structure. The encoding
/// delimits itself: numbers have their full width, and sequences carry their
/// count.
pub trait NestedEncode: Sized {
    /// The classification of the type, which containers of it read.
    const TYPE_INFO: TypeInfo = TypeInfo::Unknown;

    /// Whether the value has a nested encoding. A machine word beyond 32 bits and
    /// a sequence of more than 2^32 - 1 elements have none.
    spec fn dep_encodable(&self) -> bool;

    /// The nested encoding of the value.
    spec fn dep_encoding(&self) -> Seq<u8>;

    /// Writes the nested encoding of the value at the end of `dest`. A value
    /// without an encoding is refused; what was written before the refusal stays.
    fn dep_encode<O: NestedEncodeOutput>(&self, dest: &mut O) -> (r: Result<(), EncodeError>)
        ensures
            match r {
                Ok(_) => self.dep_encodable() && final(dest).written() == old(dest).written()
                    + self.dep_encoding(),
                Err(e) => !self.dep_encodable() && e == EncodeError::UNSUPPORTED_OPERATION && old(
                    dest,
                ).written().is_prefix_of(final(dest).written()),
            },
    ;

    /// Shows a slice of values as the bytes of their encodings, one after the
    /// other, without encoding them one by one. Only a type that is classified as
    /// one raw byte can do so.
    fn slice_as_bytes(items: &[Self]) -> (r: Option<&[u8]>)
        ensures
            match r {
                Some(bytes) => Self::TYPE_INFO == TypeInfo::U8 && bytes@.len() == items@.len()
                    && forall|i: int|
                    0 <= i < items@.len() ==> (#[trigger] items@[i]).dep_encodable()
                        && items@[i].dep_encoding() == seq![bytes@[i]],
                None => true,
            },
    {
        None
    }
}

/// Whether every value of `items` has a nested encoding.
pub open spec fn seq_encodable<T: NestedEncode>(items: Seq<T>) -> bool {
    forall|i: int| 0 <= i < items.len() ==> (#[trigger] items[i]).dep_encodable()
}

/// The nested encodings of the values of `items`, one after the other.
pub open spec fn seq_encoding<T: NestedEncode>(items: Seq<T>) -> Seq<u8>
    decreases items.len(),
{
    if items.len() == 0 {
        Seq::empty()
    } else {
        items[0].dep_encoding() + seq_encoding(items.drop_first())
    }
}

/// One more value at the end adds its encoding at the end.
pub proof fn lemma_seq_encoding_push<T: NestedEncode>(items: Seq<T>, last: T)
    ensures
        seq_encoding(items.push(last)) == seq_encoding(items) + last.dep_encoding(),
    decreases items.len(),
{
    if items.len() == 0 {
        assert(items.push(last).drop_first() =~= Seq::<T>::empty());
        assert(seq_encoding(Seq::<T>::empty()) =~= Seq::<u8>::empty());
        assert(seq_encoding(items.push(last)) =~= last.dep_encoding() + Seq::<u8>::empty());
        assert(seq_encoding(items) + last.dep_encoding() =~= last.dep_encoding());
    } else {
        assert(items.push(last).drop_first() =~= items.drop_first().push(last));
        lemma_seq_encoding_push(items.drop_first(), last);
        assert(items[0].dep_encoding() + (seq_encoding(items.drop_first()) + last.dep_encoding())
            =~= (items[0].dep_encoding() + seq_encoding(items.drop_first()))
            + last.dep_encoding());
    }
}

/// Where every value is encoded as one byte, the encodings of a row of values
/// are these bytes.
pub proof fn lemma_seq_encoding_of_bytes<T: NestedEncode>(items: Seq<T>, bytes: Seq<u8>)
    requires
        bytes.len() == items.len(),
        forall|i: int|
            0 <= i < items.len() ==> (#[trigger] items[i]).dep_encoding() == seq![bytes[i]],
    ensures
        seq_encoding(items) == bytes,
    decreases items.len(),
{
    if items.len() == 0 {
        assert(bytes =~= Seq::<u8>::empty());
    } else {
        assert forall|i: int| 0 <= i < items.drop_first().len() implies (
        #[trigger] items.drop_first()[i]).dep_encoding() == seq![bytes.drop_first()[i]] by {
            assert(items.drop_first()[i] == items[i + 1]);
        }
        lemma_seq_encoding_of_bytes(items.drop_first(), bytes.drop_first());
        assert(seq![bytes[0]] + bytes.drop_first() =~= bytes);
    }
}

/// Writes the nested encodings of the values of `items`, one after the other.
pub fn dep_encode_slice<T: NestedEncode, O: NestedEncodeOutput>(items: &[T], dest: &mut O) -> (r:
    Result<(), EncodeError>)
    ensures
        match r {
            Ok(_) => seq_encodable(items@) && final(dest).written() == old(dest).written()
                + seq_encoding(items@),
            Err(e) => !seq_encodable(items@) && e == EncodeError::UNSUPPORTED_OPERATION && old(
                dest,
            ).written().is_prefix_of(final(dest).written()),
        },
{
    if let TypeInfo::U8 = T::TYPE_INFO {
        if let Some(bytes) = T::slice_as_bytes(items) {
            proof {
                lemma_seq_encoding_of_bytes(items@, bytes@);
            }
            dest.write(bytes);
            return Ok(());
        }
    }
    let mut i: usize = 0;
    assert(items@.take(0) =~= Seq::<T>::empty());
    assert(dest.written() + Seq::<u8>::empty() =~= dest.written());
    while i < items.len()
        invariant
            0 <= i <= items.len(),
            seq_encodable(items@.take(i as int)),
            dest.written() == old(dest).written() + seq_encoding(items@.take(i as int)),
        decreases items.len() - i,
    {
        let ghost before = dest.written();
        match items[i].dep_encode(dest) {
            Ok(_) => {
                proof {
                    lemma_seq_encoding_push(items@.take(i as int), items@[i as int]);
                    assert(items@.take(i as int).push(items@[i as int]) =~= items@.take(i + 1));
                    assert(old(dest).written() + (seq_encoding(items@.take(i as int))
                        + items@[i as int].dep_encoding()) =~= before
                        + items@[i as int].dep_encoding());
                    assert forall|j: int| 0 <= j < i + 1 implies (#[trigger] items@.take(
                        i + 1,
                    )[j]).dep_encodable() by {
                        if j < i {
                            assert(items@.take(i as int)[j].dep_encodable());
                        }
                    }
                }
            },
            Err(e) => {
                return Err(e);
            },
        }
        i += 1;
    }
    assert(items@.take(items@.len() as int) =~= items@);
    Ok(())
}

impl NestedEncode for u8 {
    const TYPE_INFO: TypeInfo = TypeInfo::U8;

    open spec fn dep_encodable(&self) -> bool {
        true
    }

    open spec fn dep_encoding(&self) -> Seq<u8> {
        seq![*self]
    }

    fn dep_encode<O: NestedEncodeOutput>(&self, dest: &mut O) -> (r: Result<(), EncodeError>) {
        dest.push_byte(*self);
        assert(old(dest).written().push(*self) =~= old(dest).written() + seq![*self]);
        Ok(())
    }

    fn slice_as_bytes(items: &[Self]) -> (r: Option<&[u8]>)
        ensures
            r is Some,
    {
        Some(items)
    }
}

impl NestedEncode for u16 {
    const TYPE_INFO: TypeInfo = TypeInfo::U16;

    open spec fn dep_encodable(&self) -> bool {
        true
    }

    open spec fn dep_encoding(&self) -> Seq<u8> {
        be_bytes(*self as int, 2)
    }

    fn dep_encode<O: NestedEncodeOutput>(&self, dest: &mut O) -> (r: Result<(), EncodeError>) {
        let bytes = encode_be(*self as u64, 2);
        dest.write(bytes.as_slice());
        Ok(())
    }
}

impl NestedEncode for u32 {
    const TYPE_INFO: TypeInfo = TypeInfo::U32;

    open spec fn dep_encodable(&self) -> bool {
        true
    }

    open spec fn dep_encoding(&self) -> Seq<u8> {
        be_bytes(*self as int, 4)
    }

    fn dep_encode<O: NestedEncodeOutput>(&self, dest: &mut O) -> (r: Result<(), EncodeError>) {
        let bytes = encode_be(*self as u64, 4);
        dest.write(bytes.as_slice());
        Ok(())
    }
}

impl NestedEncode for usize {
    const TYPE_INFO: TypeInfo = TypeInfo::USIZE;

    /// A machine word travels as 32 bits: a larger one has no encoding.
    open spec fn dep_encodable(&self) -> bool {
        *self <= u32::MAX
    }

    open spec fn dep_encoding(&self) -> Seq<u8> {
        be_bytes(*self as int, 4)
    }

    fn dep_encode<O: NestedEncodeOutput>(&self, dest: &mut O) -> (r: Result<(), EncodeError>) {
        if *self > u32::MAX as usize {
            assert(old(dest).written().is_prefix_of(dest.written()));
            return Err(EncodeError::UNSUPPORTED_OPERATION);
        }
        let bytes = encode_be(*self as u64, 4);
        dest.write(bytes.as_slice());
        Ok(())
    }
}

impl NestedEncode for u64 {
    const TYPE_INFO: TypeInfo = TypeInfo::U64;

    open spec fn dep_encodable(&self) -> bool {
        true
    }

    open spec fn dep_encoding(&self) -> Seq<u8> {
        be_bytes(*self as int, 8)
    }

    fn dep_encode<O: NestedEncodeOutput>(&self, dest: &mut O) -> (r: Result<(), EncodeError>) {
        let bytes = encode_be(*self as u64, 8);
        dest.write(bytes.as_slice());
        Ok(())
    }
}

impl NestedEncode for i8 {
    const TYPE_INFO: TypeInfo = TypeInfo::I8;

    open spec fn dep_encodable(&self) -> bool {
        true
    }

    open spec fn dep_encoding(&self) -> Seq<u8> {
        be_bytes(*self as int, 1)
    }

    fn dep_encode<O: NestedEncodeOutput>(&self, dest: &mut O) -> (r: Result<(), EncodeError>) {
        let word = *self as i64;
        proof {
            lemma_be_bytes_of_word(word, 1);
        }
        let bytes = encode_be(word as u64, 1);
        dest.write(bytes.as_slice());
        Ok(())
    }
}

impl NestedEncode for i16 {
    const TYPE_INFO: TypeInfo = TypeInfo::I16;

    open spec fn dep_encodable(&self) -> bool {
        true
    }

    open spec fn dep_encoding(&self) -> Seq<u8> {
        be_bytes(*self as int, 2)
    }

    fn dep_encode<O: NestedEncodeOutput>(&self, dest: &mut O) -> (r: Result<(), EncodeError>) {
        let word = *self as i64;
        proof {
            lemma_be_bytes_of_word(word, 2);
        }
        let bytes = encode_be(word as u64, 2);
        dest.write(bytes.as_slice());
        Ok(())
    }
}

impl NestedEncode for i32 {
    const TYPE_INFO: TypeInfo = TypeInfo::I32;

    open spec fn dep_encodable(&self) -> bool {
        true
    }

    open spec fn dep_encoding(&self) -> Seq<u8> {
        be_bytes(*self as int, 4)
    }

    fn dep_encode<O: NestedEncodeOutput>(&self, dest: &mut O) -> (r: Result<(), EncodeError>) {
        let word = *self as i64;
        proof {
            lemma_be_bytes_of_word(word, 4);
        }
        let bytes = encode_be(word as u64, 4);
        dest.write(bytes.as_slice());
        Ok(())
    }
}

impl NestedEncode for isize {
    const TYPE_INFO: TypeInfo = TypeInfo::ISIZE;

    /// A machine word travels as 32 bits: one outside their range has no encoding.
    open spec fn dep_encodable(&self) -> bool {
        i32::MIN <= *self <= i32::MAX
    }

    open spec fn dep_encoding(&self) -> Seq<u8> {
        be_bytes(*self as int, 4)
    }

    fn dep_encode<O: NestedEncodeOutput>(&self, dest: &mut O) -> (r: Result<(), EncodeError>) {
        if *self < i32::MIN as isize || *self > i32::MAX as isize {
            assert(old(dest).written().is_prefix_of(dest.written()));
            return Err(EncodeError::UNSUPPORTED_OPERATION);
        }
        let word = *self as i64;
        proof {
            lemma_be_bytes_of_word(word, 4);
        }
        let bytes = encode_be(word as u64, 4);
        dest.write(bytes.as_slice());
        Ok(())
    }
}

impl NestedEncode for i64 {
    const TYPE_INFO: TypeInfo = TypeInfo::I64;

    open spec fn dep_encodable(&self) -> bool {
        true
    }

    open spec fn dep_encoding(&self) -> Seq<u8> {
        be_bytes(*self as int, 8)
    }

    fn dep_encode<O: NestedEncodeOutput>(&self, dest: &mut O) -> (r: Result<(), EncodeError>) {
        let word = *self as i64;
        proof {
            lemma_be_bytes_of_word(word, 8);
        }
        let bytes = encode_be(word as u64, 8);
        dest.write(bytes.as_slice());
        Ok(())
    }
}

impl NestedEncode for () {
    const TYPE_INFO: TypeInfo = TypeInfo::Unit;

    open spec fn dep_encodable(&self) -> bool {
        true
    }

    /// The unit value takes no bytes.
    open spec fn dep_encoding(&self) -> Seq<u8> {
        Seq::empty()
    }

    fn dep_encode<O: NestedEncodeOutput>(&self, dest: &mut O) -> (r: Result<(), EncodeError>) {
        assert(dest.written() + Seq::<u8>::empty() =~= dest.written());
        Ok(())
    }
}

impl NestedEncode for bool {
    const TYPE_INFO: TypeInfo = TypeInfo::Bool;

    open spec fn dep_encodable(&self) -> bool {
        true
    }

    /// One byte: 1 for true and 0 for false.
    open spec fn dep_encoding(&self) -> Seq<u8> {
        if *self {
            seq![1u8]
        } else {
            seq![0u8]
        }
    }

    fn dep_encode<O: NestedEncodeOutput>(&self, dest: &mut O) -> (r: Result<(), EncodeError>) {
        let byte: u8 = if *self { 1 } else { 0 };
        dest.push_byte(byte);
        assert(old(dest).written().push(byte) =~= old(dest).written() + seq![byte]);
        Ok(())
    }
}

impl<T: NestedEncode> NestedEncode for Option<T> {
    open spec fn dep_encodable(&self) -> bool {
        match self {
            Some(value) => value.dep_encodable(),
            None => true,
        }
    }

    /// One byte of presence, and after it the value if there is one.
    open spec fn dep_encoding(&self) -> Seq<u8> {
        match self {
            Some(value) => seq![1u8] + value.dep_encoding(),
            None => seq![0u8],
        }
    }

    fn dep_encode<O: NestedEncodeOutput>(&self, dest: &mut O) -> (r: Result<(), EncodeError>) {
        match self {
            Some(value) => {
                dest.push_byte(1);
                let r = value.dep_encode(dest);
                proof {
                    let start = old(dest).written();
                    assert(start.push(1u8) =~= start + seq![1u8]);
                    assert((start + seq![1u8]) + value.dep_encoding() =~= start + (seq![1u8]
                        + value.dep_encoding()));
                }
                r
            },
            None => {
                dest.push_byte(0);
                assert(old(dest).written().push(0u8) =~= old(dest).written() + seq![0u8]);
                Ok(())
            },
        }
    }
}

impl<T: NestedEncode> NestedEncode for Box<T> {
    open spec fn dep_encodable(&self) -> bool {
        (**self).dep_encodable()
    }

    /// A box is transparent: it is encoded as the value inside it.
    open spec fn dep_encoding(&self) -> Seq<u8> {
        (**self).dep_encoding()
    }

    fn dep_encode<O: NestedEncodeOutput>(&self, dest: &mut O) -> (r: Result<(), EncodeError>) {
        (**self).dep_encode(dest)
    }
}

impl<T: NestedEncode> NestedEncode for Vec<T> {
    /// The count must fit the four bytes that carry it.
    open spec fn dep_encodable(&self) -> bool {
        self@.len() <= u32::MAX && seq_encodable(self@)
    }

    /// A count of four bytes, and then the elements.
    open spec fn dep_encoding(&self) -> Seq<u8> {
        be_bytes(self@.len() as int, 4) + seq_encoding(self@)
    }

    fn dep_encode<O: NestedEncodeOutput>(&self, dest: &mut O) -> (r: Result<(), EncodeError>) {
        if self.len() > u32::MAX as usize {
            assert(old(dest).written().is_prefix_of(dest.written()));
            return Err(EncodeError::UNSUPPORTED_OPERATION);
        }
        let count = encode_be(self.len() as u64, 4);
        dest.write(count.as_slice());
        let r = dep_encode_slice(self.as_slice(), dest);
        proof {
            let start = old(dest).written();
            assert((start + count@) + seq_encoding(self@) =~= start + (count@ + seq_encoding(
                self@,
            )));
        }
        r
    }
}

} // verus!
