use crate::codec_err::EncodeError;
use crate::nested_en::{
    dep_encode_slice, lemma_seq_encoding_of_bytes, seq_encodable, seq_encoding, NestedEncode,
};
use crate::num_conv::{minimal_signed, minimal_unsigned};
use crate::top_en_output::TopEncodeOutput;
use crate::type_info::TypeInfo;
use vstd::prelude::*;

verus! {

/// Encoding of a value that is a whole payload by itself. The payload has no
/// count and no padding: its own length delimits it.
pub trait TopEncode: Sized {
    /// The classification of the type, which containers of it read.
    const TYPE_INFO: TypeInfo = TypeInfo::Unknown;

    /// Whether the value has a top-level encoding.
    spec fn top_encodable(&self) -> bool;

    /// The top-level encoding of the value.
    spec fn top_encoding(&self) -> Seq<u8>;

    /// Hands the top-level encoding of the value over to `output`, as bytes or as
    /// a number and never as a handle. A value without an encoding is refused, and
    /// `output` gets nothing.
    fn top_encode<O: TopEncodeOutput>(&self, output: &mut O) -> (r: Result<(), EncodeError>)
        ensures
            match r {
                Ok(_) => self.top_encodable() && final(output).payload() == old(output).payload()
                    + self.top_encoding(),
                Err(e) => !self.top_encodable() && e == EncodeError::UNSUPPORTED_OPERATION
                    && final(output).payload() == old(output).payload(),
            },
            final(output).handles() == old(output).handles(),
    ;
}

/// Hands the nested encoding of `obj` over as a whole payload.
pub fn top_encode_from_nested<T: NestedEncode, O: TopEncodeOutput>(obj: &T, output: &mut O) -> (r:
    Result<(), EncodeError>)
    ensures
        match r {
            Ok(_) => obj.dep_encodable() && final(output).payload() == old(output).payload()
                + obj.dep_encoding(),
            Err(e) => !obj.dep_encodable() && e == EncodeError::UNSUPPORTED_OPERATION
                && final(output).payload() == old(output).payload(),
        },
        final(output).handles() == old(output).handles(),
{
    let mut bytes: Vec<u8> = Vec::new();
    match obj.dep_encode(&mut bytes) {
        Ok(_) => {
            assert(bytes@ =~= obj.dep_encoding());
            output.set_slice_u8(bytes.as_slice());
            Ok(())
        },
        Err(e) => Err(e),
    }
}

/// The top-level encoding of `obj` in a buffer of its own.
pub fn top_encode_to_vec<T: TopEncode>(obj: &T) -> (r: Result<Vec<u8>, EncodeError>)
    ensures
        match r {
            Ok(bytes) => obj.top_encodable() && bytes@ == obj.top_encoding(),
            Err(e) => !obj.top_encodable() && e == EncodeError::UNSUPPORTED_OPERATION,
        },
{
    let mut bytes: Vec<u8> = Vec::new();
    match obj.top_encode(&mut bytes) {
        Ok(_) => {
            assert(bytes@ =~= obj.top_encoding());
            Ok(bytes)
        },
        Err(e) => Err(e),
    }
}

/// The nested encoding of `obj` in a buffer of its own.
pub fn dep_encode_to_vec<T: NestedEncode>(obj: &T) -> (r: Result<Vec<u8>, EncodeError>)
    ensures
        match r {
            Ok(bytes) => obj.dep_encodable() && bytes@ == obj.dep_encoding(),
            Err(e) => !obj.dep_encodable() && e == EncodeError::UNSUPPORTED_OPERATION,
        },
{
    let mut bytes: Vec<u8> = Vec::new();
    match obj.dep_encode(&mut bytes) {
        Ok(_) => {
            assert(bytes@ =~= obj.dep_encoding());
            Ok(bytes)
        },
        Err(e) => Err(e),
    }
}

/// Hands the nested encodings of the values of `items`, one after the other and
/// with no count in front, over as a whole payload. Values that are bytes are
/// handed over as they stand.
pub fn top_encode_slice<T: NestedEncode, O: TopEncodeOutput>(items: &[T], output: &mut O) -> (r:
    Result<(), EncodeError>)
    ensures
        match r {
            Ok(_) => seq_encodable(items@) && final(output).payload() == old(output).payload()
                + seq_encoding(items@),
            Err(e) => !seq_encodable(items@) && e == EncodeError::UNSUPPORTED_OPERATION
                && final(output).payload() == old(output).payload(),
        },
        final(output).handles() == old(output).handles(),
{
    if let TypeInfo::U8 = T::TYPE_INFO {
        if let Some(bytes) = T::slice_as_bytes(items) {
            proof {
                lemma_seq_encoding_of_bytes(items@, bytes@);
            }
            output.set_slice_u8(bytes);
            return Ok(());
        }
    }
    let mut bytes: Vec<u8> = Vec::new();
    match dep_encode_slice(items, &mut bytes) {
        Ok(_) => {
            assert(bytes@ =~= seq_encoding(items@));
            output.set_slice_u8(bytes.as_slice());
            Ok(())
        },
        Err(e) => Err(e),
    }
}

impl TopEncode for () {
    const TYPE_INFO: TypeInfo = TypeInfo::Unit;

    open spec fn top_encodable(&self) -> bool {
        true
    }

    /// The unit value is the empty payload.
    open spec fn top_encoding(&self) -> Seq<u8> {
        Seq::empty()
    }

    fn top_encode<O: TopEncodeOutput>(&self, output: &mut O) -> (r: Result<(), EncodeError>) {
        output.set_unit();
        assert(output.payload() + Seq::<u8>::empty() =~= output.payload());
        Ok(())
    }
}

impl<T: TopEncode> TopEncode for Box<T> {
    open spec fn top_encodable(&self) -> bool {
        (**self).top_encodable()
    }

    /// A box is encoded as the value inside it.
    open spec fn top_encoding(&self) -> Seq<u8> {
        (**self).top_encoding()
    }

    fn top_encode<O: TopEncodeOutput>(&self, output: &mut O) -> (r: Result<(), EncodeError>) {
        (**self).top_encode(output)
    }
}

impl<T: NestedEncode> TopEncode for Vec<T> {
    open spec fn top_encodable(&self) -> bool {
        seq_encodable(self@)
    }

    /// The payload is the row of the elements, with no count in front.
    open spec fn top_encoding(&self) -> Seq<u8> {
        seq_encoding(self@)
    }

    fn top_encode<O: TopEncodeOutput>(&self, output: &mut O) -> (r: Result<(), EncodeError>) {
        top_encode_slice(self.as_slice(), output)
    }
}

impl<T: NestedEncode> TopEncode for Box<[T]> {
    open spec fn top_encodable(&self) -> bool {
        seq_encodable(self@)
    }

    /// A boxed slice is encoded as a vector of the same elements is.
    open spec fn top_encoding(&self) -> Seq<u8> {
        seq_encoding(self@)
    }

    fn top_encode<O: TopEncodeOutput>(&self, output: &mut O) -> (r: Result<(), EncodeError>) {
        top_encode_slice(&**self, output)
    }
}

impl TopEncode for u8 {
    const TYPE_INFO: TypeInfo = TypeInfo::U8;

    open spec fn top_encodable(&self) -> bool {
        true
    }

    open spec fn top_encoding(&self) -> Seq<u8> {
        minimal_unsigned(*self as u64)
    }

    fn top_encode<O: TopEncodeOutput>(&self, output: &mut O) -> (r: Result<(), EncodeError>) {
        output.set_u64(*self as u64);
        Ok(())
    }
}

impl TopEncode for u16 {
    const TYPE_INFO: TypeInfo = TypeInfo::U16;

    open spec fn top_encodable(&self) -> bool {
        true
    }

    open spec fn top_encoding(&self) -> Seq<u8> {
        minimal_unsigned(*self as u64)
    }

    fn top_encode<O: TopEncodeOutput>(&self, output: &mut O) -> (r: Result<(), EncodeError>) {
        output.set_u64(*self as u64);
        Ok(())
    }
}

impl TopEncode for u32 {
    const TYPE_INFO: TypeInfo = TypeInfo::U32;

    open spec fn top_encodable(&self) -> bool {
        true
    }

    open spec fn top_encoding(&self) -> Seq<u8> {
        minimal_unsigned(*self as u64)
    }

    fn top_encode<O: TopEncodeOutput>(&self, output: &mut O) -> (r: Result<(), EncodeError>) {
        output.set_u64(*self as u64);
        Ok(())
    }
}

impl TopEncode for usize {
    const TYPE_INFO: TypeInfo = TypeInfo::USIZE;

    /// A machine word counts as 32 bits: a larger one has no encoding.
    open spec fn top_encodable(&self) -> bool {
        *self <= u32::MAX
    }

    open spec fn top_encoding(&self) -> Seq<u8> {
        minimal_unsigned(*self as u64)
    }

    fn top_encode<O: TopEncodeOutput>(&self, output: &mut O) -> (r: Result<(), EncodeError>) {
        if *self > u32::MAX as usize {
            return Err(EncodeError::UNSUPPORTED_OPERATION);
        }
        output.set_u64(*self as u64);
        Ok(())
    }
}

impl TopEncode for u64 {
    const TYPE_INFO: TypeInfo = TypeInfo::U64;

    open spec fn top_encodable(&self) -> bool {
        true
    }

    open spec fn top_encoding(&self) -> Seq<u8> {
        minimal_unsigned(*self as u64)
    }

    fn top_encode<O: TopEncodeOutput>(&self, output: &mut O) -> (r: Result<(), EncodeError>) {
        output.set_u64(*self as u64);
        Ok(())
    }
}

impl TopEncode for i8 {
    const TYPE_INFO: TypeInfo = TypeInfo::I8;

    open spec fn top_encodable(&self) -> bool {
        true
    }

    open spec fn top_encoding(&self) -> Seq<u8> {
        minimal_signed(*self as i64)
    }

    fn top_encode<O: TopEncodeOutput>(&self, output: &mut O) -> (r: Result<(), EncodeError>) {
        output.set_i64(*self as i64);
        Ok(())
    }
}

impl TopEncode for i16 {
    const TYPE_INFO: TypeInfo = TypeInfo::I16;

    open spec fn top_encodable(&self) -> bool {
        true
    }

    open spec fn top_encoding(&self) -> Seq<u8> {
        minimal_signed(*self as i64)
    }

    fn top_encode<O: TopEncodeOutput>(&self, output: &mut O) -> (r: Result<(), EncodeError>) {
        output.set_i64(*self as i64);
        Ok(())
    }
}

impl TopEncode for i32 {
    const TYPE_INFO: TypeInfo = TypeInfo::I32;

    open spec fn top_encodable(&self) -> bool {
        true
    }

    open spec fn top_encoding(&self) -> Seq<u8> {
        minimal_signed(*self as i64)
    }

    fn top_encode<O: TopEncodeOutput>(&self, output: &mut O) -> (r: Result<(), EncodeError>) {
        output.set_i64(*self as i64);
        Ok(())
    }
}

impl TopEncode for isize {
    const TYPE_INFO: TypeInfo = TypeInfo::ISIZE;

    /// A machine word counts as 32 bits: one outside their range has no encoding.
    open spec fn top_encodable(&self) -> bool {
        i32::MIN <= *self <= i32::MAX
    }

    open spec fn top_encoding(&self) -> Seq<u8> {
        minimal_signed(*self as i64)
    }

    fn top_encode<O: TopEncodeOutput>(&self, output: &mut O) -> (r: Result<(), EncodeError>) {
        if *self < i32::MIN as isize || *self > i32::MAX as isize {
            return Err(EncodeError::UNSUPPORTED_OPERATION);
        }
        output.set_i64(*self as i64);
        Ok(())
    }
}

impl TopEncode for i64 {
    const TYPE_INFO: TypeInfo = TypeInfo::I64;

    open spec fn top_encodable(&self) -> bool {
        true
    }

    open spec fn top_encoding(&self) -> Seq<u8> {
        minimal_signed(*self as i64)
    }

    fn top_encode<O: TopEncodeOutput>(&self, output: &mut O) -> (r: Result<(), EncodeError>) {
        output.set_i64(*self as i64);
        Ok(())
    }
}

impl TopEncode for bool {
    const TYPE_INFO: TypeInfo = TypeInfo::Bool;

    open spec fn top_encodable(&self) -> bool {
        true
    }

    /// A boolean is the number 1 or 0: one byte for true, none for false.
    open spec fn top_encoding(&self) -> Seq<u8> {
        minimal_unsigned(if *self { 1u64 } else { 0u64 })
    }

    fn top_encode<O: TopEncodeOutput>(&self, output: &mut O) -> (r: Result<(), EncodeError>) {
        output.set_u64(if *self { 1 } else { 0 });
        Ok(())
    }
}

impl<T: NestedEncode> TopEncode for Option<T> {
    open spec fn top_encodable(&self) -> bool {
        match self {
            Some(value) => value.dep_encodable(),
            None => true,
        }
    }

    /// The absent value is the empty payload. A present value is one byte of
    /// presence and then the nested value.
    open spec fn top_encoding(&self) -> Seq<u8> {
        match self {
            Some(value) => seq![1u8] + value.dep_encoding(),
            None => Seq::empty(),
        }
    }

    fn top_encode<O: TopEncodeOutput>(&self, output: &mut O) -> (r: Result<(), EncodeError>) {
        match self {
            Some(value) => {
                let mut bytes: Vec<u8> = Vec::new();
                bytes.push(1);
                match value.dep_encode(&mut bytes) {
                    Ok(_) => {
                        assert(bytes@ =~= seq![1u8] + value.dep_encoding());
                        output.set_slice_u8(bytes.as_slice());
                        Ok(())
                    },
                    Err(e) => Err(e),
                }
            },
            None => {
                let empty: Vec<u8> = Vec::new();
                output.set_slice_u8(empty.as_slice());
                assert(old(output).payload() + empty@ =~= old(output).payload() + Seq::<
                    u8,
                >::empty());
                Ok(())
            },
        }
    }
}

} // verus!
