use crate::buffers::{boxed_slice_into_vec, vec_into_boxed_slice};
use crate::codec_err::DecodeError;
use crate::model::Model;
use crate::nested_de::{
    byte_as, decoded_as, dep_decode_from_byte_slice, dep_decoding_exact, NestedDecode,
};
use crate::num_conv::{be_signed, be_unsigned};
use crate::top_de_input::{into_exact_i64, into_exact_u64, TopDecodeInput};
use crate::type_info::TypeInfo;
use vstd::prelude::*;
use vstd::slice::slice_subrange;

verus! {

/// Decoding of a value that is a whole payload by itself. The length of the
/// payload is known, so a sequence needs no count and a number may take as few
/// bytes as its value needs.
pub trait TopDecode: Sized + Model {
    /// The classification of the type, which containers of it read.
    const TYPE_INFO: TypeInfo = TypeInfo::Unknown;

    /// What the payload `bytes` decodes to.
    spec fn top_decoding(bytes: Seq<u8>) -> Result<<Self as Model>::V, DecodeError>;

    /// What the payload `bytes` decodes to where the value is wanted in a box.
    /// Most types decode into a box as they decode otherwise.
    spec fn top_decoding_boxed(bytes: Seq<u8>) -> Result<<Self as Model>::V, DecodeError>;

    /// Decodes the payload of `input`.
    fn top_decode<I: TopDecodeInput>(input: I) -> (r: Result<Self, DecodeError>)
        ensures
            decoded_as(r, Self::top_decoding(input.bytes())),
    ;

    /// Decodes the payload of `input` into a box. A type may do so faster than by
    /// decoding the value and boxing it.
    fn top_decode_boxed<I: TopDecodeInput>(input: I) -> (r: Result<Box<Self>, DecodeError>)
        ensures
            decoded_as(r, Self::top_decoding_boxed(input.bytes())),
    ;
}

/// Decodes the payload of `input` with the structural codec, and requires that
/// the value takes up the whole payload: bytes left over are an error.
pub fn top_decode_from_nested<D: NestedDecode, I: TopDecodeInput>(input: I) -> (r: Result<
    D,
    DecodeError,
>)
    ensures
        decoded_as(r, dep_decoding_exact::<D>(input.bytes())),
{
    let bytes = boxed_slice_into_vec(input.into_boxed_slice_u8());
    let mut cursor = bytes.as_slice();
    proof {
        D::lemma_dep_decoding_consumed(bytes@);
    }
    match D::dep_decode(&mut cursor) {
        Ok(result) => {
            if cursor.is_empty() {
                Ok(result)
            } else {
                Err(DecodeError::INPUT_TOO_LONG)
            }
        },
        Err(e) => Err(e),
    }
}

impl TopDecode for () {
    const TYPE_INFO: TypeInfo = TypeInfo::Unit;

    /// The unit value decodes from any payload.
    open spec fn top_decoding(bytes: Seq<u8>) -> Result<(), DecodeError> {
        Ok(())
    }

    open spec fn top_decoding_boxed(bytes: Seq<u8>) -> Result<(), DecodeError> {
        Self::top_decoding(bytes)
    }

    fn top_decode<I: TopDecodeInput>(input: I) -> (r: Result<Self, DecodeError>) {
        Ok(())
    }

    fn top_decode_boxed<I: TopDecodeInput>(input: I) -> (r: Result<Box<Self>, DecodeError>) {
        match Self::top_decode(input) {
            Ok(value) => Ok(Box::new(value)),
            Err(e) => Err(e),
        }
    }
}

impl<T: TopDecode> TopDecode for Box<T> {
    /// A box decodes as the value inside it does where a box is wanted.
    open spec fn top_decoding(bytes: Seq<u8>) -> Result<T::V, DecodeError> {
        T::top_decoding_boxed(bytes)
    }

    open spec fn top_decoding_boxed(bytes: Seq<u8>) -> Result<T::V, DecodeError> {
        Self::top_decoding(bytes)
    }

    fn top_decode<I: TopDecodeInput>(input: I) -> (r: Result<Self, DecodeError>) {
        T::top_decode_boxed(input)
    }

    fn top_decode_boxed<I: TopDecodeInput>(input: I) -> (r: Result<Box<Self>, DecodeError>) {
        match Self::top_decode(input) {
            Ok(value) => Ok(Box::new(value)),
            Err(e) => Err(e),
        }
    }
}

/// Puts the values `done` in front of the outcome of decoding the rest.
pub open spec fn top_after<V>(done: Seq<V>, rest: Result<Seq<V>, DecodeError>) -> Result<
    Seq<V>,
    DecodeError,
> {
    match rest {
        Ok(values) => Ok(done + values),
        Err(e) => Err(e),
    }
}

/// What a payload decodes to that is a row of nested values with no count in
/// front: values are decoded from the front until no byte is left. The first
/// failure ends the decoding with its error. A value that takes no bytes while
/// bytes remain would never use them up, so they count as left over.
pub open spec fn top_sequence<T: NestedDecode>(bytes: Seq<u8>) -> Result<Seq<T::V>, DecodeError>
    decreases bytes.len(),
{
    if bytes.len() == 0 {
        Ok(Seq::empty())
    } else {
        match T::dep_decoding(bytes) {
            (Ok(value), n) => if 0 < n <= bytes.len() {
                top_after(seq![value], top_sequence::<T>(bytes.skip(n as int)))
            } else {
                Err(DecodeError::INPUT_TOO_LONG)
            },
            (Err(e), _) => Err(e),
        }
    }
}

/// The values that a type classified as one raw byte reads from `bytes`, one from
/// each byte.
pub open spec fn bytes_as<T: NestedDecode>(bytes: Seq<u8>) -> Seq<T::V> {
    Seq::new(bytes.len(), |i: int| byte_as::<T>(bytes[i]))
}

/// For a type that is classified as one raw byte, taking a payload over as it
/// stands gives what decoding it value by value gives.
pub proof fn lemma_top_sequence_of_bytes<T: NestedDecode>(bytes: Seq<u8>)
    requires
        T::TYPE_INFO == TypeInfo::U8,
    ensures
        top_sequence::<T>(bytes) == Ok::<Seq<T::V>, DecodeError>(bytes_as::<T>(bytes)),
    decreases bytes.len(),
{
    if bytes.len() == 0 {
        assert(bytes_as::<T>(bytes) =~= Seq::<T::V>::empty());
    } else {
        T::lemma_byte_classified(bytes);
        lemma_top_sequence_of_bytes::<T>(bytes.skip(1));
        assert(seq![byte_as::<T>(bytes[0])] + bytes_as::<T>(bytes.skip(1)) =~= bytes_as::<T>(
            bytes,
        ));
    }
}

/// Decodes the values of a payload one by one until the payload is used up.
pub fn top_decode_sequence<T: NestedDecode>(bytes: &[u8]) -> (r: Result<Vec<T>, DecodeError>)
    ensures
        decoded_as(r, top_sequence::<T>(bytes@)),
{
    let mut cursor = bytes;
    let mut result: Vec<T> = Vec::new();
    assert(result.model() =~= Seq::<T::V>::empty());
    assert(top_sequence::<T>(bytes@) is Ok ==> Seq::<T::V>::empty() + top_sequence::<T>(
        bytes@,
    )->Ok_0 =~= top_sequence::<T>(bytes@)->Ok_0);
    while !cursor.is_empty()
        invariant
            top_after(result.model(), top_sequence::<T>(cursor@)) == top_sequence::<T>(bytes@),
        decreases cursor@.len(),
    {
        let ghost here = cursor@;
        let ghost before = result.model();
        let remaining = cursor.len();
        proof {
            T::lemma_dep_decoding_consumed(here);
        }
        match T::dep_decode(&mut cursor) {
            Ok(value) => {
                if cursor.len() == remaining {
                    return Err(DecodeError::INPUT_TOO_LONG);
                }
                let ghost model = T::dep_decoding(here).0->Ok_0;
                let ghost tail = top_sequence::<T>(cursor@);
                result.push(value);
                proof {
                    assert(result.model() =~= before.push(model));
                    if tail is Ok {
                        assert(before + (seq![model] + tail->Ok_0) =~= before.push(model)
                            + tail->Ok_0);
                    }
                }
            },
            Err(e) => {
                return Err(e);
            },
        }
    }
    proof {
        assert(result.model() + Seq::<T::V>::empty() =~= result.model());
    }
    Ok(result)
}

impl<T: NestedDecode> TopDecode for Vec<T> {
    /// The payload is the row of the elements, with no count in front.
    open spec fn top_decoding(bytes: Seq<u8>) -> Result<Seq<T::V>, DecodeError> {
        top_sequence::<T>(bytes)
    }

    open spec fn top_decoding_boxed(bytes: Seq<u8>) -> Result<Seq<T::V>, DecodeError> {
        Self::top_decoding(bytes)
    }

    fn top_decode<I: TopDecodeInput>(input: I) -> (r: Result<Self, DecodeError>) {
        let ghost payload = input.bytes();
        let bytes = boxed_slice_into_vec(input.into_boxed_slice_u8());
        if let TypeInfo::U8 = T::TYPE_INFO {
            match T::bytes_into_vec(bytes) {
                Ok(values) => {
                    proof {
                        lemma_top_sequence_of_bytes::<T>(payload);
                        assert(values.model() =~= bytes_as::<T>(payload));
                    }
                    Ok(values)
                },
                Err(back) => top_decode_sequence::<T>(back.as_slice()),
            }
        } else {
            top_decode_sequence::<T>(bytes.as_slice())
        }
    }

    fn top_decode_boxed<I: TopDecodeInput>(input: I) -> (r: Result<Box<Self>, DecodeError>) {
        match Self::top_decode(input) {
            Ok(value) => Ok(Box::new(value)),
            Err(e) => Err(e),
        }
    }
}

// A boxed slice can have this impl because a bare slice, which has no fixed size,
// cannot itself be a nested value.
impl<T: NestedDecode> TopDecode for Box<[T]> {
    /// A boxed slice decodes as a vector of the same elements does.
    open spec fn top_decoding(bytes: Seq<u8>) -> Result<Seq<T::V>, DecodeError> {
        top_sequence::<T>(bytes)
    }

    open spec fn top_decoding_boxed(bytes: Seq<u8>) -> Result<Seq<T::V>, DecodeError> {
        Self::top_decoding(bytes)
    }

    fn top_decode<I: TopDecodeInput>(input: I) -> (r: Result<Self, DecodeError>) {
        match Vec::<T>::top_decode(input) {
            Ok(values) => {
                let ghost model = values.model();
                let boxed = vec_into_boxed_slice(values);
                assert(boxed.model() =~= model);
                Ok(boxed)
            },
            Err(e) => Err(e),
        }
    }

    fn top_decode_boxed<I: TopDecodeInput>(input: I) -> (r: Result<Box<Self>, DecodeError>) {
        match Self::top_decode(input) {
            Ok(value) => Ok(Box::new(value)),
            Err(e) => Err(e),
        }
    }
}

/// What a payload decodes to as an unsigned number of at most `max`: the value
/// of the payload, unless it is above `max`.
pub open spec fn top_unsigned(bytes: Seq<u8>, max: u64) -> Result<u64, DecodeError> {
    let value = be_unsigned(bytes);
    if value > max {
        Err(DecodeError::INPUT_TOO_LONG)
    } else {
        Ok(value as u64)
    }
}

/// What a payload decodes to as a signed number between `min` and `max`: the
/// value of the payload in two's complement, unless it is outside the bounds.
pub open spec fn top_signed(bytes: Seq<u8>, min: i64, max: i64) -> Result<i64, DecodeError> {
    let value = be_signed(bytes);
    if value < min || value > max {
        Err(DecodeError::INPUT_OUT_OF_RANGE)
    } else {
        Ok(value as i64)
    }
}

/// Decodes the payload of `input` as an unsigned number of at most `max`.
pub fn top_decode_unsigned<I: TopDecodeInput>(input: I, max: u64) -> (r: Result<u64, DecodeError>)
    ensures
        r == top_unsigned(input.bytes(), max),
{
    match into_exact_u64(input) {
        Some(arg_u64) => {
            if arg_u64 > max {
                Err(DecodeError::INPUT_TOO_LONG)
            } else {
                Ok(arg_u64)
            }
        },
        None => Err(DecodeError::INPUT_TOO_LONG),
    }
}

/// Decodes the payload of `input` as a signed number between `min` and `max`.
pub fn top_decode_signed<I: TopDecodeInput>(input: I, min: i64, max: i64) -> (r: Result<
    i64,
    DecodeError,
>)
    ensures
        r == top_signed(input.bytes(), min, max),
{
    match into_exact_i64(input) {
        Some(arg_i64) => {
            if arg_i64 < min || arg_i64 > max {
                Err(DecodeError::INPUT_OUT_OF_RANGE)
            } else {
                Ok(arg_i64)
            }
        },
        None => Err(DecodeError::INPUT_OUT_OF_RANGE),
    }
}

impl TopDecode for u8 {
    const TYPE_INFO: TypeInfo = TypeInfo::U8;

    open spec fn top_decoding(bytes: Seq<u8>) -> Result<u8, DecodeError> {
        match top_unsigned(bytes, u8::MAX as u64) {
            Ok(value) => Ok(value as u8),
            Err(e) => Err(e),
        }
    }

    open spec fn top_decoding_boxed(bytes: Seq<u8>) -> Result<u8, DecodeError> {
        Self::top_decoding(bytes)
    }

    fn top_decode<I: TopDecodeInput>(input: I) -> (r: Result<Self, DecodeError>) {
        match top_decode_unsigned(input, u8::MAX as u64) {
            Ok(value) => Ok(value as u8),
            Err(e) => Err(e),
        }
    }

    fn top_decode_boxed<I: TopDecodeInput>(input: I) -> (r: Result<Box<Self>, DecodeError>) {
        match Self::top_decode(input) {
            Ok(value) => Ok(Box::new(value)),
            Err(e) => Err(e),
        }
    }
}

impl TopDecode for u16 {
    const TYPE_INFO: TypeInfo = TypeInfo::U16;

    open spec fn top_decoding(bytes: Seq<u8>) -> Result<u16, DecodeError> {
        match top_unsigned(bytes, u16::MAX as u64) {
            Ok(value) => Ok(value as u16),
            Err(e) => Err(e),
        }
    }

    open spec fn top_decoding_boxed(bytes: Seq<u8>) -> Result<u16, DecodeError> {
        Self::top_decoding(bytes)
    }

    fn top_decode<I: TopDecodeInput>(input: I) -> (r: Result<Self, DecodeError>) {
        match top_decode_unsigned(input, u16::MAX as u64) {
            Ok(value) => Ok(value as u16),
            Err(e) => Err(e),
        }
    }

    fn top_decode_boxed<I: TopDecodeInput>(input: I) -> (r: Result<Box<Self>, DecodeError>) {
        match Self::top_decode(input) {
            Ok(value) => Ok(Box::new(value)),
            Err(e) => Err(e),
        }
    }
}

impl TopDecode for u32 {
    const TYPE_INFO: TypeInfo = TypeInfo::U32;

    open spec fn top_decoding(bytes: Seq<u8>) -> Result<u32, DecodeError> {
        match top_unsigned(bytes, u32::MAX as u64) {
            Ok(value) => Ok(value as u32),
            Err(e) => Err(e),
        }
    }

    open spec fn top_decoding_boxed(bytes: Seq<u8>) -> Result<u32, DecodeError> {
        Self::top_decoding(bytes)
    }

    fn top_decode<I: TopDecodeInput>(input: I) -> (r: Result<Self, DecodeError>) {
        match top_decode_unsigned(input, u32::MAX as u64) {
            Ok(value) => Ok(value as u32),
            Err(e) => Err(e),
        }
    }

    fn top_decode_boxed<I: TopDecodeInput>(input: I) -> (r: Result<Box<Self>, DecodeError>) {
        match Self::top_decode(input) {
            Ok(value) => Ok(Box::new(value)),
            Err(e) => Err(e),
        }
    }
}

impl TopDecode for usize {
    const TYPE_INFO: TypeInfo = TypeInfo::USIZE;

    /// A machine word is decoded as 32 bits, whatever the width of the platform.
    open spec fn top_decoding(bytes: Seq<u8>) -> Result<usize, DecodeError> {
        match top_unsigned(bytes, u32::MAX as u64) {
            Ok(value) => Ok(value as usize),
            Err(e) => Err(e),
        }
    }

    open spec fn top_decoding_boxed(bytes: Seq<u8>) -> Result<usize, DecodeError> {
        Self::top_decoding(bytes)
    }

    fn top_decode<I: TopDecodeInput>(input: I) -> (r: Result<Self, DecodeError>) {
        match top_decode_unsigned(input, u32::MAX as u64) {
            Ok(value) => Ok(value as usize),
            Err(e) => Err(e),
        }
    }

    fn top_decode_boxed<I: TopDecodeInput>(input: I) -> (r: Result<Box<Self>, DecodeError>) {
        match Self::top_decode(input) {
            Ok(value) => Ok(Box::new(value)),
            Err(e) => Err(e),
        }
    }
}

impl TopDecode for u64 {
    const TYPE_INFO: TypeInfo = TypeInfo::U64;

    open spec fn top_decoding(bytes: Seq<u8>) -> Result<u64, DecodeError> {
        match top_unsigned(bytes, u64::MAX as u64) {
            Ok(value) => Ok(value as u64),
            Err(e) => Err(e),
        }
    }

    open spec fn top_decoding_boxed(bytes: Seq<u8>) -> Result<u64, DecodeError> {
        Self::top_decoding(bytes)
    }

    fn top_decode<I: TopDecodeInput>(input: I) -> (r: Result<Self, DecodeError>) {
        match top_decode_unsigned(input, u64::MAX as u64) {
            Ok(value) => Ok(value as u64),
            Err(e) => Err(e),
        }
    }

    fn top_decode_boxed<I: TopDecodeInput>(input: I) -> (r: Result<Box<Self>, DecodeError>) {
        match Self::top_decode(input) {
            Ok(value) => Ok(Box::new(value)),
            Err(e) => Err(e),
        }
    }
}

impl TopDecode for i8 {
    const TYPE_INFO: TypeInfo = TypeInfo::I8;

    open spec fn top_decoding(bytes: Seq<u8>) -> Result<i8, DecodeError> {
        match top_signed(bytes, i8::MIN as i64, i8::MAX as i64) {
            Ok(value) => Ok(value as i8),
            Err(e) => Err(e),
        }
    }

    open spec fn top_decoding_boxed(bytes: Seq<u8>) -> Result<i8, DecodeError> {
        Self::top_decoding(bytes)
    }

    fn top_decode<I: TopDecodeInput>(input: I) -> (r: Result<Self, DecodeError>) {
        match top_decode_signed(input, i8::MIN as i64, i8::MAX as i64) {
            Ok(value) => Ok(value as i8),
            Err(e) => Err(e),
        }
    }

    fn top_decode_boxed<I: TopDecodeInput>(input: I) -> (r: Result<Box<Self>, DecodeError>) {
        match Self::top_decode(input) {
            Ok(value) => Ok(Box::new(value)),
            Err(e) => Err(e),
        }
    }
}

impl TopDecode for i16 {
    const TYPE_INFO: TypeInfo = TypeInfo::I16;

    open spec fn top_decoding(bytes: Seq<u8>) -> Result<i16, DecodeError> {
        match top_signed(bytes, i16::MIN as i64, i16::MAX as i64) {
            Ok(value) => Ok(value as i16),
            Err(e) => Err(e),
        }
    }

    open spec fn top_decoding_boxed(bytes: Seq<u8>) -> Result<i16, DecodeError> {
        Self::top_decoding(bytes)
    }

    fn top_decode<I: TopDecodeInput>(input: I) -> (r: Result<Self, DecodeError>) {
        match top_decode_signed(input, i16::MIN as i64, i16::MAX as i64) {
            Ok(value) => Ok(value as i16),
            Err(e) => Err(e),
        }
    }

    fn top_decode_boxed<I: TopDecodeInput>(input: I) -> (r: Result<Box<Self>, DecodeError>) {
        match Self::top_decode(input) {
            Ok(value) => Ok(Box::new(value)),
            Err(e) => Err(e),
        }
    }
}

impl TopDecode for i32 {
    const TYPE_INFO: TypeInfo = TypeInfo::I32;

    open spec fn top_decoding(bytes: Seq<u8>) -> Result<i32, DecodeError> {
        match top_signed(bytes, i32::MIN as i64, i32::MAX as i64) {
            Ok(value) => Ok(value as i32),
            Err(e) => Err(e),
        }
    }

    open spec fn top_decoding_boxed(bytes: Seq<u8>) -> Result<i32, DecodeError> {
        Self::top_decoding(bytes)
    }

    fn top_decode<I: TopDecodeInput>(input: I) -> (r: Result<Self, DecodeError>) {
        match top_decode_signed(input, i32::MIN as i64, i32::MAX as i64) {
            Ok(value) => Ok(value as i32),
            Err(e) => Err(e),
        }
    }

    fn top_decode_boxed<I: TopDecodeInput>(input: I) -> (r: Result<Box<Self>, DecodeError>) {
        match Self::top_decode(input) {
            Ok(value) => Ok(Box::new(value)),
            Err(e) => Err(e),
        }
    }
}

impl TopDecode for isize {
    const TYPE_INFO: TypeInfo = TypeInfo::ISIZE;

    /// A machine word is decoded as 32 bits, whatever the width of the platform.
    open spec fn top_decoding(bytes: Seq<u8>) -> Result<isize, DecodeError> {
        match top_signed(bytes, i32::MIN as i64, i32::MAX as i64) {
            Ok(value) => Ok(value as isize),
            Err(e) => Err(e),
        }
    }

    open spec fn top_decoding_boxed(bytes: Seq<u8>) -> Result<isize, DecodeError> {
        Self::top_decoding(bytes)
    }

    fn top_decode<I: TopDecodeInput>(input: I) -> (r: Result<Self, DecodeError>) {
        match top_decode_signed(input, i32::MIN as i64, i32::MAX as i64) {
            Ok(value) => Ok(value as isize),
            Err(e) => Err(e),
        }
    }

    fn top_decode_boxed<I: TopDecodeInput>(input: I) -> (r: Result<Box<Self>, DecodeError>) {
        match Self::top_decode(input) {
            Ok(value) => Ok(Box::new(value)),
            Err(e) => Err(e),
        }
    }
}

impl TopDecode for i64 {
    const TYPE_INFO: TypeInfo = TypeInfo::I64;

    open spec fn top_decoding(bytes: Seq<u8>) -> Result<i64, DecodeError> {
        match top_signed(bytes, i64::MIN as i64, i64::MAX as i64) {
            Ok(value) => Ok(value as i64),
            Err(e) => Err(e),
        }
    }

    open spec fn top_decoding_boxed(bytes: Seq<u8>) -> Result<i64, DecodeError> {
        Self::top_decoding(bytes)
    }

    fn top_decode<I: TopDecodeInput>(input: I) -> (r: Result<Self, DecodeError>) {
        match top_decode_signed(input, i64::MIN as i64, i64::MAX as i64) {
            Ok(value) => Ok(value as i64),
            Err(e) => Err(e),
        }
    }

    fn top_decode_boxed<I: TopDecodeInput>(input: I) -> (r: Result<Box<Self>, DecodeError>) {
        match Self::top_decode(input) {
            Ok(value) => Ok(Box::new(value)),
            Err(e) => Err(e),
        }
    }
}

impl TopDecode for bool {
    const TYPE_INFO: TypeInfo = TypeInfo::Bool;

    /// The payload is read as a number: 0 is false, 1 is true, and no other number
    /// is a boolean.
    open spec fn top_decoding(bytes: Seq<u8>) -> Result<bool, DecodeError> {
        let value = be_unsigned(bytes);
        if value == 0 {
            Ok(false)
        } else if value == 1 {
            Ok(true)
        } else {
            Err(DecodeError::INPUT_OUT_OF_RANGE)
        }
    }

    open spec fn top_decoding_boxed(bytes: Seq<u8>) -> Result<bool, DecodeError> {
        Self::top_decoding(bytes)
    }

    fn top_decode<I: TopDecodeInput>(input: I) -> (r: Result<Self, DecodeError>) {
        match into_exact_u64(input) {
            Some(0) => Ok(false),
            Some(1) => Ok(true),
            _ => Err(DecodeError::INPUT_OUT_OF_RANGE),
        }
    }

    fn top_decode_boxed<I: TopDecodeInput>(input: I) -> (r: Result<Box<Self>, DecodeError>) {
        match Self::top_decode(input) {
            Ok(value) => Ok(Box::new(value)),
            Err(e) => Err(e),
        }
    }
}

impl<T: NestedDecode> TopDecode for Option<T> {
    /// The empty payload is the absent value. Of any other payload the first byte
    /// marks presence and is skipped, whatever it holds, and the rest is exactly
    /// one nested value.
    open spec fn top_decoding(bytes: Seq<u8>) -> Result<Option<T::V>, DecodeError> {
        if bytes.len() == 0 {
            Ok(None)
        } else {
            match dep_decoding_exact::<T>(bytes.skip(1)) {
                Ok(value) => Ok(Some(value)),
                Err(e) => Err(e),
            }
        }
    }

    open spec fn top_decoding_boxed(bytes: Seq<u8>) -> Result<Option<T::V>, DecodeError> {
        Self::top_decoding(bytes)
    }

    fn top_decode<I: TopDecodeInput>(input: I) -> (r: Result<Self, DecodeError>) {
        let bytes = boxed_slice_into_vec(input.into_boxed_slice_u8());
        if bytes.is_empty() {
            Ok(None)
        } else {
            let rest = slice_subrange(bytes.as_slice(), 1, bytes.len());
            assert(rest@ =~= bytes@.skip(1));
            match dep_decode_from_byte_slice::<T>(rest) {
                Ok(t) => Ok(Some(t)),
                Err(e) => Err(e),
            }
        }
    }

    fn top_decode_boxed<I: TopDecodeInput>(input: I) -> (r: Result<Box<Self>, DecodeError>) {
        match Self::top_decode(input) {
            Ok(value) => Ok(Box::new(value)),
            Err(e) => Err(e),
        }
    }
}

} // verus!
