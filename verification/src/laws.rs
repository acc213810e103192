use crate::codec_err::DecodeError;
use crate::nested_de::{lemma_classifications, NestedDecode};
use crate::num_conv::{
    be_signed, be_unsigned, lemma_be_fold_split, lemma_minimal_unsigned_is_minimal,
    lemma_sign_extension, sign_padding,
};
use crate::top_de::{bytes_as, lemma_top_sequence_of_bytes, TopDecode};
use crate::top_en::TopEncode;
use crate::type_info::TypeInfo;
use vstd::prelude::*;

verus! {

/// The top-level encoding of an unsigned number is minimal, whatever the width of
/// its type: 0 is the empty payload, and the payload of any other number does not
/// start with a zero byte.
pub proof fn lemma_unsigned_top_encoding_is_minimal(a: u8, b: u16, c: u32, d: usize, e: u64)
    ensures
        a == 0 ==> a.top_encoding() == Seq::<u8>::empty(),
        a > 0 ==> a.top_encoding().len() > 0 && a.top_encoding()[0] != 0,
        b == 0 ==> b.top_encoding() == Seq::<u8>::empty(),
        b > 0 ==> b.top_encoding().len() > 0 && b.top_encoding()[0] != 0,
        c == 0 ==> c.top_encoding() == Seq::<u8>::empty(),
        c > 0 ==> c.top_encoding().len() > 0 && c.top_encoding()[0] != 0,
        d == 0 ==> d.top_encoding() == Seq::<u8>::empty(),
        d > 0 ==> d.top_encoding().len() > 0 && d.top_encoding()[0] != 0,
        e == 0 ==> e.top_encoding() == Seq::<u8>::empty(),
        e > 0 ==> e.top_encoding().len() > 0 && e.top_encoding()[0] != 0,
{
    lemma_minimal_unsigned_is_minimal(a as u64);
    lemma_minimal_unsigned_is_minimal(b as u64);
    lemma_minimal_unsigned_is_minimal(c as u64);
    lemma_minimal_unsigned_is_minimal(d as u64);
    lemma_minimal_unsigned_is_minimal(e);
}

/// A signed number decodes from a payload as it decodes from the same payload
/// with its sign extended to the left by any number of bytes.
pub proof fn lemma_signed_top_decoding_tolerates_sign_extension(bytes: Seq<u8>, count: nat)
    ensures
        i8::top_decoding(sign_padding(bytes, count) + bytes) == i8::top_decoding(bytes),
        i16::top_decoding(sign_padding(bytes, count) + bytes) == i16::top_decoding(bytes),
        i32::top_decoding(sign_padding(bytes, count) + bytes) == i32::top_decoding(bytes),
        isize::top_decoding(sign_padding(bytes, count) + bytes) == isize::top_decoding(bytes),
        i64::top_decoding(sign_padding(bytes, count) + bytes) == i64::top_decoding(bytes),
{
    lemma_sign_extension(bytes, count);
}

/// An unsigned number that does not fit its type is refused as too long, however
/// long the payload is. A number that fits is decoded as it is.
pub proof fn lemma_unsigned_range_rejection(bytes: Seq<u8>)
    ensures
        u8::top_decoding(bytes) == if be_unsigned(bytes) > u8::MAX {
            Err::<u8, DecodeError>(DecodeError::INPUT_TOO_LONG)
        } else {
            Ok::<u8, DecodeError>(be_unsigned(bytes) as u8)
        },
        u16::top_decoding(bytes) == if be_unsigned(bytes) > u16::MAX {
            Err::<u16, DecodeError>(DecodeError::INPUT_TOO_LONG)
        } else {
            Ok::<u16, DecodeError>(be_unsigned(bytes) as u16)
        },
        u32::top_decoding(bytes) == if be_unsigned(bytes) > u32::MAX {
            Err::<u32, DecodeError>(DecodeError::INPUT_TOO_LONG)
        } else {
            Ok::<u32, DecodeError>(be_unsigned(bytes) as u32)
        },
        usize::top_decoding(bytes) == if be_unsigned(bytes) > u32::MAX {
            Err::<usize, DecodeError>(DecodeError::INPUT_TOO_LONG)
        } else {
            Ok::<usize, DecodeError>(be_unsigned(bytes) as usize)
        },
        u64::top_decoding(bytes) == if be_unsigned(bytes) > u64::MAX {
            Err::<u64, DecodeError>(DecodeError::INPUT_TOO_LONG)
        } else {
            Ok::<u64, DecodeError>(be_unsigned(bytes) as u64)
        },
{
    lemma_be_fold_split(0, bytes);
}

/// A signed number that does not fit its type is refused as out of range,
/// however long the payload is. A number that fits is decoded as it is.
pub proof fn lemma_signed_range_rejection(bytes: Seq<u8>)
    ensures
        i8::top_decoding(bytes) == if be_signed(bytes) < i8::MIN || be_signed(bytes) > i8::MAX {
            Err::<i8, DecodeError>(DecodeError::INPUT_OUT_OF_RANGE)
        } else {
            Ok::<i8, DecodeError>(be_signed(bytes) as i8)
        },
        i16::top_decoding(bytes) == if be_signed(bytes) < i16::MIN || be_signed(bytes)
            > i16::MAX {
            Err::<i16, DecodeError>(DecodeError::INPUT_OUT_OF_RANGE)
        } else {
            Ok::<i16, DecodeError>(be_signed(bytes) as i16)
        },
        i32::top_decoding(bytes) == if be_signed(bytes) < i32::MIN || be_signed(bytes)
            > i32::MAX {
            Err::<i32, DecodeError>(DecodeError::INPUT_OUT_OF_RANGE)
        } else {
            Ok::<i32, DecodeError>(be_signed(bytes) as i32)
        },
        isize::top_decoding(bytes) == if be_signed(bytes) < i32::MIN || be_signed(bytes)
            > i32::MAX {
            Err::<isize, DecodeError>(DecodeError::INPUT_OUT_OF_RANGE)
        } else {
            Ok::<isize, DecodeError>(be_signed(bytes) as isize)
        },
        i64::top_decoding(bytes) == if be_signed(bytes) < i64::MIN || be_signed(bytes)
            > i64::MAX {
            Err::<i64, DecodeError>(DecodeError::INPUT_OUT_OF_RANGE)
        } else {
            Ok::<i64, DecodeError>(be_signed(bytes) as i64)
        },
{
}

/// A payload decodes to a vector of bytes, or to a boxed slice of bytes, as the
/// payload itself: decoding it byte by byte gives what taking it over gives.
pub proof fn lemma_top_bytes_are_verbatim(bytes: Seq<u8>)
    ensures
        Vec::<u8>::top_decoding(bytes) == Ok::<Seq<u8>, DecodeError>(bytes),
        Box::<[u8]>::top_decoding(bytes) == Ok::<Seq<u8>, DecodeError>(bytes),
{
    lemma_classifications();
    lemma_top_sequence_of_bytes::<u8>(bytes);
    assert(bytes_as::<u8>(bytes) =~= bytes);
}

/// An array of `N` values of a type that is classified as one raw byte, wanted in
/// a box, is refused for its length alone when the payload does not have exactly
/// `N` bytes, whatever the bytes are.
pub proof fn lemma_boxed_byte_array_length<T: NestedDecode, const N: usize>(bytes: Seq<u8>)
    requires
        T::TYPE_INFO == TypeInfo::U8,
        bytes.len() != N,
    ensures
        <[T; N]>::top_decoding_boxed(bytes) == Err::<Seq<T::V>, DecodeError>(
            DecodeError::ARRAY_DECODE_ERROR,
        ),
        Box::<[T; N]>::top_decoding(bytes) == Err::<Seq<T::V>, DecodeError>(
            DecodeError::ARRAY_DECODE_ERROR,
        ),
{
}

} // verus!
