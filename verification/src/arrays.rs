use crate::buffers::{boxed_slice_into_vec, vec_into_array};
use crate::codec_err::{DecodeError, EncodeError};
use crate::model::{seq_model, Model};
use crate::nested_de::{
    byte_as, dep_decode_from_byte_slice, dep_decode_sequence, dep_decoding_exact, dep_sequence,
    lemma_dep_sequence, NestedDecode,
};
use crate::nested_en::{
    dep_encode_slice, seq_encodable, seq_encoding, NestedEncode, NestedEncodeOutput,
};
use crate::round_trip::{
    lemma_dep_sequence_round_trip, lemma_exact_round_trip, NestedRoundTrip, TopRoundTrip,
};
use crate::top_de::{bytes_as, top_decode_from_nested, TopDecode};
use crate::top_de_input::TopDecodeInput;
use crate::top_en::{top_encode_from_nested, TopEncode};
use crate::top_en_output::TopEncodeOutput;
use crate::type_info::TypeInfo;
use vstd::prelude::*;

verus! {

/// For a type that is classified as one raw byte, a row of `count` values reads
/// the first `count` bytes, one value from each.
pub proof fn lemma_dep_sequence_of_bytes<T: NestedDecode>(bytes: Seq<u8>, count: nat)
    requires
        T::TYPE_INFO == TypeInfo::U8,
        count <= bytes.len(),
    ensures
        dep_sequence::<T>(bytes, count) == (
            Ok::<Seq<T::V>, DecodeError>(bytes_as::<T>(bytes.take(count as int))),
            count,
        ),
    decreases count,
{
    if count == 0 {
        assert(bytes_as::<T>(bytes.take(0)) =~= Seq::<T::V>::empty());
    } else {
        T::lemma_byte_classified(bytes);
        lemma_dep_sequence_of_bytes::<T>(bytes.skip(1), (count - 1) as nat);
        assert(seq![byte_as::<T>(bytes[0])] + bytes_as::<T>(bytes.skip(1).take(count - 1))
            =~= bytes_as::<T>(bytes.take(count as int)));
    }
}

impl<T: NestedDecode, const N: usize> NestedDecode for [T; N] {
    const TYPE_INFO: TypeInfo = TypeInfo::Unknown;

    /// An array is the row of its `N` elements, with no count in front.
    open spec fn dep_decoding(input: Seq<u8>) -> (Result<Seq<T::V>, DecodeError>, nat) {
        dep_sequence::<T>(input, N as nat)
    }

    proof fn lemma_dep_decoding_consumed(input: Seq<u8>) {
        lemma_dep_sequence::<T>(input, N as nat);
    }

    proof fn lemma_byte_classified(input: Seq<u8>) {
    }

    fn dep_decode(input: &mut &[u8]) -> (r: Result<Self, DecodeError>) {
        proof {
            lemma_dep_sequence::<T>((*input)@, N as nat);
        }
        match dep_decode_sequence::<T>(input, N) {
            Ok(values) => {
                let ghost model = values.model();
                match vec_into_array::<T, N>(values) {
                    Ok(array) => {
                        assert(array.model() =~= model);
                        Ok(array)
                    },
                    Err(_) => Err(DecodeError::ARRAY_DECODE_ERROR),
                }
            },
            Err(e) => Err(e),
        }
    }
}

impl<T: NestedDecode, const N: usize> TopDecode for [T; N] {
    const TYPE_INFO: TypeInfo = TypeInfo::Unknown;

    /// An array that is a whole payload is exactly one nested array.
    open spec fn top_decoding(bytes: Seq<u8>) -> Result<Seq<T::V>, DecodeError> {
        dep_decoding_exact::<Self>(bytes)
    }

    /// An array of bytes that is wanted in a box is taken from a payload of
    /// exactly `N` bytes as it stands. A payload of any other length is refused
    /// for its length alone.
    open spec fn top_decoding_boxed(bytes: Seq<u8>) -> Result<Seq<T::V>, DecodeError> {
        if T::TYPE_INFO == TypeInfo::U8 && bytes.len() != N {
            Err(DecodeError::ARRAY_DECODE_ERROR)
        } else {
            Self::top_decoding(bytes)
        }
    }

    fn top_decode<I: TopDecodeInput>(input: I) -> (r: Result<Self, DecodeError>) {
        top_decode_from_nested(input)
    }

    fn top_decode_boxed<I: TopDecodeInput>(input: I) -> (r: Result<Box<Self>, DecodeError>) {
        if let TypeInfo::U8 = T::TYPE_INFO {
            let ghost payload = input.bytes();
            let buffer = boxed_slice_into_vec(input.into_boxed_slice_u8());
            if buffer.len() != N {
                return Err(DecodeError::ARRAY_DECODE_ERROR);
            }
            match T::bytes_into_vec(buffer) {
                Ok(values) => {
                    proof {
                        lemma_dep_sequence_of_bytes::<T>(payload, N as nat);
                        assert(payload.take(N as int) =~= payload);
                        assert(values.model() =~= bytes_as::<T>(payload));
                    }
                    let ghost model = values.model();
                    match vec_into_array::<T, N>(values) {
                        Ok(array) => {
                            assert(array.model() =~= model);
                            Ok(Box::new(array))
                        },
                        Err(_) => Err(DecodeError::ARRAY_DECODE_ERROR),
                    }
                },
                Err(back) => match dep_decode_from_byte_slice::<Self>(back.as_slice()) {
                    Ok(array) => Ok(Box::new(array)),
                    Err(e) => Err(e),
                },
            }
        } else {
            match Self::top_decode(input) {
                Ok(value) => Ok(Box::new(value)),
                Err(e) => Err(e),
            }
        }
    }
}

impl<T: NestedEncode, const N: usize> NestedEncode for [T; N] {
    const TYPE_INFO: TypeInfo = TypeInfo::Unknown;

    open spec fn dep_encodable(&self) -> bool {
        seq_encodable(self@)
    }

    /// The encodings of the `N` elements, one after the other, with no count in
    /// front.
    open spec fn dep_encoding(&self) -> Seq<u8> {
        seq_encoding(self@)
    }

    fn dep_encode<O: NestedEncodeOutput>(&self, dest: &mut O) -> (r: Result<(), EncodeError>) {
        dep_encode_slice(self.as_slice(), dest)
    }
}

impl<T: NestedEncode, const N: usize> TopEncode for [T; N] {
    const TYPE_INFO: TypeInfo = TypeInfo::Unknown;

    open spec fn top_encodable(&self) -> bool {
        self.dep_encodable()
    }

    /// An array that is a whole payload is its nested encoding.
    open spec fn top_encoding(&self) -> Seq<u8> {
        self.dep_encoding()
    }

    fn top_encode<O: TopEncodeOutput>(&self, output: &mut O) -> (r: Result<(), EncodeError>) {
        top_encode_from_nested(self, output)
    }
}

/// A value of a type that is classified as one raw byte is encoded as one byte.
pub proof fn lemma_byte_classified_encoding<T: NestedRoundTrip>(value: T)
    requires
        <T as NestedDecode>::TYPE_INFO == TypeInfo::U8,
        value.dep_encodable(),
    ensures
        value.dep_encoding().len() == 1,
{
    let input = value.dep_encoding() + seq![0u8];
    T::lemma_dep_round_trip(value, seq![0u8]);
    T::lemma_byte_classified(input);
}

/// A row of values of a type that is classified as one raw byte is encoded as
/// one byte for each value.
pub proof fn lemma_byte_classified_row<T: NestedRoundTrip>(items: Seq<T>)
    requires
        <T as NestedDecode>::TYPE_INFO == TypeInfo::U8,
        seq_encodable(items),
    ensures
        seq_encoding(items).len() == items.len(),
    decreases items.len(),
{
    if items.len() > 0 {
        assert(items[0].dep_encodable());
        lemma_byte_classified_encoding::<T>(items[0]);
        assert forall|i: int| 0 <= i < items.drop_first().len() implies (
        #[trigger] items.drop_first()[i]).dep_encodable() by {
            assert(items[i + 1].dep_encodable());
        }
        lemma_byte_classified_row::<T>(items.drop_first());
    }
}

impl<T: NestedRoundTrip, const N: usize> NestedRoundTrip for [T; N] {
    proof fn lemma_dep_round_trip(value: Self, rest: Seq<u8>) {
        lemma_dep_sequence_round_trip::<T>(value@, rest);
        assert(seq_model(value@) =~= value.model());
    }
}

impl<T: NestedRoundTrip, const N: usize> TopRoundTrip for [T; N] {
    open spec fn top_delimited(&self) -> bool {
        true
    }

    proof fn lemma_top_round_trip(value: Self) {
        lemma_exact_round_trip::<Self>(value);
        if <T as NestedDecode>::TYPE_INFO == TypeInfo::U8 {
            lemma_byte_classified_row::<T>(value@);
        }
    }
}

} // verus!
