use crate::codec_err::{DecodeError, EncodeError};
use crate::model::Model;
use crate::nested_de::{dep_decoding_exact, NestedDecode};
use crate::nested_en::{NestedEncode, NestedEncodeOutput};
use crate::round_trip::{lemma_exact_round_trip, NestedRoundTrip, TopRoundTrip};
use crate::top_de::{top_decode_from_nested, TopDecode};
use crate::top_de_input::TopDecodeInput;
use crate::top_en::{top_encode_from_nested, TopEncode};
use crate::top_en_output::TopEncodeOutput;
use crate::type_info::TypeInfo;
use vstd::prelude::*;

verus! {

/// A record of three fields: a number, a sequence of bytes and one more byte. It
/// shows how a record takes part in the codec: its fields are encoded one after
/// the other, as the fields of a tuple are.
#[derive(PartialEq, Eq, Debug)]
pub struct Test<T> {
    pub int: T,
    pub seq: Vec<u8>,
    pub another_byte: u8,
}

impl<T: Model> Model for Test<T> {
    type V = (T::V, Seq<u8>, u8);

    open spec fn model(&self) -> (T::V, Seq<u8>, u8) {
        (self.int.model(), self.seq.model(), self.another_byte)
    }
}

impl<T: NestedDecode> NestedDecode for Test<T> {
    const TYPE_INFO: TypeInfo = TypeInfo::Unknown;

    /// The record is decoded as the tuple of its fields.
    open spec fn dep_decoding(input: Seq<u8>) -> (Result<(T::V, Seq<u8>, u8), DecodeError>, nat) {
        <(T, Vec<u8>, u8)>::dep_decoding(input)
    }

    proof fn lemma_dep_decoding_consumed(input: Seq<u8>) {
        <(T, Vec<u8>, u8)>::lemma_dep_decoding_consumed(input);
    }

    proof fn lemma_byte_classified(input: Seq<u8>) {
    }

    fn dep_decode(input: &mut &[u8]) -> (r: Result<Self, DecodeError>) {
        match <(T, Vec<u8>, u8)>::dep_decode(input) {
            Ok(fields) => Ok(Test { int: fields.0, seq: fields.1, another_byte: fields.2 }),
            Err(e) => Err(e),
        }
    }
}

impl<T: NestedDecode> TopDecode for Test<T> {
    const TYPE_INFO: TypeInfo = TypeInfo::Unknown;

    /// A record that is a whole payload is exactly one nested record.
    open spec fn top_decoding(bytes: Seq<u8>) -> Result<(T::V, Seq<u8>, u8), DecodeError> {
        dep_decoding_exact::<Self>(bytes)
    }

    open spec fn top_decoding_boxed(bytes: Seq<u8>) -> Result<(T::V, Seq<u8>, u8), DecodeError> {
        Self::top_decoding(bytes)
    }

    fn top_decode<I: TopDecodeInput>(input: I) -> (r: Result<Self, DecodeError>) {
        top_decode_from_nested(input)
    }

    fn top_decode_boxed<I: TopDecodeInput>(input: I) -> (r: Result<Box<Self>, DecodeError>) {
        match Self::top_decode(input) {
            Ok(value) => Ok(Box::new(value)),
            Err(e) => Err(e),
        }
    }
}

impl<T: NestedEncode> NestedEncode for Test<T> {
    const TYPE_INFO: TypeInfo = TypeInfo::Unknown;

    open spec fn dep_encodable(&self) -> bool {
        (self.int, self.seq, self.another_byte).dep_encodable()
    }

    /// The record is encoded as the tuple of its fields.
    open spec fn dep_encoding(&self) -> Seq<u8> {
        (self.int, self.seq, self.another_byte).dep_encoding()
    }

    fn dep_encode<O: NestedEncodeOutput>(&self, dest: &mut O) -> (r: Result<(), EncodeError>) {
        let ghost start = dest.written();
        match self.int.dep_encode(dest) {
            Ok(_) => {},
            Err(e) => {
                return Err(e);
            },
        }
        match self.seq.dep_encode(dest) {
            Ok(_) => {},
            Err(e) => {
                assert(start.is_prefix_of(dest.written()));
                return Err(e);
            },
        }
        match self.another_byte.dep_encode(dest) {
            Ok(_) => {},
            Err(e) => {
                assert(start.is_prefix_of(dest.written()));
                return Err(e);
            },
        }
        assert(dest.written() =~= start + self.dep_encoding());
        Ok(())
    }
}

impl<T: NestedEncode> TopEncode for Test<T> {
    const TYPE_INFO: TypeInfo = TypeInfo::Unknown;

    open spec fn top_encodable(&self) -> bool {
        self.dep_encodable()
    }

    /// A record that is a whole payload is its nested encoding.
    open spec fn top_encoding(&self) -> Seq<u8> {
        self.dep_encoding()
    }

    fn top_encode<O: TopEncodeOutput>(&self, output: &mut O) -> (r: Result<(), EncodeError>) {
        top_encode_from_nested(self, output)
    }
}

impl<T: NestedRoundTrip> NestedRoundTrip for Test<T> {
    proof fn lemma_dep_round_trip(value: Self, rest: Seq<u8>) {
        <(T, Vec<u8>, u8)>::lemma_dep_round_trip((value.int, value.seq, value.another_byte), rest);
    }
}

impl<T: NestedRoundTrip> TopRoundTrip for Test<T> {
    open spec fn top_delimited(&self) -> bool {
        true
    }

    proof fn lemma_top_round_trip(value: Self) {
        lemma_exact_round_trip::<Self>(value);
    }
}

/// A value of one of four shapes. It shows how a tagged variant takes part in
/// the codec: the index of the shape comes first, in four bytes, and the fields
/// of the shape follow it.
#[derive(Clone, Copy, PartialEq, Eq, Debug, Structural)]
pub enum E {
    Unit,
    Newtype(u32),
    Tuple(u32, u32),
    Struct { a: u32 },
}

impl Model for E {
    type V = E;

    open spec fn model(&self) -> E {
        *self
    }
}

impl NestedDecode for E {
    const TYPE_INFO: TypeInfo = TypeInfo::Unknown;

    /// The index of the shape, and then the fields of that shape. An index above 3
    /// names no shape and leaves the cursor in front of it.
    open spec fn dep_decoding(input: Seq<u8>) -> (Result<E, DecodeError>, nat) {
        match u32::dep_decoding(input) {
            (Ok(index), n) => if index == 0 {
                (Ok(E::Unit), n)
            } else if index == 1 {
                match u32::dep_decoding(input.skip(n as int)) {
                    (Ok(arg), m) => (Ok(E::Newtype(arg)), n + m),
                    (Err(e), m) => (Err(e), n + m),
                }
            } else if index == 2 {
                match <(u32, u32)>::dep_decoding(input.skip(n as int)) {
                    (Ok(args), m) => (Ok(E::Tuple(args.0, args.1)), n + m),
                    (Err(e), m) => (Err(e), n + m),
                }
            } else if index == 3 {
                match u32::dep_decoding(input.skip(n as int)) {
                    (Ok(a), m) => (Ok(E::Struct { a }), n + m),
                    (Err(e), m) => (Err(e), n + m),
                }
            } else {
                (Err(DecodeError::INVALID_VALUE), 0)
            },
            (Err(e), n) => (Err(e), n),
        }
    }

    proof fn lemma_dep_decoding_consumed(input: Seq<u8>) {
        if input.len() >= 4 {
            u32::lemma_dep_decoding_consumed(input.skip(4));
            <(u32, u32)>::lemma_dep_decoding_consumed(input.skip(4));
        }
    }

    proof fn lemma_byte_classified(input: Seq<u8>) {
    }

    fn dep_decode(input: &mut &[u8]) -> (r: Result<Self, DecodeError>) {
        let ghost start = (*input)@;
        let mut ahead = *input;
        let index = match u32::dep_decode(&mut ahead) {
            Ok(index) => index,
            Err(e) => {
                assert(start.skip(0) =~= start);
                return Err(e);
            },
        };
        if index > 3 {
            assert(start.skip(0) =~= start);
            return Err(DecodeError::INVALID_VALUE);
        }
        *input = ahead;
        let ghost behind = (*input)@;
        proof {
            u32::lemma_dep_decoding_consumed(behind);
            <(u32, u32)>::lemma_dep_decoding_consumed(behind);
            let m = u32::dep_decoding(behind).1;
            let k = <(u32, u32)>::dep_decoding(behind).1;
            assert(behind.skip(m as int) =~= start.skip(4 + m as int));
            assert(behind.skip(k as int) =~= start.skip(4 + k as int));
            assert(behind.skip(0) =~= start.skip(4));
        }
        if index == 0 {
            Ok(E::Unit)
        } else if index == 1 {
            match u32::dep_decode(input) {
                Ok(arg) => Ok(E::Newtype(arg)),
                Err(e) => Err(e),
            }
        } else if index == 2 {
            match <(u32, u32)>::dep_decode(input) {
                Ok(args) => Ok(E::Tuple(args.0, args.1)),
                Err(e) => Err(e),
            }
        } else {
            match u32::dep_decode(input) {
                Ok(a) => Ok(E::Struct { a }),
                Err(e) => Err(e),
            }
        }
    }
}

impl TopDecode for E {
    const TYPE_INFO: TypeInfo = TypeInfo::Unknown;

    /// A variant that is a whole payload is exactly one nested variant.
    open spec fn top_decoding(bytes: Seq<u8>) -> Result<E, DecodeError> {
        dep_decoding_exact::<Self>(bytes)
    }

    open spec fn top_decoding_boxed(bytes: Seq<u8>) -> Result<E, DecodeError> {
        Self::top_decoding(bytes)
    }

    fn top_decode<I: TopDecodeInput>(input: I) -> (r: Result<Self, DecodeError>) {
        top_decode_from_nested(input)
    }

    fn top_decode_boxed<I: TopDecodeInput>(input: I) -> (r: Result<Box<Self>, DecodeError>) {
        match Self::top_decode(input) {
            Ok(value) => Ok(Box::new(value)),
            Err(e) => Err(e),
        }
    }
}

impl NestedEncode for E {
    const TYPE_INFO: TypeInfo = TypeInfo::Unknown;

    open spec fn dep_encodable(&self) -> bool {
        true
    }

    /// The index of the shape in four bytes, and then the fields.
    open spec fn dep_encoding(&self) -> Seq<u8> {
        match *self {
            E::Unit => 0u32.dep_encoding(),
            E::Newtype(arg) => 1u32.dep_encoding() + arg.dep_encoding(),
            E::Tuple(first, second) => 2u32.dep_encoding() + (first, second).dep_encoding(),
            E::Struct { a } => 3u32.dep_encoding() + a.dep_encoding(),
        }
    }

    fn dep_encode<O: NestedEncodeOutput>(&self, dest: &mut O) -> (r: Result<(), EncodeError>) {
        let ghost start = dest.written();
        match self {
            E::Unit => {
                0u32.dep_encode(dest)?;
            },
            E::Newtype(arg) => {
                1u32.dep_encode(dest)?;
                arg.dep_encode(dest)?;
            },
            E::Tuple(first, second) => {
                2u32.dep_encode(dest)?;
                first.dep_encode(dest)?;
                second.dep_encode(dest)?;
            },
            E::Struct { a } => {
                3u32.dep_encode(dest)?;
                a.dep_encode(dest)?;
            },
        }
        assert(dest.written() =~= start + self.dep_encoding());
        Ok(())
    }
}

impl TopEncode for E {
    const TYPE_INFO: TypeInfo = TypeInfo::Unknown;

    open spec fn top_encodable(&self) -> bool {
        true
    }

    /// A variant that is a whole payload is its nested encoding.
    open spec fn top_encoding(&self) -> Seq<u8> {
        self.dep_encoding()
    }

    fn top_encode<O: TopEncodeOutput>(&self, output: &mut O) -> (r: Result<(), EncodeError>) {
        top_encode_from_nested(self, output)
    }
}

impl NestedRoundTrip for E {
    proof fn lemma_dep_round_trip(value: Self, rest: Seq<u8>) {
        let input = value.dep_encoding() + rest;
        match value {
            E::Unit => {
                u32::lemma_dep_round_trip(0u32, rest);
            },
            E::Newtype(arg) => {
                let behind = arg.dep_encoding() + rest;
                assert(input =~= 1u32.dep_encoding() + behind);
                u32::lemma_dep_round_trip(1u32, behind);
                assert(input.skip(1u32.dep_encoding().len() as int) =~= behind);
                u32::lemma_dep_round_trip(arg, rest);
            },
            E::Tuple(first, second) => {
                let behind = (first, second).dep_encoding() + rest;
                assert(input =~= 2u32.dep_encoding() + behind);
                u32::lemma_dep_round_trip(2u32, behind);
                assert(input.skip(2u32.dep_encoding().len() as int) =~= behind);
                <(u32, u32)>::lemma_dep_round_trip((first, second), rest);
            },
            E::Struct { a } => {
                let behind = a.dep_encoding() + rest;
                assert(input =~= 3u32.dep_encoding() + behind);
                u32::lemma_dep_round_trip(3u32, behind);
                assert(input.skip(3u32.dep_encoding().len() as int) =~= behind);
                u32::lemma_dep_round_trip(a, rest);
            },
        }
    }
}

impl TopRoundTrip for E {
    open spec fn top_delimited(&self) -> bool {
        true
    }

    proof fn lemma_top_round_trip(value: Self) {
        lemma_exact_round_trip::<Self>(value);
    }
}

} // verus!
