use crate::codec_err::{DecodeError, EncodeError};
use crate::nested_de::{dep_decoding_exact, NestedDecode};
use crate::nested_en::{NestedEncode, NestedEncodeOutput};
use crate::round_trip::{lemma_exact_round_trip, NestedRoundTrip, TopRoundTrip};
use crate::top_de::{top_decode_from_nested, TopDecode};
use crate::top_de_input::TopDecodeInput;
use crate::top_en::{top_encode_from_nested, TopEncode};
use crate::top_en_output::TopEncodeOutput;
use crate::type_info::TypeInfo;
use vstd::prelude::*;

verus! {

// The codec of the tuples of one to sixteen fields. A tuple of more than one
// field is decoded and encoded as the tuple of the fields in front of its last
// field, followed by the last field.

impl<T0: NestedDecode> NestedDecode for (T0,) {
    const TYPE_INFO: TypeInfo = TypeInfo::Unknown;

    /// A tuple of one field is decoded as the field.
    open spec fn dep_decoding(input: Seq<u8>) -> (Result<(T0::V,), DecodeError>, nat) {
        match T0::dep_decoding(input) {
            (Ok(only), n) => (Ok((only,)), n),
            (Err(e), n) => (Err(e), n),
        }
    }

    proof fn lemma_dep_decoding_consumed(input: Seq<u8>) {
        T0::lemma_dep_decoding_consumed(input);
    }

    proof fn lemma_byte_classified(input: Seq<u8>) {
    }

    fn dep_decode(input: &mut &[u8]) -> (r: Result<Self, DecodeError>) {
        match T0::dep_decode(input) {
            Ok(only) => Ok((only,)),
            Err(e) => Err(e),
        }
    }
}

impl<T0: NestedEncode> NestedEncode for (T0,) {
    const TYPE_INFO: TypeInfo = TypeInfo::Unknown;

    open spec fn dep_encodable(&self) -> bool {
        self.0.dep_encodable()
    }

    /// A tuple of one field is encoded as the field.
    open spec fn dep_encoding(&self) -> Seq<u8> {
        self.0.dep_encoding()
    }

    fn dep_encode<O: NestedEncodeOutput>(&self, dest: &mut O) -> (r: Result<(), EncodeError>) {
        self.0.dep_encode(dest)
    }
}

impl<T0: NestedRoundTrip> NestedRoundTrip for (T0,) {
    proof fn lemma_dep_round_trip(value: Self, rest: Seq<u8>) {
        T0::lemma_dep_round_trip(value.0, rest);
    }
}

impl<T0: NestedDecode> TopDecode for (T0,) {
    const TYPE_INFO: TypeInfo = TypeInfo::Unknown;

    /// A tuple that is a whole payload is exactly one nested tuple.
    open spec fn top_decoding(bytes: Seq<u8>) -> Result<(T0::V,), DecodeError> {
        dep_decoding_exact::<Self>(bytes)
    }

    open spec fn top_decoding_boxed(bytes: Seq<u8>) -> Result<(T0::V,), DecodeError> {
        Self::top_decoding(bytes)
    }

    fn top_decode<I: TopDecodeInput>(input: I) -> (r: Result<Self, DecodeError>) {
        top_decode_from_nested(input)
    }

    fn top_decode_boxed<I: TopDecodeInput>(input: I) -> (r: Result<Box<Self>, DecodeError>) {
        match Self::top_decode(input) {
            Ok(value) => Ok(Box::new(value)),
            Err(e) => Err(e),
        }
    }
}

impl<T0: NestedEncode> TopEncode for (T0,) {
    const TYPE_INFO: TypeInfo = TypeInfo::Unknown;

    open spec fn top_encodable(&self) -> bool {
        self.dep_encodable()
    }

    /// A tuple that is a whole payload is its nested encoding.
    open spec fn top_encoding(&self) -> Seq<u8> {
        self.dep_encoding()
    }

    fn top_encode<O: TopEncodeOutput>(&self, output: &mut O) -> (r: Result<(), EncodeError>) {
        top_encode_from_nested(self, output)
    }
}

impl<T0: NestedRoundTrip> TopRoundTrip for (T0,) {
    open spec fn top_delimited(&self) -> bool {
        true
    }

    proof fn lemma_top_round_trip(value: Self) {
        lemma_exact_round_trip::<Self>(value);
    }
}

/// Writes the encodings of 2 fields, one after the other.
fn dep_encode_fields_2<
    T0: NestedEncode,
    T1: NestedEncode,
    O: NestedEncodeOutput,
>(
    f0: &T0,
    f1: &T1,
    dest: &mut O,
) -> (r: Result<(), EncodeError>)
    ensures
        match r {
            Ok(_) => (*f0, *f1).dep_encodable()
                && final(dest).written() == old(dest).written()
                + (*f0, *f1).dep_encoding(),
            Err(e) => !(*f0, *f1).dep_encodable()
                && e == EncodeError::UNSUPPORTED_OPERATION
                && old(dest).written().is_prefix_of(final(dest).written()),
        },
{
    let ghost start = dest.written();
    let ghost init = (*f0,);
    match f0.dep_encode(dest) {
        Ok(_) => {},
        Err(e) => {
            return Err(e);
        },
    }
    let ghost middle = dest.written();
    let r = f1.dep_encode(dest);
    proof {
        assert(start.is_prefix_of(middle));
        if r is Ok {
            assert((start + init.dep_encoding()) + f1.dep_encoding() =~= start + (
            init.dep_encoding() + f1.dep_encoding()));
        } else {
            assert(start.is_prefix_of(dest.written()));
        }
    }
    r
}

impl<T0: NestedDecode, T1: NestedDecode> NestedDecode for (T0, T1) {
    const TYPE_INFO: TypeInfo = TypeInfo::Unknown;

    /// The last field follows the fields in front of it, with nothing in between.
    open spec fn dep_decoding(input: Seq<u8>) -> (
        Result<
            (
                T0::V,
                T1::V,
            ),
            DecodeError,
        >,
        nat,
    ) {
        match <(T0,)>::dep_decoding(input) {
            (Ok(init), n) => match T1::dep_decoding(input.skip(n as int)) {
                (Ok(last), m) => (Ok((init.0, last)), n + m),
                (Err(e), m) => (Err(e), n + m),
            },
            (Err(e), n) => (Err(e), n),
        }
    }

    proof fn lemma_dep_decoding_consumed(input: Seq<u8>) {
        <(T0,)>::lemma_dep_decoding_consumed(input);
        let n = <(T0,)>::dep_decoding(input).1;
        T1::lemma_dep_decoding_consumed(input.skip(n as int));
    }

    proof fn lemma_byte_classified(input: Seq<u8>) {
    }

    fn dep_decode(input: &mut &[u8]) -> (r: Result<Self, DecodeError>) {
        let ghost start = (*input)@;
        let ghost n = <(T0,)>::dep_decoding(start).1;
        let ghost m = T1::dep_decoding(start.skip(n as int)).1;
        proof {
            <(T0,)>::lemma_dep_decoding_consumed(start);
            T1::lemma_dep_decoding_consumed(start.skip(n as int));
            assert(start.skip(n as int).skip(m as int) =~= start.skip((n + m) as int));
        }
        let init = match <(T0,)>::dep_decode(input) {
            Ok(init) => init,
            Err(e) => {
                return Err(e);
            },
        };
        match T1::dep_decode(input) {
            Ok(last) => Ok((init.0, last)),
            Err(e) => Err(e),
        }
    }
}

impl<T0: NestedEncode, T1: NestedEncode> NestedEncode for (T0, T1) {
    const TYPE_INFO: TypeInfo = TypeInfo::Unknown;

    open spec fn dep_encodable(&self) -> bool {
        (self.0,).dep_encodable()
            && self.1.dep_encodable()
    }

    /// The encoding of the last field follows the encoding of the fields in
    /// front of it.
    open spec fn dep_encoding(&self) -> Seq<u8> {
        (self.0,).dep_encoding()
            + self.1.dep_encoding()
    }

    fn dep_encode<O: NestedEncodeOutput>(&self, dest: &mut O) -> (r: Result<(), EncodeError>) {
        dep_encode_fields_2(&self.0, &self.1, dest)
    }
}

impl<T0: NestedRoundTrip, T1: NestedRoundTrip> NestedRoundTrip for (T0, T1) {
    proof fn lemma_dep_round_trip(value: Self, rest: Seq<u8>) {
        let init = (value.0,);
        let input = value.dep_encoding() + rest;
        let behind = value.1.dep_encoding() + rest;
        assert(input =~= init.dep_encoding() + behind);
        <(T0,)>::lemma_dep_round_trip(init, behind);
        assert(input.skip(init.dep_encoding().len() as int) =~= behind);
        T1::lemma_dep_round_trip(value.1, rest);
    }
}

impl<T0: NestedDecode, T1: NestedDecode> TopDecode for (T0, T1) {
    const TYPE_INFO: TypeInfo = TypeInfo::Unknown;

    open spec fn top_decoding(bytes: Seq<u8>) -> Result<(T0::V, T1::V), DecodeError> {
        dep_decoding_exact::<Self>(bytes)
    }

    open spec fn top_decoding_boxed(bytes: Seq<u8>) -> Result<(T0::V, T1::V), DecodeError> {
        Self::top_decoding(bytes)
    }

    fn top_decode<I: TopDecodeInput>(input: I) -> (r: Result<Self, DecodeError>) {
        top_decode_from_nested(input)
    }

    fn top_decode_boxed<I: TopDecodeInput>(input: I) -> (r: Result<Box<Self>, DecodeError>) {
        match Self::top_decode(input) {
            Ok(value) => Ok(Box::new(value)),
            Err(e) => Err(e),
        }
    }
}

impl<T0: NestedEncode, T1: NestedEncode> TopEncode for (T0, T1) {
    const TYPE_INFO: TypeInfo = TypeInfo::Unknown;

    open spec fn top_encodable(&self) -> bool {
        self.dep_encodable()
    }

    open spec fn top_encoding(&self) -> Seq<u8> {
        self.dep_encoding()
    }

    fn top_encode<O: TopEncodeOutput>(&self, output: &mut O) -> (r: Result<(), EncodeError>) {
        top_encode_from_nested(self, output)
    }
}

impl<T0: NestedRoundTrip, T1: NestedRoundTrip> TopRoundTrip for (T0, T1) {
    open spec fn top_delimited(&self) -> bool {
        true
    }

    proof fn lemma_top_round_trip(value: Self) {
        lemma_exact_round_trip::<Self>(value);
    }
}

/// Writes the encodings of 3 fields, one after the other.
fn dep_encode_fields_3<
    T0: NestedEncode,
    T1: NestedEncode,
    T2: NestedEncode,
    O: NestedEncodeOutput,
>(
    f0: &T0,
    f1: &T1,
    f2: &T2,
    dest: &mut O,
) -> (r: Result<(), EncodeError>)
    ensures
        match r {
            Ok(_) => (*f0, *f1, *f2).dep_encodable()
                && final(dest).written() == old(dest).written()
                + (*f0, *f1, *f2).dep_encoding(),
            Err(e) => !(*f0, *f1, *f2).dep_encodable()
                && e == EncodeError::UNSUPPORTED_OPERATION
                && old(dest).written().is_prefix_of(final(dest).written()),
        },
{
    let ghost start = dest.written();
    let ghost init = (*f0, *f1);
    match dep_encode_fields_2(f0, f1, dest) {
        Ok(_) => {},
        Err(e) => {
            return Err(e);
        },
    }
    let ghost middle = dest.written();
    let r = f2.dep_encode(dest);
    proof {
        assert(start.is_prefix_of(middle));
        if r is Ok {
            assert((start + init.dep_encoding()) + f2.dep_encoding() =~= start + (
            init.dep_encoding() + f2.dep_encoding()));
        } else {
            assert(start.is_prefix_of(dest.written()));
        }
    }
    r
}

impl<T0: NestedDecode, T1: NestedDecode, T2: NestedDecode> NestedDecode for (T0, T1, T2) {
    const TYPE_INFO: TypeInfo = TypeInfo::Unknown;

    /// The last field follows the fields in front of it, with nothing in between.
    open spec fn dep_decoding(input: Seq<u8>) -> (
        Result<
            (
                T0::V,
                T1::V,
                T2::V,
            ),
            DecodeError,
        >,
        nat,
    ) {
        match <(T0, T1)>::dep_decoding(input) {
            (Ok(init), n) => match T2::dep_decoding(input.skip(n as int)) {
                (Ok(last), m) => (Ok((init.0, init.1, last)), n + m),
                (Err(e), m) => (Err(e), n + m),
            },
            (Err(e), n) => (Err(e), n),
        }
    }

    proof fn lemma_dep_decoding_consumed(input: Seq<u8>) {
        <(T0, T1)>::lemma_dep_decoding_consumed(input);
        let n = <(T0, T1)>::dep_decoding(input).1;
        T2::lemma_dep_decoding_consumed(input.skip(n as int));
    }

    proof fn lemma_byte_classified(input: Seq<u8>) {
    }

    fn dep_decode(input: &mut &[u8]) -> (r: Result<Self, DecodeError>) {
        let ghost start = (*input)@;
        let ghost n = <(T0, T1)>::dep_decoding(start).1;
        let ghost m = T2::dep_decoding(start.skip(n as int)).1;
        proof {
            <(T0, T1)>::lemma_dep_decoding_consumed(start);
            T2::lemma_dep_decoding_consumed(start.skip(n as int));
            assert(start.skip(n as int).skip(m as int) =~= start.skip((n + m) as int));
        }
        let init = match <(T0, T1)>::dep_decode(input) {
            Ok(init) => init,
            Err(e) => {
                return Err(e);
            },
        };
        match T2::dep_decode(input) {
            Ok(last) => Ok((init.0, init.1, last)),
            Err(e) => Err(e),
        }
    }
}

impl<T0: NestedEncode, T1: NestedEncode, T2: NestedEncode> NestedEncode for (T0, T1, T2) {
    const TYPE_INFO: TypeInfo = TypeInfo::Unknown;

    open spec fn dep_encodable(&self) -> bool {
        (self.0, self.1).dep_encodable()
            && self.2.dep_encodable()
    }

    /// The encoding of the last field follows the encoding of the fields in
    /// front of it.
    open spec fn dep_encoding(&self) -> Seq<u8> {
        (self.0, self.1).dep_encoding()
            + self.2.dep_encoding()
    }

    fn dep_encode<O: NestedEncodeOutput>(&self, dest: &mut O) -> (r: Result<(), EncodeError>) {
        dep_encode_fields_3(&self.0, &self.1, &self.2, dest)
    }
}

impl<
    T0: NestedRoundTrip,
    T1: NestedRoundTrip,
    T2: NestedRoundTrip,
> NestedRoundTrip for (T0, T1, T2) {
    proof fn lemma_dep_round_trip(value: Self, rest: Seq<u8>) {
        let init = (value.0, value.1);
        let input = value.dep_encoding() + rest;
        let behind = value.2.dep_encoding() + rest;
        assert(input =~= init.dep_encoding() + behind);
        <(T0, T1)>::lemma_dep_round_trip(init, behind);
        assert(input.skip(init.dep_encoding().len() as int) =~= behind);
        T2::lemma_dep_round_trip(value.2, rest);
    }
}

impl<T0: NestedDecode, T1: NestedDecode, T2: NestedDecode> TopDecode for (T0, T1, T2) {
    const TYPE_INFO: TypeInfo = TypeInfo::Unknown;

    open spec fn top_decoding(bytes: Seq<u8>) -> Result<
        (
            T0::V,
            T1::V,
            T2::V,
        ),
        DecodeError,
    > {
        dep_decoding_exact::<Self>(bytes)
    }

    open spec fn top_decoding_boxed(bytes: Seq<u8>) -> Result<
        (
            T0::V,
            T1::V,
            T2::V,
        ),
        DecodeError,
    > {
        Self::top_decoding(bytes)
    }

    fn top_decode<I: TopDecodeInput>(input: I) -> (r: Result<Self, DecodeError>) {
        top_decode_from_nested(input)
    }

    fn top_decode_boxed<I: TopDecodeInput>(input: I) -> (r: Result<Box<Self>, DecodeError>) {
        match Self::top_decode(input) {
            Ok(value) => Ok(Box::new(value)),
            Err(e) => Err(e),
        }
    }
}

impl<T0: NestedEncode, T1: NestedEncode, T2: NestedEncode> TopEncode for (T0, T1, T2) {
    const TYPE_INFO: TypeInfo = TypeInfo::Unknown;

    open spec fn top_encodable(&self) -> bool {
        self.dep_encodable()
    }

    open spec fn top_encoding(&self) -> Seq<u8> {
        self.dep_encoding()
    }

    fn top_encode<O: TopEncodeOutput>(&self, output: &mut O) -> (r: Result<(), EncodeError>) {
        top_encode_from_nested(self, output)
    }
}

impl<
    T0: NestedRoundTrip,
    T1: NestedRoundTrip,
    T2: NestedRoundTrip,
> TopRoundTrip for (T0, T1, T2) {
    open spec fn top_delimited(&self) -> bool {
        true
    }

    proof fn lemma_top_round_trip(value: Self) {
        lemma_exact_round_trip::<Self>(value);
    }
}

/// Writes the encodings of 4 fields, one after the other.
fn dep_encode_fields_4<
    T0: NestedEncode,
    T1: NestedEncode,
    T2: NestedEncode,
    T3: NestedEncode,
    O: NestedEncodeOutput,
>(
    f0: &T0,
    f1: &T1,
    f2: &T2,
    f3: &T3,
    dest: &mut O,
) -> (r: Result<(), EncodeError>)
    ensures
        match r {
            Ok(_) => (*f0, *f1, *f2, *f3).dep_encodable()
                && final(dest).written() == old(dest).written()
                + (*f0, *f1, *f2, *f3).dep_encoding(),
            Err(e) => !(*f0, *f1, *f2, *f3).dep_encodable()
                && e == EncodeError::UNSUPPORTED_OPERATION
                && old(dest).written().is_prefix_of(final(dest).written()),
        },
{
    let ghost start = dest.written();
    let ghost init = (*f0, *f1, *f2);
    match dep_encode_fields_3(f0, f1, f2, dest) {
        Ok(_) => {},
        Err(e) => {
            return Err(e);
        },
    }
    let ghost middle = dest.written();
    let r = f3.dep_encode(dest);
    proof {
        assert(start.is_prefix_of(middle));
        if r is Ok {
            assert((start + init.dep_encoding()) + f3.dep_encoding() =~= start + (
            init.dep_encoding() + f3.dep_encoding()));
        } else {
            assert(start.is_prefix_of(dest.written()));
        }
    }
    r
}

impl<
    T0: NestedDecode,
    T1: NestedDecode,
    T2: NestedDecode,
    T3: NestedDecode,
> NestedDecode for (T0, T1, T2, T3) {
    const TYPE_INFO: TypeInfo = TypeInfo::Unknown;

    /// The last field follows the fields in front of it, with nothing in between.
    open spec fn dep_decoding(input: Seq<u8>) -> (
        Result<
            (
                T0::V,
                T1::V,
                T2::V,
                T3::V,
            ),
            DecodeError,
        >,
        nat,
    ) {
        match <(T0, T1, T2)>::dep_decoding(input) {
            (Ok(init), n) => match T3::dep_decoding(input.skip(n as int)) {
                (Ok(last), m) => (Ok((init.0, init.1, init.2, last)), n + m),
                (Err(e), m) => (Err(e), n + m),
            },
            (Err(e), n) => (Err(e), n),
        }
    }

    proof fn lemma_dep_decoding_consumed(input: Seq<u8>) {
        <(T0, T1, T2)>::lemma_dep_decoding_consumed(input);
        let n = <(T0, T1, T2)>::dep_decoding(input).1;
        T3::lemma_dep_decoding_consumed(input.skip(n as int));
    }

    proof fn lemma_byte_classified(input: Seq<u8>) {
    }

    fn dep_decode(input: &mut &[u8]) -> (r: Result<Self, DecodeError>) {
        let ghost start = (*input)@;
        let ghost n = <(T0, T1, T2)>::dep_decoding(start).1;
        let ghost m = T3::dep_decoding(start.skip(n as int)).1;
        proof {
            <(T0, T1, T2)>::lemma_dep_decoding_consumed(start);
            T3::lemma_dep_decoding_consumed(start.skip(n as int));
            assert(start.skip(n as int).skip(m as int) =~= start.skip((n + m) as int));
        }
        let init = match <(T0, T1, T2)>::dep_decode(input) {
            Ok(init) => init,
            Err(e) => {
                return Err(e);
            },
        };
        match T3::dep_decode(input) {
            Ok(last) => Ok((init.0, init.1, init.2, last)),
            Err(e) => Err(e),
        }
    }
}

impl<
    T0: NestedEncode,
    T1: NestedEncode,
    T2: NestedEncode,
    T3: NestedEncode,
> NestedEncode for (T0, T1, T2, T3) {
    const TYPE_INFO: TypeInfo = TypeInfo::Unknown;

    open spec fn dep_encodable(&self) -> bool {
        (self.0, self.1, self.2).dep_encodable()
            && self.3.dep_encodable()
    }

    /// The encoding of the last field follows the encoding of the fields in
    /// front of it.
    open spec fn dep_encoding(&self) -> Seq<u8> {
        (self.0, self.1, self.2).dep_encoding()
            + self.3.dep_encoding()
    }

    fn dep_encode<O: NestedEncodeOutput>(&self, dest: &mut O) -> (r: Result<(), EncodeError>) {
        dep_encode_fields_4(&self.0, &self.1, &self.2, &self.3, dest)
    }
}

impl<
    T0: NestedRoundTrip,
    T1: NestedRoundTrip,
    T2: NestedRoundTrip,
    T3: NestedRoundTrip,
> NestedRoundTrip for (T0, T1, T2, T3) {
    proof fn lemma_dep_round_trip(value: Self, rest: Seq<u8>) {
        let init = (value.0, value.1, value.2);
        let input = value.dep_encoding() + rest;
        let behind = value.3.dep_encoding() + rest;
        assert(input =~= init.dep_encoding() + behind);
        <(T0, T1, T2)>::lemma_dep_round_trip(init, behind);
        assert(input.skip(init.dep_encoding().len() as int) =~= behind);
        T3::lemma_dep_round_trip(value.3, rest);
    }
}

impl<
    T0: NestedDecode,
    T1: NestedDecode,
    T2: NestedDecode,
    T3: NestedDecode,
> TopDecode for (T0, T1, T2, T3) {
    const TYPE_INFO: TypeInfo = TypeInfo::Unknown;

    open spec fn top_decoding(bytes: Seq<u8>) -> Result<
        (
            T0::V,
            T1::V,
            T2::V,
            T3::V,
        ),
        DecodeError,
    > {
        dep_decoding_exact::<Self>(bytes)
    }

    open spec fn top_decoding_boxed(bytes: Seq<u8>) -> Result<
        (
            T0::V,
            T1::V,
            T2::V,
            T3::V,
        ),
        DecodeError,
    > {
        Self::top_decoding(bytes)
    }

    fn top_decode<I: TopDecodeInput>(input: I) -> (r: Result<Self, DecodeError>) {
        top_decode_from_nested(input)
    }

    fn top_decode_boxed<I: TopDecodeInput>(input: I) -> (r: Result<Box<Self>, DecodeError>) {
        match Self::top_decode(input) {
            Ok(value) => Ok(Box::new(value)),
            Err(e) => Err(e),
        }
    }
}

impl<
    T0: NestedEncode,
    T1: NestedEncode,
    T2: NestedEncode,
    T3: NestedEncode,
> TopEncode for (T0, T1, T2, T3) {
    const TYPE_INFO: TypeInfo = TypeInfo::Unknown;

    open spec fn top_encodable(&self) -> bool {
        self.dep_encodable()
    }

    open spec fn top_encoding(&self) -> Seq<u8> {
        self.dep_encoding()
    }

    fn top_encode<O: TopEncodeOutput>(&self, output: &mut O) -> (r: Result<(), EncodeError>) {
        top_encode_from_nested(self, output)
    }
}

impl<
    T0: NestedRoundTrip,
    T1: NestedRoundTrip,
    T2: NestedRoundTrip,
    T3: NestedRoundTrip,
> TopRoundTrip for (T0, T1, T2, T3) {
    open spec fn top_delimited(&self) -> bool {
        true
    }

    proof fn lemma_top_round_trip(value: Self) {
        lemma_exact_round_trip::<Self>(value);
    }
}

/// Writes the encodings of 5 fields, one after the other.
fn dep_encode_fields_5<
    T0: NestedEncode,
    T1: NestedEncode,
    T2: NestedEncode,
    T3: NestedEncode,
    T4: NestedEncode,
    O: NestedEncodeOutput,
>(
    f0: &T0,
    f1: &T1,
    f2: &T2,
    f3: &T3,
    f4: &T4,
    dest: &mut O,
) -> (r: Result<(), EncodeError>)
    ensures
        match r {
            Ok(_) => (*f0, *f1, *f2, *f3, *f4).dep_encodable()
                && final(dest).written() == old(dest).written()
                + (*f0, *f1, *f2, *f3, *f4).dep_encoding(),
            Err(e) => !(*f0, *f1, *f2, *f3, *f4).dep_encodable()
                && e == EncodeError::UNSUPPORTED_OPERATION
                && old(dest).written().is_prefix_of(final(dest).written()),
        },
{
    let ghost start = dest.written();
    let ghost init = (*f0, *f1, *f2, *f3);
    match dep_encode_fields_4(f0, f1, f2, f3, dest) {
        Ok(_) => {},
        Err(e) => {
            return Err(e);
        },
    }
    let ghost middle = dest.written();
    let r = f4.dep_encode(dest);
    proof {
        assert(start.is_prefix_of(middle));
        if r is Ok {
            assert((start + init.dep_encoding()) + f4.dep_encoding() =~= start + (
            init.dep_encoding() + f4.dep_encoding()));
        } else {
            assert(start.is_prefix_of(dest.written()));
        }
    }
    r
}

impl<
    T0: NestedDecode,
    T1: NestedDecode,
    T2: NestedDecode,
    T3: NestedDecode,
    T4: NestedDecode,
> NestedDecode for (T0, T1, T2, T3, T4) {
    const TYPE_INFO: TypeInfo = TypeInfo::Unknown;

    /// The last field follows the fields in front of it, with nothing in between.
    open spec fn dep_decoding(input: Seq<u8>) -> (
        Result<
            (
                T0::V,
                T1::V,
                T2::V,
                T3::V,
                T4::V,
            ),
            DecodeError,
        >,
        nat,
    ) {
        match <(T0, T1, T2, T3)>::dep_decoding(input) {
            (Ok(init), n) => match T4::dep_decoding(input.skip(n as int)) {
                (Ok(last), m) => (Ok((init.0, init.1, init.2, init.3, last)), n + m),
                (Err(e), m) => (Err(e), n + m),
            },
            (Err(e), n) => (Err(e), n),
        }
    }

    proof fn lemma_dep_decoding_consumed(input: Seq<u8>) {
        <(T0, T1, T2, T3)>::lemma_dep_decoding_consumed(input);
        let n = <(T0, T1, T2, T3)>::dep_decoding(input).1;
        T4::lemma_dep_decoding_consumed(input.skip(n as int));
    }

    proof fn lemma_byte_classified(input: Seq<u8>) {
    }

    fn dep_decode(input: &mut &[u8]) -> (r: Result<Self, DecodeError>) {
        let ghost start = (*input)@;
        let ghost n = <(T0, T1, T2, T3)>::dep_decoding(start).1;
        let ghost m = T4::dep_decoding(start.skip(n as int)).1;
        proof {
            <(T0, T1, T2, T3)>::lemma_dep_decoding_consumed(start);
            T4::lemma_dep_decoding_consumed(start.skip(n as int));
            assert(start.skip(n as int).skip(m as int) =~= start.skip((n + m) as int));
        }
        let init = match <(T0, T1, T2, T3)>::dep_decode(input) {
            Ok(init) => init,
            Err(e) => {
                return Err(e);
            },
        };
        match T4::dep_decode(input) {
            Ok(last) => Ok((init.0, init.1, init.2, init.3, last)),
            Err(e) => Err(e),
        }
    }
}

impl<
    T0: NestedEncode,
    T1: NestedEncode,
    T2: NestedEncode,
    T3: NestedEncode,
    T4: NestedEncode,
> NestedEncode for (T0, T1, T2, T3, T4) {
    const TYPE_INFO: TypeInfo = TypeInfo::Unknown;

    open spec fn dep_encodable(&self) -> bool {
        (self.0, self.1, self.2, self.3).dep_encodable()
            && self.4.dep_encodable()
    }

    /// The encoding of the last field follows the encoding of the fields in
    /// front of it.
    open spec fn dep_encoding(&self) -> Seq<u8> {
        (self.0, self.1, self.2, self.3).dep_encoding()
            + self.4.dep_encoding()
    }

    fn dep_encode<O: NestedEncodeOutput>(&self, dest: &mut O) -> (r: Result<(), EncodeError>) {
        dep_encode_fields_5(&self.0, &self.1, &self.2, &self.3, &self.4, dest)
    }
}

impl<
    T0: NestedRoundTrip,
    T1: NestedRoundTrip,
    T2: NestedRoundTrip,
    T3: NestedRoundTrip,
    T4: NestedRoundTrip,
> NestedRoundTrip for (T0, T1, T2, T3, T4) {
    proof fn lemma_dep_round_trip(value: Self, rest: Seq<u8>) {
        let init = (value.0, value.1, value.2, value.3);
        let input = value.dep_encoding() + rest;
        let behind = value.4.dep_encoding() + rest;
        assert(input =~= init.dep_encoding() + behind);
        <(T0, T1, T2, T3)>::lemma_dep_round_trip(init, behind);
        assert(input.skip(init.dep_encoding().len() as int) =~= behind);
        T4::lemma_dep_round_trip(value.4, rest);
    }
}

impl<
    T0: NestedDecode,
    T1: NestedDecode,
    T2: NestedDecode,
    T3: NestedDecode,
    T4: NestedDecode,
> TopDecode for (T0, T1, T2, T3, T4) {
    const TYPE_INFO: TypeInfo = TypeInfo::Unknown;

    open spec fn top_decoding(bytes: Seq<u8>) -> Result<
        (
            T0::V,
            T1::V,
            T2::V,
            T3::V,
            T4::V,
        ),
        DecodeError,
    > {
        dep_decoding_exact::<Self>(bytes)
    }

    open spec fn top_decoding_boxed(bytes: Seq<u8>) -> Result<
        (
            T0::V,
            T1::V,
            T2::V,
            T3::V,
            T4::V,
        ),
        DecodeError,
    > {
        Self::top_decoding(bytes)
    }

    fn top_decode<I: TopDecodeInput>(input: I) -> (r: Result<Self, DecodeError>) {
        top_decode_from_nested(input)
    }

    fn top_decode_boxed<I: TopDecodeInput>(input: I) -> (r: Result<Box<Self>, DecodeError>) {
        match Self::top_decode(input) {
            Ok(value) => Ok(Box::new(value)),
            Err(e) => Err(e),
        }
    }
}

impl<
    T0: NestedEncode,
    T1: NestedEncode,
    T2: NestedEncode,
    T3: NestedEncode,
    T4: NestedEncode,
> TopEncode for (T0, T1, T2, T3, T4) {
    const TYPE_INFO: TypeInfo = TypeInfo::Unknown;

    open spec fn top_encodable(&self) -> bool {
        self.dep_encodable()
    }

    open spec fn top_encoding(&self) -> Seq<u8> {
        self.dep_encoding()
    }

    fn top_encode<O: TopEncodeOutput>(&self, output: &mut O) -> (r: Result<(), EncodeError>) {
        top_encode_from_nested(self, output)
    }
}

impl<
    T0: NestedRoundTrip,
    T1: NestedRoundTrip,
    T2: NestedRoundTrip,
    T3: NestedRoundTrip,
    T4: NestedRoundTrip,
> TopRoundTrip for (T0, T1, T2, T3, T4) {
    open spec fn top_delimited(&self) -> bool {
        true
    }

    proof fn lemma_top_round_trip(value: Self) {
        lemma_exact_round_trip::<Self>(value);
    }
}

/// Writes the encodings of 6 fields, one after the other.
fn dep_encode_fields_6<
    T0: NestedEncode,
    T1: NestedEncode,
    T2: NestedEncode,
    T3: NestedEncode,
    T4: NestedEncode,
    T5: NestedEncode,
    O: NestedEncodeOutput,
>(
    f0: &T0,
    f1: &T1,
    f2: &T2,
    f3: &T3,
    f4: &T4,
    f5: &T5,
    dest: &mut O,
) -> (r: Result<(), EncodeError>)
    ensures
        match r {
            Ok(_) => (*f0, *f1, *f2, *f3, *f4, *f5).dep_encodable()
                && final(dest).written() == old(dest).written()
                + (*f0, *f1, *f2, *f3, *f4, *f5).dep_encoding(),
            Err(e) => !(*f0, *f1, *f2, *f3, *f4, *f5).dep_encodable()
                && e == EncodeError::UNSUPPORTED_OPERATION
                && old(dest).written().is_prefix_of(final(dest).written()),
        },
{
    let ghost start = dest.written();
    let ghost init = (*f0, *f1, *f2, *f3, *f4);
    match dep_encode_fields_5(f0, f1, f2, f3, f4, dest) {
        Ok(_) => {},
        Err(e) => {
            return Err(e);
        },
    }
    let ghost middle = dest.written();
    let r = f5.dep_encode(dest);
    proof {
        assert(start.is_prefix_of(middle));
        if r is Ok {
            assert((start + init.dep_encoding()) + f5.dep_encoding() =~= start + (
            init.dep_encoding() + f5.dep_encoding()));
        } else {
            assert(start.is_prefix_of(dest.written()));
        }
    }
    r
}

impl<
    T0: NestedDecode,
    T1: NestedDecode,
    T2: NestedDecode,
    T3: NestedDecode,
    T4: NestedDecode,
    T5: NestedDecode,
> NestedDecode for (T0, T1, T2, T3, T4, T5) {
    const TYPE_INFO: TypeInfo = TypeInfo::Unknown;

    /// The last field follows the fields in front of it, with nothing in between.
    open spec fn dep_decoding(input: Seq<u8>) -> (
        Result<
            (
                T0::V,
                T1::V,
                T2::V,
                T3::V,
                T4::V,
                T5::V,
            ),
            DecodeError,
        >,
        nat,
    ) {
        match <(T0, T1, T2, T3, T4)>::dep_decoding(input) {
            (Ok(init), n) => match T5::dep_decoding(input.skip(n as int)) {
                (Ok(last), m) => (Ok((
                    init.0,
                    init.1,
                    init.2,
                    init.3,
                    init.4,
                    last,
                )), n + m),
                (Err(e), m) => (Err(e), n + m),
            },
            (Err(e), n) => (Err(e), n),
        }
    }

    proof fn lemma_dep_decoding_consumed(input: Seq<u8>) {
        <(T0, T1, T2, T3, T4)>::lemma_dep_decoding_consumed(input);
        let n = <(T0, T1, T2, T3, T4)>::dep_decoding(input).1;
        T5::lemma_dep_decoding_consumed(input.skip(n as int));
    }

    proof fn lemma_byte_classified(input: Seq<u8>) {
    }

    fn dep_decode(input: &mut &[u8]) -> (r: Result<Self, DecodeError>) {
        let ghost start = (*input)@;
        let ghost n = <(T0, T1, T2, T3, T4)>::dep_decoding(start).1;
        let ghost m = T5::dep_decoding(start.skip(n as int)).1;
        proof {
            <(T0, T1, T2, T3, T4)>::lemma_dep_decoding_consumed(start);
            T5::lemma_dep_decoding_consumed(start.skip(n as int));
            assert(start.skip(n as int).skip(m as int) =~= start.skip((n + m) as int));
        }
        let init = match <(T0, T1, T2, T3, T4)>::dep_decode(input) {
            Ok(init) => init,
            Err(e) => {
                return Err(e);
            },
        };
        match T5::dep_decode(input) {
            Ok(last) => Ok((init.0, init.1, init.2, init.3, init.4, last)),
            Err(e) => Err(e),
        }
    }
}

impl<
    T0: NestedEncode,
    T1: NestedEncode,
    T2: NestedEncode,
    T3: NestedEncode,
    T4: NestedEncode,
    T5: NestedEncode,
> NestedEncode for (T0, T1, T2, T3, T4, T5) {
    const TYPE_INFO: TypeInfo = TypeInfo::Unknown;

    open spec fn dep_encodable(&self) -> bool {
        (self.0, self.1, self.2, self.3, self.4).dep_encodable()
            && self.5.dep_encodable()
    }

    /// The encoding of the last field follows the encoding of the fields in
    /// front of it.
    open spec fn dep_encoding(&self) -> Seq<u8> {
        (self.0, self.1, self.2, self.3, self.4).dep_encoding()
            + self.5.dep_encoding()
    }

    fn dep_encode<O: NestedEncodeOutput>(&self, dest: &mut O) -> (r: Result<(), EncodeError>) {
        dep_encode_fields_6(&self.0, &self.1, &self.2, &self.3, &self.4, &self.5, dest)
    }
}

impl<
    T0: NestedRoundTrip,
    T1: NestedRoundTrip,
    T2: NestedRoundTrip,
    T3: NestedRoundTrip,
    T4: NestedRoundTrip,
    T5: NestedRoundTrip,
> NestedRoundTrip for (T0, T1, T2, T3, T4, T5) {
    proof fn lemma_dep_round_trip(value: Self, rest: Seq<u8>) {
        let init = (value.0, value.1, value.2, value.3, value.4);
        let input = value.dep_encoding() + rest;
        let behind = value.5.dep_encoding() + rest;
        assert(input =~= init.dep_encoding() + behind);
        <(T0, T1, T2, T3, T4)>::lemma_dep_round_trip(init, behind);
        assert(input.skip(init.dep_encoding().len() as int) =~= behind);
        T5::lemma_dep_round_trip(value.5, rest);
    }
}

impl<
    T0: NestedDecode,
    T1: NestedDecode,
    T2: NestedDecode,
    T3: NestedDecode,
    T4: NestedDecode,
    T5: NestedDecode,
> TopDecode for (T0, T1, T2, T3, T4, T5) {
    const TYPE_INFO: TypeInfo = TypeInfo::Unknown;

    open spec fn top_decoding(bytes: Seq<u8>) -> Result<
        (
            T0::V,
            T1::V,
            T2::V,
            T3::V,
            T4::V,
            T5::V,
        ),
        DecodeError,
    > {
        dep_decoding_exact::<Self>(bytes)
    }

    open spec fn top_decoding_boxed(bytes: Seq<u8>) -> Result<
        (
            T0::V,
            T1::V,
            T2::V,
            T3::V,
            T4::V,
            T5::V,
        ),
        DecodeError,
    > {
        Self::top_decoding(bytes)
    }

    fn top_decode<I: TopDecodeInput>(input: I) -> (r: Result<Self, DecodeError>) {
        top_decode_from_nested(input)
    }

    fn top_decode_boxed<I: TopDecodeInput>(input: I) -> (r: Result<Box<Self>, DecodeError>) {
        match Self::top_decode(input) {
            Ok(value) => Ok(Box::new(value)),
            Err(e) => Err(e),
        }
    }
}

impl<
    T0: NestedEncode,
    T1: NestedEncode,
    T2: NestedEncode,
    T3: NestedEncode,
    T4: NestedEncode,
    T5: NestedEncode,
> TopEncode for (T0, T1, T2, T3, T4, T5) {
    const TYPE_INFO: TypeInfo = TypeInfo::Unknown;

    open spec fn top_encodable(&self) -> bool {
        self.dep_encodable()
    }

    open spec fn top_encoding(&self) -> Seq<u8> {
        self.dep_encoding()
    }

    fn top_encode<O: TopEncodeOutput>(&self, output: &mut O) -> (r: Result<(), EncodeError>) {
        top_encode_from_nested(self, output)
    }
}

impl<
    T0: NestedRoundTrip,
    T1: NestedRoundTrip,
    T2: NestedRoundTrip,
    T3: NestedRoundTrip,
    T4: NestedRoundTrip,
    T5: NestedRoundTrip,
> TopRoundTrip for (T0, T1, T2, T3, T4, T5) {
    open spec fn top_delimited(&self) -> bool {
        true
    }

    proof fn lemma_top_round_trip(value: Self) {
        lemma_exact_round_trip::<Self>(value);
    }
}

/// Writes the encodings of 7 fields, one after the other.
fn dep_encode_fields_7<
    T0: NestedEncode,
    T1: NestedEncode,
    T2: NestedEncode,
    T3: NestedEncode,
    T4: NestedEncode,
    T5: NestedEncode,
    T6: NestedEncode,
    O: NestedEncodeOutput,
>(
    f0: &T0,
    f1: &T1,
    f2: &T2,
    f3: &T3,
    f4: &T4,
    f5: &T5,
    f6: &T6,
    dest: &mut O,
) -> (r: Result<(), EncodeError>)
    ensures
        match r {
            Ok(_) => (*f0, *f1, *f2, *f3, *f4, *f5, *f6).dep_encodable()
                && final(dest).written() == old(dest).written()
                + (*f0, *f1, *f2, *f3, *f4, *f5, *f6).dep_encoding(),
            Err(e) => !(*f0, *f1, *f2, *f3, *f4, *f5, *f6).dep_encodable()
                && e == EncodeError::UNSUPPORTED_OPERATION
                && old(dest).written().is_prefix_of(final(dest).written()),
        },
{
    let ghost start = dest.written();
    let ghost init = (*f0, *f1, *f2, *f3, *f4, *f5);
    match dep_encode_fields_6(f0, f1, f2, f3, f4, f5, dest) {
        Ok(_) => {},
        Err(e) => {
            return Err(e);
        },
    }
    let ghost middle = dest.written();
    let r = f6.dep_encode(dest);
    proof {
        assert(start.is_prefix_of(middle));
        if r is Ok {
            assert((start + init.dep_encoding()) + f6.dep_encoding() =~= start + (
            init.dep_encoding() + f6.dep_encoding()));
        } else {
            assert(start.is_prefix_of(dest.written()));
        }
    }
    r
}

impl<
    T0: NestedDecode,
    T1: NestedDecode,
    T2: NestedDecode,
    T3: NestedDecode,
    T4: NestedDecode,
    T5: NestedDecode,
    T6: NestedDecode,
> NestedDecode for (T0, T1, T2, T3, T4, T5, T6) {
    const TYPE_INFO: TypeInfo = TypeInfo::Unknown;

    /// The last field follows the fields in front of it, with nothing in between.
    open spec fn dep_decoding(input: Seq<u8>) -> (
        Result<
            (
                T0::V,
                T1::V,
                T2::V,
                T3::V,
                T4::V,
                T5::V,
                T6::V,
            ),
            DecodeError,
        >,
        nat,
    ) {
        match <(T0, T1, T2, T3, T4, T5)>::dep_decoding(input) {
            (Ok(init), n) => match T6::dep_decoding(input.skip(n as int)) {
                (Ok(last), m) => (Ok((
                    init.0,
                    init.1,
                    init.2,
                    init.3,
                    init.4,
                    init.5,
                    last,
                )), n + m),
                (Err(e), m) => (Err(e), n + m),
            },
            (Err(e), n) => (Err(e), n),
        }
    }

    proof fn lemma_dep_decoding_consumed(input: Seq<u8>) {
        <(T0, T1, T2, T3, T4, T5)>::lemma_dep_decoding_consumed(input);
        let n = <(T0, T1, T2, T3, T4, T5)>::dep_decoding(input).1;
        T6::lemma_dep_decoding_consumed(input.skip(n as int));
    }

    proof fn lemma_byte_classified(input: Seq<u8>) {
    }

    fn dep_decode(input: &mut &[u8]) -> (r: Result<Self, DecodeError>) {
        let ghost start = (*input)@;
        let ghost n = <(T0, T1, T2, T3, T4, T5)>::dep_decoding(start).1;
        let ghost m = T6::dep_decoding(start.skip(n as int)).1;
        proof {
            <(T0, T1, T2, T3, T4, T5)>::lemma_dep_decoding_consumed(start);
            T6::lemma_dep_decoding_consumed(start.skip(n as int));
            assert(start.skip(n as int).skip(m as int) =~= start.skip((n + m) as int));
        }
        let init = match <(T0, T1, T2, T3, T4, T5)>::dep_decode(input) {
            Ok(init) => init,
            Err(e) => {
                return Err(e);
            },
        };
        match T6::dep_decode(input) {
            Ok(last) => Ok((init.0, init.1, init.2, init.3, init.4, init.5, last)),
            Err(e) => Err(e),
        }
    }
}

impl<
    T0: NestedEncode,
    T1: NestedEncode,
    T2: NestedEncode,
    T3: NestedEncode,
    T4: NestedEncode,
    T5: NestedEncode,
    T6: NestedEncode,
> NestedEncode for (T0, T1, T2, T3, T4, T5, T6) {
    const TYPE_INFO: TypeInfo = TypeInfo::Unknown;

    open spec fn dep_encodable(&self) -> bool {
        (self.0, self.1, self.2, self.3, self.4, self.5).dep_encodable()
            && self.6.dep_encodable()
    }

    /// The encoding of the last field follows the encoding of the fields in
    /// front of it.
    open spec fn dep_encoding(&self) -> Seq<u8> {
        (self.0, self.1, self.2, self.3, self.4, self.5).dep_encoding()
            + self.6.dep_encoding()
    }

    fn dep_encode<O: NestedEncodeOutput>(&self, dest: &mut O) -> (r: Result<(), EncodeError>) {
        dep_encode_fields_7(
            &self.0,
            &self.1,
            &self.2,
            &self.3,
            &self.4,
            &self.5,
            &self.6,
            dest,
        )
    }
}

impl<
    T0: NestedRoundTrip,
    T1: NestedRoundTrip,
    T2: NestedRoundTrip,
    T3: NestedRoundTrip,
    T4: NestedRoundTrip,
    T5: NestedRoundTrip,
    T6: NestedRoundTrip,
> NestedRoundTrip for (T0, T1, T2, T3, T4, T5, T6) {
    proof fn lemma_dep_round_trip(value: Self, rest: Seq<u8>) {
        let init = (value.0, value.1, value.2, value.3, value.4, value.5);
        let input = value.dep_encoding() + rest;
        let behind = value.6.dep_encoding() + rest;
        assert(input =~= init.dep_encoding() + behind);
        <(T0, T1, T2, T3, T4, T5)>::lemma_dep_round_trip(init, behind);
        assert(input.skip(init.dep_encoding().len() as int) =~= behind);
        T6::lemma_dep_round_trip(value.6, rest);
    }
}

impl<
    T0: NestedDecode,
    T1: NestedDecode,
    T2: NestedDecode,
    T3: NestedDecode,
    T4: NestedDecode,
    T5: NestedDecode,
    T6: NestedDecode,
> TopDecode for (T0, T1, T2, T3, T4, T5, T6) {
    const TYPE_INFO: TypeInfo = TypeInfo::Unknown;

    open spec fn top_decoding(bytes: Seq<u8>) -> Result<
        (
            T0::V,
            T1::V,
            T2::V,
            T3::V,
            T4::V,
            T5::V,
            T6::V,
        ),
        DecodeError,
    > {
        dep_decoding_exact::<Self>(bytes)
    }

    open spec fn top_decoding_boxed(bytes: Seq<u8>) -> Result<
        (
            T0::V,
            T1::V,
            T2::V,
            T3::V,
            T4::V,
            T5::V,
            T6::V,
        ),
        DecodeError,
    > {
        Self::top_decoding(bytes)
    }

    fn top_decode<I: TopDecodeInput>(input: I) -> (r: Result<Self, DecodeError>) {
        top_decode_from_nested(input)
    }

    fn top_decode_boxed<I: TopDecodeInput>(input: I) -> (r: Result<Box<Self>, DecodeError>) {
        match Self::top_decode(input) {
            Ok(value) => Ok(Box::new(value)),
            Err(e) => Err(e),
        }
    }
}

impl<
    T0: NestedEncode,
    T1: NestedEncode,
    T2: NestedEncode,
    T3: NestedEncode,
    T4: NestedEncode,
    T5: NestedEncode,
    T6: NestedEncode,
> TopEncode for (T0, T1, T2, T3, T4, T5, T6) {
    const TYPE_INFO: TypeInfo = TypeInfo::Unknown;

    open spec fn top_encodable(&self) -> bool {
        self.dep_encodable()
    }

    open spec fn top_encoding(&self) -> Seq<u8> {
        self.dep_encoding()
    }

    fn top_encode<O: TopEncodeOutput>(&self, output: &mut O) -> (r: Result<(), EncodeError>) {
        top_encode_from_nested(self, output)
    }
}

impl<
    T0: NestedRoundTrip,
    T1: NestedRoundTrip,
    T2: NestedRoundTrip,
    T3: NestedRoundTrip,
    T4: NestedRoundTrip,
    T5: NestedRoundTrip,
    T6: NestedRoundTrip,
> TopRoundTrip for (T0, T1, T2, T3, T4, T5, T6) {
    open spec fn top_delimited(&self) -> bool {
        true
    }

    proof fn lemma_top_round_trip(value: Self) {
        lemma_exact_round_trip::<Self>(value);
    }
}

/// Writes the encodings of 8 fields, one after the other.
fn dep_encode_fields_8<
    T0: NestedEncode,
    T1: NestedEncode,
    T2: NestedEncode,
    T3: NestedEncode,
    T4: NestedEncode,
    T5: NestedEncode,
    T6: NestedEncode,
    T7: NestedEncode,
    O: NestedEncodeOutput,
>(
    f0: &T0,
    f1: &T1,
    f2: &T2,
    f3: &T3,
    f4: &T4,
    f5: &T5,
    f6: &T6,
    f7: &T7,
    dest: &mut O,
) -> (r: Result<(), EncodeError>)
    ensures
        match r {
            Ok(_) => (*f0, *f1, *f2, *f3, *f4, *f5, *f6, *f7).dep_encodable()
                && final(dest).written() == old(dest).written()
                + (*f0, *f1, *f2, *f3, *f4, *f5, *f6, *f7).dep_encoding(),
            Err(e) => !(*f0, *f1, *f2, *f3, *f4, *f5, *f6, *f7).dep_encodable()
                && e == EncodeError::UNSUPPORTED_OPERATION
                && old(dest).written().is_prefix_of(final(dest).written()),
        },
{
    let ghost start = dest.written();
    let ghost init = (*f0, *f1, *f2, *f3, *f4, *f5, *f6);
    match dep_encode_fields_7(f0, f1, f2, f3, f4, f5, f6, dest) {
        Ok(_) => {},
        Err(e) => {
            return Err(e);
        },
    }
    let ghost middle = dest.written();
    let r = f7.dep_encode(dest);
    proof {
        assert(start.is_prefix_of(middle));
        if r is Ok {
            assert((start + init.dep_encoding()) + f7.dep_encoding() =~= start + (
            init.dep_encoding() + f7.dep_encoding()));
        } else {
            assert(start.is_prefix_of(dest.written()));
        }
    }
    r
}

impl<
    T0: NestedDecode,
    T1: NestedDecode,
    T2: NestedDecode,
    T3: NestedDecode,
    T4: NestedDecode,
    T5: NestedDecode,
    T6: NestedDecode,
    T7: NestedDecode,
> NestedDecode for (T0, T1, T2, T3, T4, T5, T6, T7) {
    const TYPE_INFO: TypeInfo = TypeInfo::Unknown;

    /// The last field follows the fields in front of it, with nothing in between.
    open spec fn dep_decoding(input: Seq<u8>) -> (
        Result<
            (
                T0::V,
                T1::V,
                T2::V,
                T3::V,
                T4::V,
                T5::V,
                T6::V,
                T7::V,
            ),
            DecodeError,
        >,
        nat,
    ) {
        match <(T0, T1, T2, T3, T4, T5, T6)>::dep_decoding(input) {
            (Ok(init), n) => match T7::dep_decoding(input.skip(n as int)) {
                (Ok(last), m) => (Ok((
                    init.0,
                    init.1,
                    init.2,
                    init.3,
                    init.4,
                    init.5,
                    init.6,
                    last,
                )), n + m),
                (Err(e), m) => (Err(e), n + m),
            },
            (Err(e), n) => (Err(e), n),
        }
    }

    proof fn lemma_dep_decoding_consumed(input: Seq<u8>) {
        <(T0, T1, T2, T3, T4, T5, T6)>::lemma_dep_decoding_consumed(input);
        let n = <(T0, T1, T2, T3, T4, T5, T6)>::dep_decoding(input).1;
        T7::lemma_dep_decoding_consumed(input.skip(n as int));
    }

    proof fn lemma_byte_classified(input: Seq<u8>) {
    }

    fn dep_decode(input: &mut &[u8]) -> (r: Result<Self, DecodeError>) {
        let ghost start = (*input)@;
        let ghost n = <(T0, T1, T2, T3, T4, T5, T6)>::dep_decoding(start).1;
        let ghost m = T7::dep_decoding(start.skip(n as int)).1;
        proof {
            <(T0, T1, T2, T3, T4, T5, T6)>::lemma_dep_decoding_consumed(start);
            T7::lemma_dep_decoding_consumed(start.skip(n as int));
            assert(start.skip(n as int).skip(m as int) =~= start.skip((n + m) as int));
        }
        let init = match <(T0, T1, T2, T3, T4, T5, T6)>::dep_decode(input) {
            Ok(init) => init,
            Err(e) => {
                return Err(e);
            },
        };
        match T7::dep_decode(input) {
            Ok(last) => Ok((
                init.0,
                init.1,
                init.2,
                init.3,
                init.4,
                init.5,
                init.6,
                last,
            )),
            Err(e) => Err(e),
        }
    }
}

impl<
    T0: NestedEncode,
    T1: NestedEncode,
    T2: NestedEncode,
    T3: NestedEncode,
    T4: NestedEncode,
    T5: NestedEncode,
    T6: NestedEncode,
    T7: NestedEncode,
> NestedEncode for (T0, T1, T2, T3, T4, T5, T6, T7) {
    const TYPE_INFO: TypeInfo = TypeInfo::Unknown;

    open spec fn dep_encodable(&self) -> bool {
        (self.0, self.1, self.2, self.3, self.4, self.5, self.6).dep_encodable()
            && self.7.dep_encodable()
    }

    /// The encoding of the last field follows the encoding of the fields in
    /// front of it.
    open spec fn dep_encoding(&self) -> Seq<u8> {
        (self.0, self.1, self.2, self.3, self.4, self.5, self.6).dep_encoding()
            + self.7.dep_encoding()
    }

    fn dep_encode<O: NestedEncodeOutput>(&self, dest: &mut O) -> (r: Result<(), EncodeError>) {
        dep_encode_fields_8(
            &self.0,
            &self.1,
            &self.2,
            &self.3,
            &self.4,
            &self.5,
            &self.6,
            &self.7,
            dest,
        )
    }
}

impl<
    T0: NestedRoundTrip,
    T1: NestedRoundTrip,
    T2: NestedRoundTrip,
    T3: NestedRoundTrip,
    T4: NestedRoundTrip,
    T5: NestedRoundTrip,
    T6: NestedRoundTrip,
    T7: NestedRoundTrip,
> NestedRoundTrip for (T0, T1, T2, T3, T4, T5, T6, T7) {
    proof fn lemma_dep_round_trip(value: Self, rest: Seq<u8>) {
        let init = (value.0, value.1, value.2, value.3, value.4, value.5, value.6);
        let input = value.dep_encoding() + rest;
        let behind = value.7.dep_encoding() + rest;
        assert(input =~= init.dep_encoding() + behind);
        <(T0, T1, T2, T3, T4, T5, T6)>::lemma_dep_round_trip(init, behind);
        assert(input.skip(init.dep_encoding().len() as int) =~= behind);
        T7::lemma_dep_round_trip(value.7, rest);
    }
}

impl<
    T0: NestedDecode,
    T1: NestedDecode,
    T2: NestedDecode,
    T3: NestedDecode,
    T4: NestedDecode,
    T5: NestedDecode,
    T6: NestedDecode,
    T7: NestedDecode,
> TopDecode for (T0, T1, T2, T3, T4, T5, T6, T7) {
    const TYPE_INFO: TypeInfo = TypeInfo::Unknown;

    open spec fn top_decoding(bytes: Seq<u8>) -> Result<
        (
            T0::V,
            T1::V,
            T2::V,
            T3::V,
            T4::V,
            T5::V,
            T6::V,
            T7::V,
        ),
        DecodeError,
    > {
        dep_decoding_exact::<Self>(bytes)
    }

    open spec fn top_decoding_boxed(bytes: Seq<u8>) -> Result<
        (
            T0::V,
            T1::V,
            T2::V,
            T3::V,
            T4::V,
            T5::V,
            T6::V,
            T7::V,
        ),
        DecodeError,
    > {
        Self::top_decoding(bytes)
    }

    fn top_decode<I: TopDecodeInput>(input: I) -> (r: Result<Self, DecodeError>) {
        top_decode_from_nested(input)
    }

    fn top_decode_boxed<I: TopDecodeInput>(input: I) -> (r: Result<Box<Self>, DecodeError>) {
        match Self::top_decode(input) {
            Ok(value) => Ok(Box::new(value)),
            Err(e) => Err(e),
        }
    }
}

impl<
    T0: NestedEncode,
    T1: NestedEncode,
    T2: NestedEncode,
    T3: NestedEncode,
    T4: NestedEncode,
    T5: NestedEncode,
    T6: NestedEncode,
    T7: NestedEncode,
> TopEncode for (T0, T1, T2, T3, T4, T5, T6, T7) {
    const TYPE_INFO: TypeInfo = TypeInfo::Unknown;

    open spec fn top_encodable(&self) -> bool {
        self.dep_encodable()
    }

    open spec fn top_encoding(&self) -> Seq<u8> {
        self.dep_encoding()
    }

    fn top_encode<O: TopEncodeOutput>(&self, output: &mut O) -> (r: Result<(), EncodeError>) {
        top_encode_from_nested(self, output)
    }
}

impl<
    T0: NestedRoundTrip,
    T1: NestedRoundTrip,
    T2: NestedRoundTrip,
    T3: NestedRoundTrip,
    T4: NestedRoundTrip,
    T5: NestedRoundTrip,
    T6: NestedRoundTrip,
    T7: NestedRoundTrip,
> TopRoundTrip for (T0, T1, T2, T3, T4, T5, T6, T7) {
    open spec fn top_delimited(&self) -> bool {
        true
    }

    proof fn lemma_top_round_trip(value: Self) {
        lemma_exact_round_trip::<Self>(value);
    }
}

/// Writes the encodings of 9 fields, one after the other.
fn dep_encode_fields_9<
    T0: NestedEncode,
    T1: NestedEncode,
    T2: NestedEncode,
    T3: NestedEncode,
    T4: NestedEncode,
    T5: NestedEncode,
    T6: NestedEncode,
    T7: NestedEncode,
    T8: NestedEncode,
    O: NestedEncodeOutput,
>(
    f0: &T0,
    f1: &T1,
    f2: &T2,
    f3: &T3,
    f4: &T4,
    f5: &T5,
    f6: &T6,
    f7: &T7,
    f8: &T8,
    dest: &mut O,
) -> (r: Result<(), EncodeError>)
    ensures
        match r {
            Ok(_) => (*f0, *f1, *f2, *f3, *f4, *f5, *f6, *f7, *f8).dep_encodable()
                && final(dest).written() == old(dest).written()
                + (*f0, *f1, *f2, *f3, *f4, *f5, *f6, *f7, *f8).dep_encoding(),
            Err(e) => !(*f0, *f1, *f2, *f3, *f4, *f5, *f6, *f7, *f8).dep_encodable()
                && e == EncodeError::UNSUPPORTED_OPERATION
                && old(dest).written().is_prefix_of(final(dest).written()),
        },
{
    let ghost start = dest.written();
    let ghost init = (*f0, *f1, *f2, *f3, *f4, *f5, *f6, *f7);
    match dep_encode_fields_8(f0, f1, f2, f3, f4, f5, f6, f7, dest) {
        Ok(_) => {},
        Err(e) => {
            return Err(e);
        },
    }
    let ghost middle = dest.written();
    let r = f8.dep_encode(dest);
    proof {
        assert(start.is_prefix_of(middle));
        if r is Ok {
            assert((start + init.dep_encoding()) + f8.dep_encoding() =~= start + (
            init.dep_encoding() + f8.dep_encoding()));
        } else {
            assert(start.is_prefix_of(dest.written()));
        }
    }
    r
}

impl<
    T0: NestedDecode,
    T1: NestedDecode,
    T2: NestedDecode,
    T3: NestedDecode,
    T4: NestedDecode,
    T5: NestedDecode,
    T6: NestedDecode,
    T7: NestedDecode,
    T8: NestedDecode,
> NestedDecode for (T0, T1, T2, T3, T4, T5, T6, T7, T8) {
    const TYPE_INFO: TypeInfo = TypeInfo::Unknown;

    /// The last field follows the fields in front of it, with nothing in between.
    open spec fn dep_decoding(input: Seq<u8>) -> (
        Result<
            (
                T0::V,
                T1::V,
                T2::V,
                T3::V,
                T4::V,
                T5::V,
                T6::V,
                T7::V,
                T8::V,
            ),
            DecodeError,
        >,
        nat,
    ) {
        match <(T0, T1, T2, T3, T4, T5, T6, T7)>::dep_decoding(input) {
            (Ok(init), n) => match T8::dep_decoding(input.skip(n as int)) {
                (Ok(last), m) => (Ok((
                    init.0,
                    init.1,
                    init.2,
                    init.3,
                    init.4,
                    init.5,
                    init.6,
                    init.7,
                    last,
                )), n + m),
                (Err(e), m) => (Err(e), n + m),
            },
            (Err(e), n) => (Err(e), n),
        }
    }

    proof fn lemma_dep_decoding_consumed(input: Seq<u8>) {
        <(T0, T1, T2, T3, T4, T5, T6, T7)>::lemma_dep_decoding_consumed(input);
        let n = <(T0, T1, T2, T3, T4, T5, T6, T7)>::dep_decoding(input).1;
        T8::lemma_dep_decoding_consumed(input.skip(n as int));
    }

    proof fn lemma_byte_classified(input: Seq<u8>) {
    }

    fn dep_decode(input: &mut &[u8]) -> (r: Result<Self, DecodeError>) {
        let ghost start = (*input)@;
        let ghost n = <(T0, T1, T2, T3, T4, T5, T6, T7)>::dep_decoding(start).1;
        let ghost m = T8::dep_decoding(start.skip(n as int)).1;
        proof {
            <(T0, T1, T2, T3, T4, T5, T6, T7)>::lemma_dep_decoding_consumed(start);
            T8::lemma_dep_decoding_consumed(start.skip(n as int));
            assert(start.skip(n as int).skip(m as int) =~= start.skip((n + m) as int));
        }
        let init = match <(T0, T1, T2, T3, T4, T5, T6, T7)>::dep_decode(input) {
            Ok(init) => init,
            Err(e) => {
                return Err(e);
            },
        };
        match T8::dep_decode(input) {
            Ok(last) => Ok((
                init.0,
                init.1,
                init.2,
                init.3,
                init.4,
                init.5,
                init.6,
                init.7,
                last,
            )),
            Err(e) => Err(e),
        }
    }
}

impl<
    T0: NestedEncode,
    T1: NestedEncode,
    T2: NestedEncode,
    T3: NestedEncode,
    T4: NestedEncode,
    T5: NestedEncode,
    T6: NestedEncode,
    T7: NestedEncode,
    T8: NestedEncode,
> NestedEncode for (T0, T1, T2, T3, T4, T5, T6, T7, T8) {
    const TYPE_INFO: TypeInfo = TypeInfo::Unknown;

    open spec fn dep_encodable(&self) -> bool {
        (self.0, self.1, self.2, self.3, self.4, self.5, self.6, self.7).dep_encodable()
            && self.8.dep_encodable()
    }

    /// The encoding of the last field follows the encoding of the fields in
    /// front of it.
    open spec fn dep_encoding(&self) -> Seq<u8> {
        (self.0, self.1, self.2, self.3, self.4, self.5, self.6, self.7).dep_encoding()
            + self.8.dep_encoding()
    }

    fn dep_encode<O: NestedEncodeOutput>(&self, dest: &mut O) -> (r: Result<(), EncodeError>) {
        dep_encode_fields_9(
            &self.0,
            &self.1,
            &self.2,
            &self.3,
            &self.4,
            &self.5,
            &self.6,
            &self.7,
            &self.8,
            dest,
        )
    }
}

impl<
    T0: NestedRoundTrip,
    T1: NestedRoundTrip,
    T2: NestedRoundTrip,
    T3: NestedRoundTrip,
    T4: NestedRoundTrip,
    T5: NestedRoundTrip,
    T6: NestedRoundTrip,
    T7: NestedRoundTrip,
    T8: NestedRoundTrip,
> NestedRoundTrip for (T0, T1, T2, T3, T4, T5, T6, T7, T8) {
    proof fn lemma_dep_round_trip(value: Self, rest: Seq<u8>) {
        let init = (value.0, value.1, value.2, value.3, value.4, value.5, value.6, value.7);
        let input = value.dep_encoding() + rest;
        let behind = value.8.dep_encoding() + rest;
        assert(input =~= init.dep_encoding() + behind);
        <(T0, T1, T2, T3, T4, T5, T6, T7)>::lemma_dep_round_trip(init, behind);
        assert(input.skip(init.dep_encoding().len() as int) =~= behind);
        T8::lemma_dep_round_trip(value.8, rest);
    }
}

impl<
    T0: NestedDecode,
    T1: NestedDecode,
    T2: NestedDecode,
    T3: NestedDecode,
    T4: NestedDecode,
    T5: NestedDecode,
    T6: NestedDecode,
    T7: NestedDecode,
    T8: NestedDecode,
> TopDecode for (T0, T1, T2, T3, T4, T5, T6, T7, T8) {
    const TYPE_INFO: TypeInfo = TypeInfo::Unknown;

    open spec fn top_decoding(bytes: Seq<u8>) -> Result<
        (
            T0::V,
            T1::V,
            T2::V,
            T3::V,
            T4::V,
            T5::V,
            T6::V,
            T7::V,
            T8::V,
        ),
        DecodeError,
    > {
        dep_decoding_exact::<Self>(bytes)
    }

    open spec fn top_decoding_boxed(bytes: Seq<u8>) -> Result<
        (
            T0::V,
            T1::V,
            T2::V,
            T3::V,
            T4::V,
            T5::V,
            T6::V,
            T7::V,
            T8::V,
        ),
        DecodeError,
    > {
        Self::top_decoding(bytes)
    }

    fn top_decode<I: TopDecodeInput>(input: I) -> (r: Result<Self, DecodeError>) {
        top_decode_from_nested(input)
    }

    fn top_decode_boxed<I: TopDecodeInput>(input: I) -> (r: Result<Box<Self>, DecodeError>) {
        match Self::top_decode(input) {
            Ok(value) => Ok(Box::new(value)),
            Err(e) => Err(e),
        }
    }
}

impl<
    T0: NestedEncode,
    T1: NestedEncode,
    T2: NestedEncode,
    T3: NestedEncode,
    T4: NestedEncode,
    T5: NestedEncode,
    T6: NestedEncode,
    T7: NestedEncode,
    T8: NestedEncode,
> TopEncode for (T0, T1, T2, T3, T4, T5, T6, T7, T8) {
    const TYPE_INFO: TypeInfo = TypeInfo::Unknown;

    open spec fn top_encodable(&self) -> bool {
        self.dep_encodable()
    }

    open spec fn top_encoding(&self) -> Seq<u8> {
        self.dep_encoding()
    }

    fn top_encode<O: TopEncodeOutput>(&self, output: &mut O) -> (r: Result<(), EncodeError>) {
        top_encode_from_nested(self, output)
    }
}

impl<
    T0: NestedRoundTrip,
    T1: NestedRoundTrip,
    T2: NestedRoundTrip,
    T3: NestedRoundTrip,
    T4: NestedRoundTrip,
    T5: NestedRoundTrip,
    T6: NestedRoundTrip,
    T7: NestedRoundTrip,
    T8: NestedRoundTrip,
> TopRoundTrip for (T0, T1, T2, T3, T4, T5, T6, T7, T8) {
    open spec fn top_delimited(&self) -> bool {
        true
    }

    proof fn lemma_top_round_trip(value: Self) {
        lemma_exact_round_trip::<Self>(value);
    }
}

/// Writes the encodings of 10 fields, one after the other.
fn dep_encode_fields_10<
    T0: NestedEncode,
    T1: NestedEncode,
    T2: NestedEncode,
    T3: NestedEncode,
    T4: NestedEncode,
    T5: NestedEncode,
    T6: NestedEncode,
    T7: NestedEncode,
    T8: NestedEncode,
    T9: NestedEncode,
    O: NestedEncodeOutput,
>(
    f0: &T0,
    f1: &T1,
    f2: &T2,
    f3: &T3,
    f4: &T4,
    f5: &T5,
    f6: &T6,
    f7: &T7,
    f8: &T8,
    f9: &T9,
    dest: &mut O,
) -> (r: Result<(), EncodeError>)
    ensures
        match r {
            Ok(_) => (*f0, *f1, *f2, *f3, *f4, *f5, *f6, *f7, *f8, *f9).dep_encodable()
                && final(dest).written() == old(dest).written()
                + (*f0, *f1, *f2, *f3, *f4, *f5, *f6, *f7, *f8, *f9).dep_encoding(),
            Err(e) => !(*f0, *f1, *f2, *f3, *f4, *f5, *f6, *f7, *f8, *f9).dep_encodable()
                && e == EncodeError::UNSUPPORTED_OPERATION
                && old(dest).written().is_prefix_of(final(dest).written()),
        },
{
    let ghost start = dest.written();
    let ghost init = (*f0, *f1, *f2, *f3, *f4, *f5, *f6, *f7, *f8);
    match dep_encode_fields_9(f0, f1, f2, f3, f4, f5, f6, f7, f8, dest) {
        Ok(_) => {},
        Err(e) => {
            return Err(e);
        },
    }
    let ghost middle = dest.written();
    let r = f9.dep_encode(dest);
    proof {
        assert(start.is_prefix_of(middle));
        if r is Ok {
            assert((start + init.dep_encoding()) + f9.dep_encoding() =~= start + (
            init.dep_encoding() + f9.dep_encoding()));
        } else {
            assert(start.is_prefix_of(dest.written()));
        }
    }
    r
}

impl<
    T0: NestedDecode,
    T1: NestedDecode,
    T2: NestedDecode,
    T3: NestedDecode,
    T4: NestedDecode,
    T5: NestedDecode,
    T6: NestedDecode,
    T7: NestedDecode,
    T8: NestedDecode,
    T9: NestedDecode,
> NestedDecode for (T0, T1, T2, T3, T4, T5, T6, T7, T8, T9) {
    const TYPE_INFO: TypeInfo = TypeInfo::Unknown;

    /// The last field follows the fields in front of it, with nothing in between.
    open spec fn dep_decoding(input: Seq<u8>) -> (
        Result<
            (
                T0::V,
                T1::V,
                T2::V,
                T3::V,
                T4::V,
                T5::V,
                T6::V,
                T7::V,
                T8::V,
                T9::V,
            ),
            DecodeError,
        >,
        nat,
    ) {
        match <(T0, T1, T2, T3, T4, T5, T6, T7, T8)>::dep_decoding(input) {
            (Ok(init), n) => match T9::dep_decoding(input.skip(n as int)) {
                (Ok(last), m) => (Ok((
                    init.0,
                    init.1,
                    init.2,
                    init.3,
                    init.4,
                    init.5,
                    init.6,
                    init.7,
                    init.8,
                    last,
                )), n + m),
                (Err(e), m) => (Err(e), n + m),
            },
            (Err(e), n) => (Err(e), n),
        }
    }

    proof fn lemma_dep_decoding_consumed(input: Seq<u8>) {
        <(T0, T1, T2, T3, T4, T5, T6, T7, T8)>::lemma_dep_decoding_consumed(input);
        let n = <(T0, T1, T2, T3, T4, T5, T6, T7, T8)>::dep_decoding(input).1;
        T9::lemma_dep_decoding_consumed(input.skip(n as int));
    }

    proof fn lemma_byte_classified(input: Seq<u8>) {
    }

    fn dep_decode(input: &mut &[u8]) -> (r: Result<Self, DecodeError>) {
        let ghost start = (*input)@;
        let ghost n = <(T0, T1, T2, T3, T4, T5, T6, T7, T8)>::dep_decoding(start).1;
        let ghost m = T9::dep_decoding(start.skip(n as int)).1;
        proof {
            <(T0, T1, T2, T3, T4, T5, T6, T7, T8)>::lemma_dep_decoding_consumed(start);
            T9::lemma_dep_decoding_consumed(start.skip(n as int));
            assert(start.skip(n as int).skip(m as int) =~= start.skip((n + m) as int));
        }
        let init = match <(T0, T1, T2, T3, T4, T5, T6, T7, T8)>::dep_decode(input) {
            Ok(init) => init,
            Err(e) => {
                return Err(e);
            },
        };
        match T9::dep_decode(input) {
            Ok(last) => Ok((
                init.0,
                init.1,
                init.2,
                init.3,
                init.4,
                init.5,
                init.6,
                init.7,
                init.8,
                last,
            )),
            Err(e) => Err(e),
        }
    }
}

impl<
    T0: NestedEncode,
    T1: NestedEncode,
    T2: NestedEncode,
    T3: NestedEncode,
    T4: NestedEncode,
    T5: NestedEncode,
    T6: NestedEncode,
    T7: NestedEncode,
    T8: NestedEncode,
    T9: NestedEncode,
> NestedEncode for (T0, T1, T2, T3, T4, T5, T6, T7, T8, T9) {
    const TYPE_INFO: TypeInfo = TypeInfo::Unknown;

    open spec fn dep_encodable(&self) -> bool {
        (
            self.0,
            self.1,
            self.2,
            self.3,
            self.4,
            self.5,
            self.6,
            self.7,
            self.8,
        ).dep_encodable()
            && self.9.dep_encodable()
    }

    /// The encoding of the last field follows the encoding of the fields in
    /// front of it.
    open spec fn dep_encoding(&self) -> Seq<u8> {
        (
            self.0,
            self.1,
            self.2,
            self.3,
            self.4,
            self.5,
            self.6,
            self.7,
            self.8,
        ).dep_encoding()
            + self.9.dep_encoding()
    }

    fn dep_encode<O: NestedEncodeOutput>(&self, dest: &mut O) -> (r: Result<(), EncodeError>) {
        dep_encode_fields_10(
            &self.0,
            &self.1,
            &self.2,
            &self.3,
            &self.4,
            &self.5,
            &self.6,
            &self.7,
            &self.8,
            &self.9,
            dest,
        )
    }
}

impl<
    T0: NestedRoundTrip,
    T1: NestedRoundTrip,
    T2: NestedRoundTrip,
    T3: NestedRoundTrip,
    T4: NestedRoundTrip,
    T5: NestedRoundTrip,
    T6: NestedRoundTrip,
    T7: NestedRoundTrip,
    T8: NestedRoundTrip,
    T9: NestedRoundTrip,
> NestedRoundTrip for (T0, T1, T2, T3, T4, T5, T6, T7, T8, T9) {
    proof fn lemma_dep_round_trip(value: Self, rest: Seq<u8>) {
        let init = (
            value.0,
            value.1,
            value.2,
            value.3,
            value.4,
            value.5,
            value.6,
            value.7,
            value.8,
        );
        let input = value.dep_encoding() + rest;
        let behind = value.9.dep_encoding() + rest;
        assert(input =~= init.dep_encoding() + behind);
        <(T0, T1, T2, T3, T4, T5, T6, T7, T8)>::lemma_dep_round_trip(init, behind);
        assert(input.skip(init.dep_encoding().len() as int) =~= behind);
        T9::lemma_dep_round_trip(value.9, rest);
    }
}

impl<
    T0: NestedDecode,
    T1: NestedDecode,
    T2: NestedDecode,
    T3: NestedDecode,
    T4: NestedDecode,
    T5: NestedDecode,
    T6: NestedDecode,
    T7: NestedDecode,
    T8: NestedDecode,
    T9: NestedDecode,
> TopDecode for (T0, T1, T2, T3, T4, T5, T6, T7, T8, T9) {
    const TYPE_INFO: TypeInfo = TypeInfo::Unknown;

    open spec fn top_decoding(bytes: Seq<u8>) -> Result<
        (
            T0::V,
            T1::V,
            T2::V,
            T3::V,
            T4::V,
            T5::V,
            T6::V,
            T7::V,
            T8::V,
            T9::V,
        ),
        DecodeError,
    > {
        dep_decoding_exact::<Self>(bytes)
    }

    open spec fn top_decoding_boxed(bytes: Seq<u8>) -> Result<
        (
            T0::V,
            T1::V,
            T2::V,
            T3::V,
            T4::V,
            T5::V,
            T6::V,
            T7::V,
            T8::V,
            T9::V,
        ),
        DecodeError,
    > {
        Self::top_decoding(bytes)
    }

    fn top_decode<I: TopDecodeInput>(input: I) -> (r: Result<Self, DecodeError>) {
        top_decode_from_nested(input)
    }

    fn top_decode_boxed<I: TopDecodeInput>(input: I) -> (r: Result<Box<Self>, DecodeError>) {
        match Self::top_decode(input) {
            Ok(value) => Ok(Box::new(value)),
            Err(e) => Err(e),
        }
    }
}

impl<
    T0: NestedEncode,
    T1: NestedEncode,
    T2: NestedEncode,
    T3: NestedEncode,
    T4: NestedEncode,
    T5: NestedEncode,
    T6: NestedEncode,
    T7: NestedEncode,
    T8: NestedEncode,
    T9: NestedEncode,
> TopEncode for (T0, T1, T2, T3, T4, T5, T6, T7, T8, T9) {
    const TYPE_INFO: TypeInfo = TypeInfo::Unknown;

    open spec fn top_encodable(&self) -> bool {
        self.dep_encodable()
    }

    open spec fn top_encoding(&self) -> Seq<u8> {
        self.dep_encoding()
    }

    fn top_encode<O: TopEncodeOutput>(&self, output: &mut O) -> (r: Result<(), EncodeError>) {
        top_encode_from_nested(self, output)
    }
}

impl<
    T0: NestedRoundTrip,
    T1: NestedRoundTrip,
    T2: NestedRoundTrip,
    T3: NestedRoundTrip,
    T4: NestedRoundTrip,
    T5: NestedRoundTrip,
    T6: NestedRoundTrip,
    T7: NestedRoundTrip,
    T8: NestedRoundTrip,
    T9: NestedRoundTrip,
> TopRoundTrip for (T0, T1, T2, T3, T4, T5, T6, T7, T8, T9) {
    open spec fn top_delimited(&self) -> bool {
        true
    }

    proof fn lemma_top_round_trip(value: Self) {
        lemma_exact_round_trip::<Self>(value);
    }
}

/// Writes the encodings of 11 fields, one after the other.
fn dep_encode_fields_11<
    T0: NestedEncode,
    T1: NestedEncode,
    T2: NestedEncode,
    T3: NestedEncode,
    T4: NestedEncode,
    T5: NestedEncode,
    T6: NestedEncode,
    T7: NestedEncode,
    T8: NestedEncode,
    T9: NestedEncode,
    T10: NestedEncode,
    O: NestedEncodeOutput,
>(
    f0: &T0,
    f1: &T1,
    f2: &T2,
    f3: &T3,
    f4: &T4,
    f5: &T5,
    f6: &T6,
    f7: &T7,
    f8: &T8,
    f9: &T9,
    f10: &T10,
    dest: &mut O,
) -> (r: Result<(), EncodeError>)
    ensures
        match r {
            Ok(_) => (*f0, *f1, *f2, *f3, *f4, *f5, *f6, *f7, *f8, *f9, *f10).dep_encodable()
                && final(dest).written() == old(dest).written()
                + (*f0, *f1, *f2, *f3, *f4, *f5, *f6, *f7, *f8, *f9, *f10).dep_encoding(),
            Err(e) => !(*f0, *f1, *f2, *f3, *f4, *f5, *f6, *f7, *f8, *f9, *f10).dep_encodable()
                && e == EncodeError::UNSUPPORTED_OPERATION
                && old(dest).written().is_prefix_of(final(dest).written()),
        },
{
    let ghost start = dest.written();
    let ghost init = (*f0, *f1, *f2, *f3, *f4, *f5, *f6, *f7, *f8, *f9);
    match dep_encode_fields_10(f0, f1, f2, f3, f4, f5, f6, f7, f8, f9, dest) {
        Ok(_) => {},
        Err(e) => {
            return Err(e);
        },
    }
    let ghost middle = dest.written();
    let r = f10.dep_encode(dest);
    proof {
        assert(start.is_prefix_of(middle));
        if r is Ok {
            assert((start + init.dep_encoding()) + f10.dep_encoding() =~= start + (
            init.dep_encoding() + f10.dep_encoding()));
        } else {
            assert(start.is_prefix_of(dest.written()));
        }
    }
    r
}

impl<
    T0: NestedDecode,
    T1: NestedDecode,
    T2: NestedDecode,
    T3: NestedDecode,
    T4: NestedDecode,
    T5: NestedDecode,
    T6: NestedDecode,
    T7: NestedDecode,
    T8: NestedDecode,
    T9: NestedDecode,
    T10: NestedDecode,
> NestedDecode for (T0, T1, T2, T3, T4, T5, T6, T7, T8, T9, T10) {
    const TYPE_INFO: TypeInfo = TypeInfo::Unknown;

    /// The last field follows the fields in front of it, with nothing in between.
    open spec fn dep_decoding(input: Seq<u8>) -> (
        Result<
            (
                T0::V,
                T1::V,
                T2::V,
                T3::V,
                T4::V,
                T5::V,
                T6::V,
                T7::V,
                T8::V,
                T9::V,
                T10::V,
            ),
            DecodeError,
        >,
        nat,
    ) {
        match <(T0, T1, T2, T3, T4, T5, T6, T7, T8, T9)>::dep_decoding(input) {
            (Ok(init), n) => match T10::dep_decoding(input.skip(n as int)) {
                (Ok(last), m) => (Ok((
                    init.0,
                    init.1,
                    init.2,
                    init.3,
                    init.4,
                    init.5,
                    init.6,
                    init.7,
                    init.8,
                    init.9,
                    last,
                )), n + m),
                (Err(e), m) => (Err(e), n + m),
            },
            (Err(e), n) => (Err(e), n),
        }
    }

    proof fn lemma_dep_decoding_consumed(input: Seq<u8>) {
        <(T0, T1, T2, T3, T4, T5, T6, T7, T8, T9)>::lemma_dep_decoding_consumed(input);
        let n = <(T0, T1, T2, T3, T4, T5, T6, T7, T8, T9)>::dep_decoding(input).1;
        T10::lemma_dep_decoding_consumed(input.skip(n as int));
    }

    proof fn lemma_byte_classified(input: Seq<u8>) {
    }

    fn dep_decode(input: &mut &[u8]) -> (r: Result<Self, DecodeError>) {
        let ghost start = (*input)@;
        let ghost n = <(T0, T1, T2, T3, T4, T5, T6, T7, T8, T9)>::dep_decoding(start).1;
        let ghost m = T10::dep_decoding(start.skip(n as int)).1;
        proof {
            <(T0, T1, T2, T3, T4, T5, T6, T7, T8, T9)>::lemma_dep_decoding_consumed(start);
            T10::lemma_dep_decoding_consumed(start.skip(n as int));
            assert(start.skip(n as int).skip(m as int) =~= start.skip((n + m) as int));
        }
        let init = match <(T0, T1, T2, T3, T4, T5, T6, T7, T8, T9)>::dep_decode(input) {
            Ok(init) => init,
            Err(e) => {
                return Err(e);
            },
        };
        match T10::dep_decode(input) {
            Ok(last) => Ok((
                init.0,
                init.1,
                init.2,
                init.3,
                init.4,
                init.5,
                init.6,
                init.7,
                init.8,
                init.9,
                last,
            )),
            Err(e) => Err(e),
        }
    }
}

impl<
    T0: NestedEncode,
    T1: NestedEncode,
    T2: NestedEncode,
    T3: NestedEncode,
    T4: NestedEncode,
    T5: NestedEncode,
    T6: NestedEncode,
    T7: NestedEncode,
    T8: NestedEncode,
    T9: NestedEncode,
    T10: NestedEncode,
> NestedEncode for (T0, T1, T2, T3, T4, T5, T6, T7, T8, T9, T10) {
    const TYPE_INFO: TypeInfo = TypeInfo::Unknown;

    open spec fn dep_encodable(&self) -> bool {
        (
            self.0,
            self.1,
            self.2,
            self.3,
            self.4,
            self.5,
            self.6,
            self.7,
            self.8,
            self.9,
        ).dep_encodable()
            && self.10.dep_encodable()
    }

    /// The encoding of the last field follows the encoding of the fields in
    /// front of it.
    open spec fn dep_encoding(&self) -> Seq<u8> {
        (
            self.0,
            self.1,
            self.2,
            self.3,
            self.4,
            self.5,
            self.6,
            self.7,
            self.8,
            self.9,
        ).dep_encoding()
            + self.10.dep_encoding()
    }

    fn dep_encode<O: NestedEncodeOutput>(&self, dest: &mut O) -> (r: Result<(), EncodeError>) {
        dep_encode_fields_11(
            &self.0,
            &self.1,
            &self.2,
            &self.3,
            &self.4,
            &self.5,
            &self.6,
            &self.7,
            &self.8,
            &self.9,
            &self.10,
            dest,
        )
    }
}

impl<
    T0: NestedRoundTrip,
    T1: NestedRoundTrip,
    T2: NestedRoundTrip,
    T3: NestedRoundTrip,
    T4: NestedRoundTrip,
    T5: NestedRoundTrip,
    T6: NestedRoundTrip,
    T7: NestedRoundTrip,
    T8: NestedRoundTrip,
    T9: NestedRoundTrip,
    T10: NestedRoundTrip,
> NestedRoundTrip for (T0, T1, T2, T3, T4, T5, T6, T7, T8, T9, T10) {
    proof fn lemma_dep_round_trip(value: Self, rest: Seq<u8>) {
        let init = (
            value.0,
            value.1,
            value.2,
            value.3,
            value.4,
            value.5,
            value.6,
            value.7,
            value.8,
            value.9,
        );
        let input = value.dep_encoding() + rest;
        let behind = value.10.dep_encoding() + rest;
        assert(input =~= init.dep_encoding() + behind);
        <(T0, T1, T2, T3, T4, T5, T6, T7, T8, T9)>::lemma_dep_round_trip(init, behind);
        assert(input.skip(init.dep_encoding().len() as int) =~= behind);
        T10::lemma_dep_round_trip(value.10, rest);
    }
}

impl<
    T0: NestedDecode,
    T1: NestedDecode,
    T2: NestedDecode,
    T3: NestedDecode,
    T4: NestedDecode,
    T5: NestedDecode,
    T6: NestedDecode,
    T7: NestedDecode,
    T8: NestedDecode,
    T9: NestedDecode,
    T10: NestedDecode,
> TopDecode for (T0, T1, T2, T3, T4, T5, T6, T7, T8, T9, T10) {
    const TYPE_INFO: TypeInfo = TypeInfo::Unknown;

    open spec fn top_decoding(bytes: Seq<u8>) -> Result<
        (
            T0::V,
            T1::V,
            T2::V,
            T3::V,
            T4::V,
            T5::V,
            T6::V,
            T7::V,
            T8::V,
            T9::V,
            T10::V,
        ),
        DecodeError,
    > {
        dep_decoding_exact::<Self>(bytes)
    }

    open spec fn top_decoding_boxed(bytes: Seq<u8>) -> Result<
        (
            T0::V,
            T1::V,
            T2::V,
            T3::V,
            T4::V,
            T5::V,
            T6::V,
            T7::V,
            T8::V,
            T9::V,
            T10::V,
        ),
        DecodeError,
    > {
        Self::top_decoding(bytes)
    }

    fn top_decode<I: TopDecodeInput>(input: I) -> (r: Result<Self, DecodeError>) {
        top_decode_from_nested(input)
    }

    fn top_decode_boxed<I: TopDecodeInput>(input: I) -> (r: Result<Box<Self>, DecodeError>) {
        match Self::top_decode(input) {
            Ok(value) => Ok(Box::new(value)),
            Err(e) => Err(e),
        }
    }
}

impl<
    T0: NestedEncode,
    T1: NestedEncode,
    T2: NestedEncode,
    T3: NestedEncode,
    T4: NestedEncode,
    T5: NestedEncode,
    T6: NestedEncode,
    T7: NestedEncode,
    T8: NestedEncode,
    T9: NestedEncode,
    T10: NestedEncode,
> TopEncode for (T0, T1, T2, T3, T4, T5, T6, T7, T8, T9, T10) {
    const TYPE_INFO: TypeInfo = TypeInfo::Unknown;

    open spec fn top_encodable(&self) -> bool {
        self.dep_encodable()
    }

    open spec fn top_encoding(&self) -> Seq<u8> {
        self.dep_encoding()
    }

    fn top_encode<O: TopEncodeOutput>(&self, output: &mut O) -> (r: Result<(), EncodeError>) {
        top_encode_from_nested(self, output)
    }
}

impl<
    T0: NestedRoundTrip,
    T1: NestedRoundTrip,
    T2: NestedRoundTrip,
    T3: NestedRoundTrip,
    T4: NestedRoundTrip,
    T5: NestedRoundTrip,
    T6: NestedRoundTrip,
    T7: NestedRoundTrip,
    T8: NestedRoundTrip,
    T9: NestedRoundTrip,
    T10: NestedRoundTrip,
> TopRoundTrip for (T0, T1, T2, T3, T4, T5, T6, T7, T8, T9, T10) {
    open spec fn top_delimited(&self) -> bool {
        true
    }

    proof fn lemma_top_round_trip(value: Self) {
        lemma_exact_round_trip::<Self>(value);
    }
}

/// Writes the encodings of 12 fields, one after the other.
fn dep_encode_fields_12<
    T0: NestedEncode,
    T1: NestedEncode,
    T2: NestedEncode,
    T3: NestedEncode,
    T4: NestedEncode,
    T5: NestedEncode,
    T6: NestedEncode,
    T7: NestedEncode,
    T8: NestedEncode,
    T9: NestedEncode,
    T10: NestedEncode,
    T11: NestedEncode,
    O: NestedEncodeOutput,
>(
    f0: &T0,
    f1: &T1,
    f2: &T2,
    f3: &T3,
    f4: &T4,
    f5: &T5,
    f6: &T6,
    f7: &T7,
    f8: &T8,
    f9: &T9,
    f10: &T10,
    f11: &T11,
    dest: &mut O,
) -> (r: Result<(), EncodeError>)
    ensures
        match r {
            Ok(_) => (*f0, *f1, *f2, *f3, *f4, *f5, *f6, *f7, *f8, *f9, *f10, *f11).dep_encodable()
                && final(dest).written() == old(dest).written()
                + (
                    *f0,
                    *f1,
                    *f2,
                    *f3,
                    *f4,
                    *f5,
                    *f6,
                    *f7,
                    *f8,
                    *f9,
                    *f10,
                    *f11,
                ).dep_encoding(),
            Err(e) => !(*f0, *f1, *f2, *f3, *f4, *f5, *f6, *f7, *f8, *f9, *f10, *f11).dep_encodable()
                && e == EncodeError::UNSUPPORTED_OPERATION
                && old(dest).written().is_prefix_of(final(dest).written()),
        },
{
    let ghost start = dest.written();
    let ghost init = (*f0, *f1, *f2, *f3, *f4, *f5, *f6, *f7, *f8, *f9, *f10);
    match dep_encode_fields_11(f0, f1, f2, f3, f4, f5, f6, f7, f8, f9, f10, dest) {
        Ok(_) => {},
        Err(e) => {
            return Err(e);
        },
    }
    let ghost middle = dest.written();
    let r = f11.dep_encode(dest);
    proof {
        assert(start.is_prefix_of(middle));
        if r is Ok {
            assert((start + init.dep_encoding()) + f11.dep_encoding() =~= start + (
            init.dep_encoding() + f11.dep_encoding()));
        } else {
            assert(start.is_prefix_of(dest.written()));
        }
    }
    r
}

impl<
    T0: NestedDecode,
    T1: NestedDecode,
    T2: NestedDecode,
    T3: NestedDecode,
    T4: NestedDecode,
    T5: NestedDecode,
    T6: NestedDecode,
    T7: NestedDecode,
    T8: NestedDecode,
    T9: NestedDecode,
    T10: NestedDecode,
    T11: NestedDecode,
> NestedDecode for (T0, T1, T2, T3, T4, T5, T6, T7, T8, T9, T10, T11) {
    const TYPE_INFO: TypeInfo = TypeInfo::Unknown;

    /// The last field follows the fields in front of it, with nothing in between.
    open spec fn dep_decoding(input: Seq<u8>) -> (
        Result<
            (
                T0::V,
                T1::V,
                T2::V,
                T3::V,
                T4::V,
                T5::V,
                T6::V,
                T7::V,
                T8::V,
                T9::V,
                T10::V,
                T11::V,
            ),
            DecodeError,
        >,
        nat,
    ) {
        match <(T0, T1, T2, T3, T4, T5, T6, T7, T8, T9, T10)>::dep_decoding(input) {
            (Ok(init), n) => match T11::dep_decoding(input.skip(n as int)) {
                (Ok(last), m) => (Ok((
                    init.0,
                    init.1,
                    init.2,
                    init.3,
                    init.4,
                    init.5,
                    init.6,
                    init.7,
                    init.8,
                    init.9,
                    init.10,
                    last,
                )), n + m),
                (Err(e), m) => (Err(e), n + m),
            },
            (Err(e), n) => (Err(e), n),
        }
    }

    proof fn lemma_dep_decoding_consumed(input: Seq<u8>) {
        <(T0, T1, T2, T3, T4, T5, T6, T7, T8, T9, T10)>::lemma_dep_decoding_consumed(input);
        let n = <(T0, T1, T2, T3, T4, T5, T6, T7, T8, T9, T10)>::dep_decoding(input).1;
        T11::lemma_dep_decoding_consumed(input.skip(n as int));
    }

    proof fn lemma_byte_classified(input: Seq<u8>) {
    }

    fn dep_decode(input: &mut &[u8]) -> (r: Result<Self, DecodeError>) {
        let ghost start = (*input)@;
        let ghost n = <(T0, T1, T2, T3, T4, T5, T6, T7, T8, T9, T10)>::dep_decoding(start).1;
        let ghost m = T11::dep_decoding(start.skip(n as int)).1;
        proof {
            <(T0, T1, T2, T3, T4, T5, T6, T7, T8, T9, T10)>::lemma_dep_decoding_consumed(start);
            T11::lemma_dep_decoding_consumed(start.skip(n as int));
            assert(start.skip(n as int).skip(m as int) =~= start.skip((n + m) as int));
        }
        let init = match <(T0, T1, T2, T3, T4, T5, T6, T7, T8, T9, T10)>::dep_decode(input) {
            Ok(init) => init,
            Err(e) => {
                return Err(e);
            },
        };
        match T11::dep_decode(input) {
            Ok(last) => Ok((
                init.0,
                init.1,
                init.2,
                init.3,
                init.4,
                init.5,
                init.6,
                init.7,
                init.8,
                init.9,
                init.10,
                last,
            )),
            Err(e) => Err(e),
        }
    }
}

impl<
    T0: NestedEncode,
    T1: NestedEncode,
    T2: NestedEncode,
    T3: NestedEncode,
    T4: NestedEncode,
    T5: NestedEncode,
    T6: NestedEncode,
    T7: NestedEncode,
    T8: NestedEncode,
    T9: NestedEncode,
    T10: NestedEncode,
    T11: NestedEncode,
> NestedEncode for (T0, T1, T2, T3, T4, T5, T6, T7, T8, T9, T10, T11) {
    const TYPE_INFO: TypeInfo = TypeInfo::Unknown;

    open spec fn dep_encodable(&self) -> bool {
        (
            self.0,
            self.1,
            self.2,
            self.3,
            self.4,
            self.5,
            self.6,
            self.7,
            self.8,
            self.9,
            self.10,
        ).dep_encodable()
            && self.11.dep_encodable()
    }

    /// The encoding of the last field follows the encoding of the fields in
    /// front of it.
    open spec fn dep_encoding(&self) -> Seq<u8> {
        (
            self.0,
            self.1,
            self.2,
            self.3,
            self.4,
            self.5,
            self.6,
            self.7,
            self.8,
            self.9,
            self.10,
        ).dep_encoding()
            + self.11.dep_encoding()
    }

    fn dep_encode<O: NestedEncodeOutput>(&self, dest: &mut O) -> (r: Result<(), EncodeError>) {
        dep_encode_fields_12(
            &self.0,
            &self.1,
            &self.2,
            &self.3,
            &self.4,
            &self.5,
            &self.6,
            &self.7,
            &self.8,
            &self.9,
            &self.10,
            &self.11,
            dest,
        )
    }
}

impl<
    T0: NestedRoundTrip,
    T1: NestedRoundTrip,
    T2: NestedRoundTrip,
    T3: NestedRoundTrip,
    T4: NestedRoundTrip,
    T5: NestedRoundTrip,
    T6: NestedRoundTrip,
    T7: NestedRoundTrip,
    T8: NestedRoundTrip,
    T9: NestedRoundTrip,
    T10: NestedRoundTrip,
    T11: NestedRoundTrip,
> NestedRoundTrip for (T0, T1, T2, T3, T4, T5, T6, T7, T8, T9, T10, T11) {
    proof fn lemma_dep_round_trip(value: Self, rest: Seq<u8>) {
        let init = (
            value.0,
            value.1,
            value.2,
            value.3,
            value.4,
            value.5,
            value.6,
            value.7,
            value.8,
            value.9,
            value.10,
        );
        let input = value.dep_encoding() + rest;
        let behind = value.11.dep_encoding() + rest;
        assert(input =~= init.dep_encoding() + behind);
        <(T0, T1, T2, T3, T4, T5, T6, T7, T8, T9, T10)>::lemma_dep_round_trip(init, behind);
        assert(input.skip(init.dep_encoding().len() as int) =~= behind);
        T11::lemma_dep_round_trip(value.11, rest);
    }
}

impl<
    T0: NestedDecode,
    T1: NestedDecode,
    T2: NestedDecode,
    T3: NestedDecode,
    T4: NestedDecode,
    T5: NestedDecode,
    T6: NestedDecode,
    T7: NestedDecode,
    T8: NestedDecode,
    T9: NestedDecode,
    T10: NestedDecode,
    T11: NestedDecode,
> TopDecode for (T0, T1, T2, T3, T4, T5, T6, T7, T8, T9, T10, T11) {
    const TYPE_INFO: TypeInfo = TypeInfo::Unknown;

    open spec fn top_decoding(bytes: Seq<u8>) -> Result<
        (
            T0::V,
            T1::V,
            T2::V,
            T3::V,
            T4::V,
            T5::V,
            T6::V,
            T7::V,
            T8::V,
            T9::V,
            T10::V,
            T11::V,
        ),
        DecodeError,
    > {
        dep_decoding_exact::<Self>(bytes)
    }

    open spec fn top_decoding_boxed(bytes: Seq<u8>) -> Result<
        (
            T0::V,
            T1::V,
            T2::V,
            T3::V,
            T4::V,
            T5::V,
            T6::V,
            T7::V,
            T8::V,
            T9::V,
            T10::V,
            T11::V,
        ),
        DecodeError,
    > {
        Self::top_decoding(bytes)
    }

    fn top_decode<I: TopDecodeInput>(input: I) -> (r: Result<Self, DecodeError>) {
        top_decode_from_nested(input)
    }

    fn top_decode_boxed<I: TopDecodeInput>(input: I) -> (r: Result<Box<Self>, DecodeError>) {
        match Self::top_decode(input) {
            Ok(value) => Ok(Box::new(value)),
            Err(e) => Err(e),
        }
    }
}

impl<
    T0: NestedEncode,
    T1: NestedEncode,
    T2: NestedEncode,
    T3: NestedEncode,
    T4: NestedEncode,
    T5: NestedEncode,
    T6: NestedEncode,
    T7: NestedEncode,
    T8: NestedEncode,
    T9: NestedEncode,
    T10: NestedEncode,
    T11: NestedEncode,
> TopEncode for (T0, T1, T2, T3, T4, T5, T6, T7, T8, T9, T10, T11) {
    const TYPE_INFO: TypeInfo = TypeInfo::Unknown;

    open spec fn top_encodable(&self) -> bool {
        self.dep_encodable()
    }

    open spec fn top_encoding(&self) -> Seq<u8> {
        self.dep_encoding()
    }

    fn top_encode<O: TopEncodeOutput>(&self, output: &mut O) -> (r: Result<(), EncodeError>) {
        top_encode_from_nested(self, output)
    }
}

impl<
    T0: NestedRoundTrip,
    T1: NestedRoundTrip,
    T2: NestedRoundTrip,
    T3: NestedRoundTrip,
    T4: NestedRoundTrip,
    T5: NestedRoundTrip,
    T6: NestedRoundTrip,
    T7: NestedRoundTrip,
    T8: NestedRoundTrip,
    T9: NestedRoundTrip,
    T10: NestedRoundTrip,
    T11: NestedRoundTrip,
> TopRoundTrip for (T0, T1, T2, T3, T4, T5, T6, T7, T8, T9, T10, T11) {
    open spec fn top_delimited(&self) -> bool {
        true
    }

    proof fn lemma_top_round_trip(value: Self) {
        lemma_exact_round_trip::<Self>(value);
    }
}

/// Writes the encodings of 13 fields, one after the other.
fn dep_encode_fields_13<
    T0: NestedEncode,
    T1: NestedEncode,
    T2: NestedEncode,
    T3: NestedEncode,
    T4: NestedEncode,
    T5: NestedEncode,
    T6: NestedEncode,
    T7: NestedEncode,
    T8: NestedEncode,
    T9: NestedEncode,
    T10: NestedEncode,
    T11: NestedEncode,
    T12: NestedEncode,
    O: NestedEncodeOutput,
>(
    f0: &T0,
    f1: &T1,
    f2: &T2,
    f3: &T3,
    f4: &T4,
    f5: &T5,
    f6: &T6,
    f7: &T7,
    f8: &T8,
    f9: &T9,
    f10: &T10,
    f11: &T11,
    f12: &T12,
    dest: &mut O,
) -> (r: Result<(), EncodeError>)
    ensures
        match r {
            Ok(_) => (
                *f0,
                *f1,
                *f2,
                *f3,
                *f4,
                *f5,
                *f6,
                *f7,
                *f8,
                *f9,
                *f10,
                *f11,
                *f12,
            ).dep_encodable()
                && final(dest).written() == old(dest).written()
                + (
                    *f0,
                    *f1,
                    *f2,
                    *f3,
                    *f4,
                    *f5,
                    *f6,
                    *f7,
                    *f8,
                    *f9,
                    *f10,
                    *f11,
                    *f12,
                ).dep_encoding(),
            Err(e) => !(
                *f0,
                *f1,
                *f2,
                *f3,
                *f4,
                *f5,
                *f6,
                *f7,
                *f8,
                *f9,
                *f10,
                *f11,
                *f12,
            ).dep_encodable()
                && e == EncodeError::UNSUPPORTED_OPERATION
                && old(dest).written().is_prefix_of(final(dest).written()),
        },
{
    let ghost start = dest.written();
    let ghost init = (*f0, *f1, *f2, *f3, *f4, *f5, *f6, *f7, *f8, *f9, *f10, *f11);
    match dep_encode_fields_12(f0, f1, f2, f3, f4, f5, f6, f7, f8, f9, f10, f11, dest) {
        Ok(_) => {},
        Err(e) => {
            return Err(e);
        },
    }
    let ghost middle = dest.written();
    let r = f12.dep_encode(dest);
    proof {
        assert(start.is_prefix_of(middle));
        if r is Ok {
            assert((start + init.dep_encoding()) + f12.dep_encoding() =~= start + (
            init.dep_encoding() + f12.dep_encoding()));
        } else {
            assert(start.is_prefix_of(dest.written()));
        }
    }
    r
}

impl<
    T0: NestedDecode,
    T1: NestedDecode,
    T2: NestedDecode,
    T3: NestedDecode,
    T4: NestedDecode,
    T5: NestedDecode,
    T6: NestedDecode,
    T7: NestedDecode,
    T8: NestedDecode,
    T9: NestedDecode,
    T10: NestedDecode,
    T11: NestedDecode,
    T12: NestedDecode,
> NestedDecode for (T0, T1, T2, T3, T4, T5, T6, T7, T8, T9, T10, T11, T12) {
    const TYPE_INFO: TypeInfo = TypeInfo::Unknown;

    /// The last field follows the fields in front of it, with nothing in between.
    open spec fn dep_decoding(input: Seq<u8>) -> (
        Result<
            (
                T0::V,
                T1::V,
                T2::V,
                T3::V,
                T4::V,
                T5::V,
                T6::V,
                T7::V,
                T8::V,
                T9::V,
                T10::V,
                T11::V,
                T12::V,
            ),
            DecodeError,
        >,
        nat,
    ) {
        match <(T0, T1, T2, T3, T4, T5, T6, T7, T8, T9, T10, T11)>::dep_decoding(input) {
            (Ok(init), n) => match T12::dep_decoding(input.skip(n as int)) {
                (Ok(last), m) => (Ok((
                    init.0,
                    init.1,
                    init.2,
                    init.3,
                    init.4,
                    init.5,
                    init.6,
                    init.7,
                    init.8,
                    init.9,
                    init.10,
                    init.11,
                    last,
                )), n + m),
                (Err(e), m) => (Err(e), n + m),
            },
            (Err(e), n) => (Err(e), n),
        }
    }

    proof fn lemma_dep_decoding_consumed(input: Seq<u8>) {
        <(T0, T1, T2, T3, T4, T5, T6, T7, T8, T9, T10, T11)>::lemma_dep_decoding_consumed(input);
        let n = <(T0, T1, T2, T3, T4, T5, T6, T7, T8, T9, T10, T11)>::dep_decoding(input).1;
        T12::lemma_dep_decoding_consumed(input.skip(n as int));
    }

    proof fn lemma_byte_classified(input: Seq<u8>) {
    }

    fn dep_decode(input: &mut &[u8]) -> (r: Result<Self, DecodeError>) {
        let ghost start = (*input)@;
        let ghost n = <(T0, T1, T2, T3, T4, T5, T6, T7, T8, T9, T10, T11)>::dep_decoding(start).1;
        let ghost m = T12::dep_decoding(start.skip(n as int)).1;
        proof {
            <(T0, T1, T2, T3, T4, T5, T6, T7, T8, T9, T10, T11)>::lemma_dep_decoding_consumed(start);
            T12::lemma_dep_decoding_consumed(start.skip(n as int));
            assert(start.skip(n as int).skip(m as int) =~= start.skip((n + m) as int));
        }
        let init = match <(T0, T1, T2, T3, T4, T5, T6, T7, T8, T9, T10, T11)>::dep_decode(input) {
            Ok(init) => init,
            Err(e) => {
                return Err(e);
            },
        };
        match T12::dep_decode(input) {
            Ok(last) => Ok((
                init.0,
                init.1,
                init.2,
                init.3,
                init.4,
                init.5,
                init.6,
                init.7,
                init.8,
                init.9,
                init.10,
                init.11,
                last,
            )),
            Err(e) => Err(e),
        }
    }
}

impl<
    T0: NestedEncode,
    T1: NestedEncode,
    T2: NestedEncode,
    T3: NestedEncode,
    T4: NestedEncode,
    T5: NestedEncode,
    T6: NestedEncode,
    T7: NestedEncode,
    T8: NestedEncode,
    T9: NestedEncode,
    T10: NestedEncode,
    T11: NestedEncode,
    T12: NestedEncode,
> NestedEncode for (T0, T1, T2, T3, T4, T5, T6, T7, T8, T9, T10, T11, T12) {
    const TYPE_INFO: TypeInfo = TypeInfo::Unknown;

    open spec fn dep_encodable(&self) -> bool {
        (
            self.0,
            self.1,
            self.2,
            self.3,
            self.4,
            self.5,
            self.6,
            self.7,
            self.8,
            self.9,
            self.10,
            self.11,
        ).dep_encodable()
            && self.12.dep_encodable()
    }

    /// The encoding of the last field follows the encoding of the fields in
    /// front of it.
    open spec fn dep_encoding(&self) -> Seq<u8> {
        (
            self.0,
            self.1,
            self.2,
            self.3,
            self.4,
            self.5,
            self.6,
            self.7,
            self.8,
            self.9,
            self.10,
            self.11,
        ).dep_encoding()
            + self.12.dep_encoding()
    }

    fn dep_encode<O: NestedEncodeOutput>(&self, dest: &mut O) -> (r: Result<(), EncodeError>) {
        dep_encode_fields_13(
            &self.0,
            &self.1,
            &self.2,
            &self.3,
            &self.4,
            &self.5,
            &self.6,
            &self.7,
            &self.8,
            &self.9,
            &self.10,
            &self.11,
            &self.12,
            dest,
        )
    }
}

impl<
    T0: NestedRoundTrip,
    T1: NestedRoundTrip,
    T2: NestedRoundTrip,
    T3: NestedRoundTrip,
    T4: NestedRoundTrip,
    T5: NestedRoundTrip,
    T6: NestedRoundTrip,
    T7: NestedRoundTrip,
    T8: NestedRoundTrip,
    T9: NestedRoundTrip,
    T10: NestedRoundTrip,
    T11: NestedRoundTrip,
    T12: NestedRoundTrip,
> NestedRoundTrip for (T0, T1, T2, T3, T4, T5, T6, T7, T8, T9, T10, T11, T12) {
    proof fn lemma_dep_round_trip(value: Self, rest: Seq<u8>) {
        let init = (
            value.0,
            value.1,
            value.2,
            value.3,
            value.4,
            value.5,
            value.6,
            value.7,
            value.8,
            value.9,
            value.10,
            value.11,
        );
        let input = value.dep_encoding() + rest;
        let behind = value.12.dep_encoding() + rest;
        assert(input =~= init.dep_encoding() + behind);
        <(T0, T1, T2, T3, T4, T5, T6, T7, T8, T9, T10, T11)>::lemma_dep_round_trip(init, behind);
        assert(input.skip(init.dep_encoding().len() as int) =~= behind);
        T12::lemma_dep_round_trip(value.12, rest);
    }
}

impl<
    T0: NestedDecode,
    T1: NestedDecode,
    T2: NestedDecode,
    T3: NestedDecode,
    T4: NestedDecode,
    T5: NestedDecode,
    T6: NestedDecode,
    T7: NestedDecode,
    T8: NestedDecode,
    T9: NestedDecode,
    T10: NestedDecode,
    T11: NestedDecode,
    T12: NestedDecode,
> TopDecode for (T0, T1, T2, T3, T4, T5, T6, T7, T8, T9, T10, T11, T12) {
    const TYPE_INFO: TypeInfo = TypeInfo::Unknown;

    open spec fn top_decoding(bytes: Seq<u8>) -> Result<
        (
            T0::V,
            T1::V,
            T2::V,
            T3::V,
            T4::V,
            T5::V,
            T6::V,
            T7::V,
            T8::V,
            T9::V,
            T10::V,
            T11::V,
            T12::V,
        ),
        DecodeError,
    > {
        dep_decoding_exact::<Self>(bytes)
    }

    open spec fn top_decoding_boxed(bytes: Seq<u8>) -> Result<
        (
            T0::V,
            T1::V,
            T2::V,
            T3::V,
            T4::V,
            T5::V,
            T6::V,
            T7::V,
            T8::V,
            T9::V,
            T10::V,
            T11::V,
            T12::V,
        ),
        DecodeError,
    > {
        Self::top_decoding(bytes)
    }

    fn top_decode<I: TopDecodeInput>(input: I) -> (r: Result<Self, DecodeError>) {
        top_decode_from_nested(input)
    }

    fn top_decode_boxed<I: TopDecodeInput>(input: I) -> (r: Result<Box<Self>, DecodeError>) {
        match Self::top_decode(input) {
            Ok(value) => Ok(Box::new(value)),
            Err(e) => Err(e),
        }
    }
}

impl<
    T0: NestedEncode,
    T1: NestedEncode,
    T2: NestedEncode,
    T3: NestedEncode,
    T4: NestedEncode,
    T5: NestedEncode,
    T6: NestedEncode,
    T7: NestedEncode,
    T8: NestedEncode,
    T9: NestedEncode,
    T10: NestedEncode,
    T11: NestedEncode,
    T12: NestedEncode,
> TopEncode for (T0, T1, T2, T3, T4, T5, T6, T7, T8, T9, T10, T11, T12) {
    const TYPE_INFO: TypeInfo = TypeInfo::Unknown;

    open spec fn top_encodable(&self) -> bool {
        self.dep_encodable()
    }

    open spec fn top_encoding(&self) -> Seq<u8> {
        self.dep_encoding()
    }

    fn top_encode<O: TopEncodeOutput>(&self, output: &mut O) -> (r: Result<(), EncodeError>) {
        top_encode_from_nested(self, output)
    }
}

impl<
    T0: NestedRoundTrip,
    T1: NestedRoundTrip,
    T2: NestedRoundTrip,
    T3: NestedRoundTrip,
    T4: NestedRoundTrip,
    T5: NestedRoundTrip,
    T6: NestedRoundTrip,
    T7: NestedRoundTrip,
    T8: NestedRoundTrip,
    T9: NestedRoundTrip,
    T10: NestedRoundTrip,
    T11: NestedRoundTrip,
    T12: NestedRoundTrip,
> TopRoundTrip for (T0, T1, T2, T3, T4, T5, T6, T7, T8, T9, T10, T11, T12) {
    open spec fn top_delimited(&self) -> bool {
        true
    }

    proof fn lemma_top_round_trip(value: Self) {
        lemma_exact_round_trip::<Self>(value);
    }
}

/// Writes the encodings of 14 fields, one after the other.
fn dep_encode_fields_14<
    T0: NestedEncode,
    T1: NestedEncode,
    T2: NestedEncode,
    T3: NestedEncode,
    T4: NestedEncode,
    T5: NestedEncode,
    T6: NestedEncode,
    T7: NestedEncode,
    T8: NestedEncode,
    T9: NestedEncode,
    T10: NestedEncode,
    T11: NestedEncode,
    T12: NestedEncode,
    T13: NestedEncode,
    O: NestedEncodeOutput,
>(
    f0: &T0,
    f1: &T1,
    f2: &T2,
    f3: &T3,
    f4: &T4,
    f5: &T5,
    f6: &T6,
    f7: &T7,
    f8: &T8,
    f9: &T9,
    f10: &T10,
    f11: &T11,
    f12: &T12,
    f13: &T13,
    dest: &mut O,
) -> (r: Result<(), EncodeError>)
    ensures
        match r {
            Ok(_) => (
                *f0,
                *f1,
                *f2,
                *f3,
                *f4,
                *f5,
                *f6,
                *f7,
                *f8,
                *f9,
                *f10,
                *f11,
                *f12,
                *f13,
            ).dep_encodable()
                && final(dest).written() == old(dest).written()
                + (
                    *f0,
                    *f1,
                    *f2,
                    *f3,
                    *f4,
                    *f5,
                    *f6,
                    *f7,
                    *f8,
                    *f9,
                    *f10,
                    *f11,
                    *f12,
                    *f13,
                ).dep_encoding(),
            Err(e) => !(
                *f0,
                *f1,
                *f2,
                *f3,
                *f4,
                *f5,
                *f6,
                *f7,
                *f8,
                *f9,
                *f10,
                *f11,
                *f12,
                *f13,
            ).dep_encodable()
                && e == EncodeError::UNSUPPORTED_OPERATION
                && old(dest).written().is_prefix_of(final(dest).written()),
        },
{
    let ghost start = dest.written();
    let ghost init = (*f0, *f1, *f2, *f3, *f4, *f5, *f6, *f7, *f8, *f9, *f10, *f11, *f12);
    match dep_encode_fields_13(f0, f1, f2, f3, f4, f5, f6, f7, f8, f9, f10, f11, f12, dest) {
        Ok(_) => {},
        Err(e) => {
            return Err(e);
        },
    }
    let ghost middle = dest.written();
    let r = f13.dep_encode(dest);
    proof {
        assert(start.is_prefix_of(middle));
        if r is Ok {
            assert((start + init.dep_encoding()) + f13.dep_encoding() =~= start + (
            init.dep_encoding() + f13.dep_encoding()));
        } else {
            assert(start.is_prefix_of(dest.written()));
        }
    }
    r
}

impl<
    T0: NestedDecode,
    T1: NestedDecode,
    T2: NestedDecode,
    T3: NestedDecode,
    T4: NestedDecode,
    T5: NestedDecode,
    T6: NestedDecode,
    T7: NestedDecode,
    T8: NestedDecode,
    T9: NestedDecode,
    T10: NestedDecode,
    T11: NestedDecode,
    T12: NestedDecode,
    T13: NestedDecode,
> NestedDecode for (T0, T1, T2, T3, T4, T5, T6, T7, T8, T9, T10, T11, T12, T13) {
    const TYPE_INFO: TypeInfo = TypeInfo::Unknown;

    /// The last field follows the fields in front of it, with nothing in between.
    open spec fn dep_decoding(input: Seq<u8>) -> (
        Result<
            (
                T0::V,
                T1::V,
                T2::V,
                T3::V,
                T4::V,
                T5::V,
                T6::V,
                T7::V,
                T8::V,
                T9::V,
                T10::V,
                T11::V,
                T12::V,
                T13::V,
            ),
            DecodeError,
        >,
        nat,
    ) {
        match <(T0, T1, T2, T3, T4, T5, T6, T7, T8, T9, T10, T11, T12)>::dep_decoding(input) {
            (Ok(init), n) => match T13::dep_decoding(input.skip(n as int)) {
                (Ok(last), m) => (Ok((
                    init.0,
                    init.1,
                    init.2,
                    init.3,
                    init.4,
                    init.5,
                    init.6,
                    init.7,
                    init.8,
                    init.9,
                    init.10,
                    init.11,
                    init.12,
                    last,
                )), n + m),
                (Err(e), m) => (Err(e), n + m),
            },
            (Err(e), n) => (Err(e), n),
        }
    }

    proof fn lemma_dep_decoding_consumed(input: Seq<u8>) {
        <(T0, T1, T2, T3, T4, T5, T6, T7, T8, T9, T10, T11, T12)>::lemma_dep_decoding_consumed(input);
        let n = <(T0, T1, T2, T3, T4, T5, T6, T7, T8, T9, T10, T11, T12)>::dep_decoding(input).1;
        T13::lemma_dep_decoding_consumed(input.skip(n as int));
    }

    proof fn lemma_byte_classified(input: Seq<u8>) {
    }

    fn dep_decode(input: &mut &[u8]) -> (r: Result<Self, DecodeError>) {
        let ghost start = (*input)@;
        let ghost n = <(T0, T1, T2, T3, T4, T5, T6, T7, T8, T9, T10, T11, T12)>::dep_decoding(start).1;
        let ghost m = T13::dep_decoding(start.skip(n as int)).1;
        proof {
            <(T0, T1, T2, T3, T4, T5, T6, T7, T8, T9, T10, T11, T12)>::lemma_dep_decoding_consumed(start);
            T13::lemma_dep_decoding_consumed(start.skip(n as int));
            assert(start.skip(n as int).skip(m as int) =~= start.skip((n + m) as int));
        }
        let init = match <(T0, T1, T2, T3, T4, T5, T6, T7, T8, T9, T10, T11, T12)>::dep_decode(input) {
            Ok(init) => init,
            Err(e) => {
                return Err(e);
            },
        };
        match T13::dep_decode(input) {
            Ok(last) => Ok((
                init.0,
                init.1,
                init.2,
                init.3,
                init.4,
                init.5,
                init.6,
                init.7,
                init.8,
                init.9,
                init.10,
                init.11,
                init.12,
                last,
            )),
            Err(e) => Err(e),
        }
    }
}

impl<
    T0: NestedEncode,
    T1: NestedEncode,
    T2: NestedEncode,
    T3: NestedEncode,
    T4: NestedEncode,
    T5: NestedEncode,
    T6: NestedEncode,
    T7: NestedEncode,
    T8: NestedEncode,
    T9: NestedEncode,
    T10: NestedEncode,
    T11: NestedEncode,
    T12: NestedEncode,
    T13: NestedEncode,
> NestedEncode for (T0, T1, T2, T3, T4, T5, T6, T7, T8, T9, T10, T11, T12, T13) {
    const TYPE_INFO: TypeInfo = TypeInfo::Unknown;

    open spec fn dep_encodable(&self) -> bool {
        (
            self.0,
            self.1,
            self.2,
            self.3,
            self.4,
            self.5,
            self.6,
            self.7,
            self.8,
            self.9,
            self.10,
            self.11,
            self.12,
        ).dep_encodable()
            && self.13.dep_encodable()
    }

    /// The encoding of the last field follows the encoding of the fields in
    /// front of it.
    open spec fn dep_encoding(&self) -> Seq<u8> {
        (
            self.0,
            self.1,
            self.2,
            self.3,
            self.4,
            self.5,
            self.6,
            self.7,
            self.8,
            self.9,
            self.10,
            self.11,
            self.12,
        ).dep_encoding()
            + self.13.dep_encoding()
    }

    fn dep_encode<O: NestedEncodeOutput>(&self, dest: &mut O) -> (r: Result<(), EncodeError>) {
        dep_encode_fields_14(
            &self.0,
            &self.1,
            &self.2,
            &self.3,
            &self.4,
            &self.5,
            &self.6,
            &self.7,
            &self.8,
            &self.9,
            &self.10,
            &self.11,
            &self.12,
            &self.13,
            dest,
        )
    }
}

impl<
    T0: NestedRoundTrip,
    T1: NestedRoundTrip,
    T2: NestedRoundTrip,
    T3: NestedRoundTrip,
    T4: NestedRoundTrip,
    T5: NestedRoundTrip,
    T6: NestedRoundTrip,
    T7: NestedRoundTrip,
    T8: NestedRoundTrip,
    T9: NestedRoundTrip,
    T10: NestedRoundTrip,
    T11: NestedRoundTrip,
    T12: NestedRoundTrip,
    T13: NestedRoundTrip,
> NestedRoundTrip for (T0, T1, T2, T3, T4, T5, T6, T7, T8, T9, T10, T11, T12, T13) {
    proof fn lemma_dep_round_trip(value: Self, rest: Seq<u8>) {
        let init = (
            value.0,
            value.1,
            value.2,
            value.3,
            value.4,
            value.5,
            value.6,
            value.7,
            value.8,
            value.9,
            value.10,
            value.11,
            value.12,
        );
        let input = value.dep_encoding() + rest;
        let behind = value.13.dep_encoding() + rest;
        assert(input =~= init.dep_encoding() + behind);
        <(T0, T1, T2, T3, T4, T5, T6, T7, T8, T9, T10, T11, T12)>::lemma_dep_round_trip(init, behind);
        assert(input.skip(init.dep_encoding().len() as int) =~= behind);
        T13::lemma_dep_round_trip(value.13, rest);
    }
}

impl<
    T0: NestedDecode,
    T1: NestedDecode,
    T2: NestedDecode,
    T3: NestedDecode,
    T4: NestedDecode,
    T5: NestedDecode,
    T6: NestedDecode,
    T7: NestedDecode,
    T8: NestedDecode,
    T9: NestedDecode,
    T10: NestedDecode,
    T11: NestedDecode,
    T12: NestedDecode,
    T13: NestedDecode,
> TopDecode for (T0, T1, T2, T3, T4, T5, T6, T7, T8, T9, T10, T11, T12, T13) {
    const TYPE_INFO: TypeInfo = TypeInfo::Unknown;

    open spec fn top_decoding(bytes: Seq<u8>) -> Result<
        (
            T0::V,
            T1::V,
            T2::V,
            T3::V,
            T4::V,
            T5::V,
            T6::V,
            T7::V,
            T8::V,
            T9::V,
            T10::V,
            T11::V,
            T12::V,
            T13::V,
        ),
        DecodeError,
    > {
        dep_decoding_exact::<Self>(bytes)
    }

    open spec fn top_decoding_boxed(bytes: Seq<u8>) -> Result<
        (
            T0::V,
            T1::V,
            T2::V,
            T3::V,
            T4::V,
            T5::V,
            T6::V,
            T7::V,
            T8::V,
            T9::V,
            T10::V,
            T11::V,
            T12::V,
            T13::V,
        ),
        DecodeError,
    > {
        Self::top_decoding(bytes)
    }

    fn top_decode<I: TopDecodeInput>(input: I) -> (r: Result<Self, DecodeError>) {
        top_decode_from_nested(input)
    }

    fn top_decode_boxed<I: TopDecodeInput>(input: I) -> (r: Result<Box<Self>, DecodeError>) {
        match Self::top_decode(input) {
            Ok(value) => Ok(Box::new(value)),
            Err(e) => Err(e),
        }
    }
}

impl<
    T0: NestedEncode,
    T1: NestedEncode,
    T2: NestedEncode,
    T3: NestedEncode,
    T4: NestedEncode,
    T5: NestedEncode,
    T6: NestedEncode,
    T7: NestedEncode,
    T8: NestedEncode,
    T9: NestedEncode,
    T10: NestedEncode,
    T11: NestedEncode,
    T12: NestedEncode,
    T13: NestedEncode,
> TopEncode for (T0, T1, T2, T3, T4, T5, T6, T7, T8, T9, T10, T11, T12, T13) {
    const TYPE_INFO: TypeInfo = TypeInfo::Unknown;

    open spec fn top_encodable(&self) -> bool {
        self.dep_encodable()
    }

    open spec fn top_encoding(&self) -> Seq<u8> {
        self.dep_encoding()
    }

    fn top_encode<O: TopEncodeOutput>(&self, output: &mut O) -> (r: Result<(), EncodeError>) {
        top_encode_from_nested(self, output)
    }
}

impl<
    T0: NestedRoundTrip,
    T1: NestedRoundTrip,
    T2: NestedRoundTrip,
    T3: NestedRoundTrip,
    T4: NestedRoundTrip,
    T5: NestedRoundTrip,
    T6: NestedRoundTrip,
    T7: NestedRoundTrip,
    T8: NestedRoundTrip,
    T9: NestedRoundTrip,
    T10: NestedRoundTrip,
    T11: NestedRoundTrip,
    T12: NestedRoundTrip,
    T13: NestedRoundTrip,
> TopRoundTrip for (T0, T1, T2, T3, T4, T5, T6, T7, T8, T9, T10, T11, T12, T13) {
    open spec fn top_delimited(&self) -> bool {
        true
    }

    proof fn lemma_top_round_trip(value: Self) {
        lemma_exact_round_trip::<Self>(value);
    }
}

/// Writes the encodings of 15 fields, one after the other.
fn dep_encode_fields_15<
    T0: NestedEncode,
    T1: NestedEncode,
    T2: NestedEncode,
    T3: NestedEncode,
    T4: NestedEncode,
    T5: NestedEncode,
    T6: NestedEncode,
    T7: NestedEncode,
    T8: NestedEncode,
    T9: NestedEncode,
    T10: NestedEncode,
    T11: NestedEncode,
    T12: NestedEncode,
    T13: NestedEncode,
    T14: NestedEncode,
    O: NestedEncodeOutput,
>(
    f0: &T0,
    f1: &T1,
    f2: &T2,
    f3: &T3,
    f4: &T4,
    f5: &T5,
    f6: &T6,
    f7: &T7,
    f8: &T8,
    f9: &T9,
    f10: &T10,
    f11: &T11,
    f12: &T12,
    f13: &T13,
    f14: &T14,
    dest: &mut O,
) -> (r: Result<(), EncodeError>)
    ensures
        match r {
            Ok(_) => (
                *f0,
                *f1,
                *f2,
                *f3,
                *f4,
                *f5,
                *f6,
                *f7,
                *f8,
                *f9,
                *f10,
                *f11,
                *f12,
                *f13,
                *f14,
            ).dep_encodable()
                && final(dest).written() == old(dest).written()
                + (
                    *f0,
                    *f1,
                    *f2,
                    *f3,
                    *f4,
                    *f5,
                    *f6,
                    *f7,
                    *f8,
                    *f9,
                    *f10,
                    *f11,
                    *f12,
                    *f13,
                    *f14,
                ).dep_encoding(),
            Err(e) => !(
                *f0,
                *f1,
                *f2,
                *f3,
                *f4,
                *f5,
                *f6,
                *f7,
                *f8,
                *f9,
                *f10,
                *f11,
                *f12,
                *f13,
                *f14,
            ).dep_encodable()
                && e == EncodeError::UNSUPPORTED_OPERATION
                && old(dest).written().is_prefix_of(final(dest).written()),
        },
{
    let ghost start = dest.written();
    let ghost init = (
        *f0,
        *f1,
        *f2,
        *f3,
        *f4,
        *f5,
        *f6,
        *f7,
        *f8,
        *f9,
        *f10,
        *f11,
        *f12,
        *f13,
    );
    match dep_encode_fields_14(
              f0,
              f1,
              f2,
              f3,
              f4,
              f5,
              f6,
              f7,
              f8,
              f9,
              f10,
              f11,
              f12,
              f13,
              dest,
          ) {
        Ok(_) => {},
        Err(e) => {
            return Err(e);
        },
    }
    let ghost middle = dest.written();
    let r = f14.dep_encode(dest);
    proof {
        assert(start.is_prefix_of(middle));
        if r is Ok {
            assert((start + init.dep_encoding()) + f14.dep_encoding() =~= start + (
            init.dep_encoding() + f14.dep_encoding()));
        } else {
            assert(start.is_prefix_of(dest.written()));
        }
    }
    r
}

impl<
    T0: NestedDecode,
    T1: NestedDecode,
    T2: NestedDecode,
    T3: NestedDecode,
    T4: NestedDecode,
    T5: NestedDecode,
    T6: NestedDecode,
    T7: NestedDecode,
    T8: NestedDecode,
    T9: NestedDecode,
    T10: NestedDecode,
    T11: NestedDecode,
    T12: NestedDecode,
    T13: NestedDecode,
    T14: NestedDecode,
> NestedDecode for (T0, T1, T2, T3, T4, T5, T6, T7, T8, T9, T10, T11, T12, T13, T14) {
    const TYPE_INFO: TypeInfo = TypeInfo::Unknown;

    /// The last field follows the fields in front of it, with nothing in between.
    open spec fn dep_decoding(input: Seq<u8>) -> (
        Result<
            (
                T0::V,
                T1::V,
                T2::V,
                T3::V,
                T4::V,
                T5::V,
                T6::V,
                T7::V,
                T8::V,
                T9::V,
                T10::V,
                T11::V,
                T12::V,
                T13::V,
                T14::V,
            ),
            DecodeError,
        >,
        nat,
    ) {
        match <(T0, T1, T2, T3, T4, T5, T6, T7, T8, T9, T10, T11, T12, T13)>::dep_decoding(input) {
            (Ok(init), n) => match T14::dep_decoding(input.skip(n as int)) {
                (Ok(last), m) => (Ok((
                    init.0,
                    init.1,
                    init.2,
                    init.3,
                    init.4,
                    init.5,
                    init.6,
                    init.7,
                    init.8,
                    init.9,
                    init.10,
                    init.11,
                    init.12,
                    init.13,
                    last,
                )), n + m),
                (Err(e), m) => (Err(e), n + m),
            },
            (Err(e), n) => (Err(e), n),
        }
    }

    proof fn lemma_dep_decoding_consumed(input: Seq<u8>) {
        <(T0, T1, T2, T3, T4, T5, T6, T7, T8, T9, T10, T11, T12, T13)>::lemma_dep_decoding_consumed(input);
        let n = <(T0, T1, T2, T3, T4, T5, T6, T7, T8, T9, T10, T11, T12, T13)>::dep_decoding(input).1;
        T14::lemma_dep_decoding_consumed(input.skip(n as int));
    }

    proof fn lemma_byte_classified(input: Seq<u8>) {
    }

    fn dep_decode(input: &mut &[u8]) -> (r: Result<Self, DecodeError>) {
        let ghost start = (*input)@;
        let ghost n = <(T0, T1, T2, T3, T4, T5, T6, T7, T8, T9, T10, T11, T12, T13)>::dep_decoding(start).1;
        let ghost m = T14::dep_decoding(start.skip(n as int)).1;
        proof {
            <(T0, T1, T2, T3, T4, T5, T6, T7, T8, T9, T10, T11, T12, T13)>::lemma_dep_decoding_consumed(start);
            T14::lemma_dep_decoding_consumed(start.skip(n as int));
            assert(start.skip(n as int).skip(m as int) =~= start.skip((n + m) as int));
        }
        let init = match <(T0, T1, T2, T3, T4, T5, T6, T7, T8, T9, T10, T11, T12, T13)>::dep_decode(input) {
            Ok(init) => init,
            Err(e) => {
                return Err(e);
            },
        };
        match T14::dep_decode(input) {
            Ok(last) => Ok((
                init.0,
                init.1,
                init.2,
                init.3,
                init.4,
                init.5,
                init.6,
                init.7,
                init.8,
                init.9,
                init.10,
                init.11,
                init.12,
                init.13,
                last,
            )),
            Err(e) => Err(e),
        }
    }
}

impl<
    T0: NestedEncode,
    T1: NestedEncode,
    T2: NestedEncode,
    T3: NestedEncode,
    T4: NestedEncode,
    T5: NestedEncode,
    T6: NestedEncode,
    T7: NestedEncode,
    T8: NestedEncode,
    T9: NestedEncode,
    T10: NestedEncode,
    T11: NestedEncode,
    T12: NestedEncode,
    T13: NestedEncode,
    T14: NestedEncode,
> NestedEncode for (T0, T1, T2, T3, T4, T5, T6, T7, T8, T9, T10, T11, T12, T13, T14) {
    const TYPE_INFO: TypeInfo = TypeInfo::Unknown;

    open spec fn dep_encodable(&self) -> bool {
        (
            self.0,
            self.1,
            self.2,
            self.3,
            self.4,
            self.5,
            self.6,
            self.7,
            self.8,
            self.9,
            self.10,
            self.11,
            self.12,
            self.13,
        ).dep_encodable()
            && self.14.dep_encodable()
    }

    /// The encoding of the last field follows the encoding of the fields in
    /// front of it.
    open spec fn dep_encoding(&self) -> Seq<u8> {
        (
            self.0,
            self.1,
            self.2,
            self.3,
            self.4,
            self.5,
            self.6,
            self.7,
            self.8,
            self.9,
            self.10,
            self.11,
            self.12,
            self.13,
        ).dep_encoding()
            + self.14.dep_encoding()
    }

    fn dep_encode<O: NestedEncodeOutput>(&self, dest: &mut O) -> (r: Result<(), EncodeError>) {
        dep_encode_fields_15(
            &self.0,
            &self.1,
            &self.2,
            &self.3,
            &self.4,
            &self.5,
            &self.6,
            &self.7,
            &self.8,
            &self.9,
            &self.10,
            &self.11,
            &self.12,
            &self.13,
            &self.14,
            dest,
        )
    }
}

impl<
    T0: NestedRoundTrip,
    T1: NestedRoundTrip,
    T2: NestedRoundTrip,
    T3: NestedRoundTrip,
    T4: NestedRoundTrip,
    T5: NestedRoundTrip,
    T6: NestedRoundTrip,
    T7: NestedRoundTrip,
    T8: NestedRoundTrip,
    T9: NestedRoundTrip,
    T10: NestedRoundTrip,
    T11: NestedRoundTrip,
    T12: NestedRoundTrip,
    T13: NestedRoundTrip,
    T14: NestedRoundTrip,
> NestedRoundTrip for (T0, T1, T2, T3, T4, T5, T6, T7, T8, T9, T10, T11, T12, T13, T14) {
    proof fn lemma_dep_round_trip(value: Self, rest: Seq<u8>) {
        let init = (
            value.0,
            value.1,
            value.2,
            value.3,
            value.4,
            value.5,
            value.6,
            value.7,
            value.8,
            value.9,
            value.10,
            value.11,
            value.12,
            value.13,
        );
        let input = value.dep_encoding() + rest;
        let behind = value.14.dep_encoding() + rest;
        assert(input =~= init.dep_encoding() + behind);
        <(T0, T1, T2, T3, T4, T5, T6, T7, T8, T9, T10, T11, T12, T13)>::lemma_dep_round_trip(init, behind);
        assert(input.skip(init.dep_encoding().len() as int) =~= behind);
        T14::lemma_dep_round_trip(value.14, rest);
    }
}

impl<
    T0: NestedDecode,
    T1: NestedDecode,
    T2: NestedDecode,
    T3: NestedDecode,
    T4: NestedDecode,
    T5: NestedDecode,
    T6: NestedDecode,
    T7: NestedDecode,
    T8: NestedDecode,
    T9: NestedDecode,
    T10: NestedDecode,
    T11: NestedDecode,
    T12: NestedDecode,
    T13: NestedDecode,
    T14: NestedDecode,
> TopDecode for (T0, T1, T2, T3, T4, T5, T6, T7, T8, T9, T10, T11, T12, T13, T14) {
    const TYPE_INFO: TypeInfo = TypeInfo::Unknown;

    open spec fn top_decoding(bytes: Seq<u8>) -> Result<
        (
            T0::V,
            T1::V,
            T2::V,
            T3::V,
            T4::V,
            T5::V,
            T6::V,
            T7::V,
            T8::V,
            T9::V,
            T10::V,
            T11::V,
            T12::V,
            T13::V,
            T14::V,
        ),
        DecodeError,
    > {
        dep_decoding_exact::<Self>(bytes)
    }

    open spec fn top_decoding_boxed(bytes: Seq<u8>) -> Result<
        (
            T0::V,
            T1::V,
            T2::V,
            T3::V,
            T4::V,
            T5::V,
            T6::V,
            T7::V,
            T8::V,
            T9::V,
            T10::V,
            T11::V,
            T12::V,
            T13::V,
            T14::V,
        ),
        DecodeError,
    > {
        Self::top_decoding(bytes)
    }

    fn top_decode<I: TopDecodeInput>(input: I) -> (r: Result<Self, DecodeError>) {
        top_decode_from_nested(input)
    }

    fn top_decode_boxed<I: TopDecodeInput>(input: I) -> (r: Result<Box<Self>, DecodeError>) {
        match Self::top_decode(input) {
            Ok(value) => Ok(Box::new(value)),
            Err(e) => Err(e),
        }
    }
}

impl<
    T0: NestedEncode,
    T1: NestedEncode,
    T2: NestedEncode,
    T3: NestedEncode,
    T4: NestedEncode,
    T5: NestedEncode,
    T6: NestedEncode,
    T7: NestedEncode,
    T8: NestedEncode,
    T9: NestedEncode,
    T10: NestedEncode,
    T11: NestedEncode,
    T12: NestedEncode,
    T13: NestedEncode,
    T14: NestedEncode,
> TopEncode for (T0, T1, T2, T3, T4, T5, T6, T7, T8, T9, T10, T11, T12, T13, T14) {
    const TYPE_INFO: TypeInfo = TypeInfo::Unknown;

    open spec fn top_encodable(&self) -> bool {
        self.dep_encodable()
    }

    open spec fn top_encoding(&self) -> Seq<u8> {
        self.dep_encoding()
    }

    fn top_encode<O: TopEncodeOutput>(&self, output: &mut O) -> (r: Result<(), EncodeError>) {
        top_encode_from_nested(self, output)
    }
}

impl<
    T0: NestedRoundTrip,
    T1: NestedRoundTrip,
    T2: NestedRoundTrip,
    T3: NestedRoundTrip,
    T4: NestedRoundTrip,
    T5: NestedRoundTrip,
    T6: NestedRoundTrip,
    T7: NestedRoundTrip,
    T8: NestedRoundTrip,
    T9: NestedRoundTrip,
    T10: NestedRoundTrip,
    T11: NestedRoundTrip,
    T12: NestedRoundTrip,
    T13: NestedRoundTrip,
    T14: NestedRoundTrip,
> TopRoundTrip for (T0, T1, T2, T3, T4, T5, T6, T7, T8, T9, T10, T11, T12, T13, T14) {
    open spec fn top_delimited(&self) -> bool {
        true
    }

    proof fn lemma_top_round_trip(value: Self) {
        lemma_exact_round_trip::<Self>(value);
    }
}

/// Writes the encodings of 16 fields, one after the other.
fn dep_encode_fields_16<
    T0: NestedEncode,
    T1: NestedEncode,
    T2: NestedEncode,
    T3: NestedEncode,
    T4: NestedEncode,
    T5: NestedEncode,
    T6: NestedEncode,
    T7: NestedEncode,
    T8: NestedEncode,
    T9: NestedEncode,
    T10: NestedEncode,
    T11: NestedEncode,
    T12: NestedEncode,
    T13: NestedEncode,
    T14: NestedEncode,
    T15: NestedEncode,
    O: NestedEncodeOutput,
>(
    f0: &T0,
    f1: &T1,
    f2: &T2,
    f3: &T3,
    f4: &T4,
    f5: &T5,
    f6: &T6,
    f7: &T7,
    f8: &T8,
    f9: &T9,
    f10: &T10,
    f11: &T11,
    f12: &T12,
    f13: &T13,
    f14: &T14,
    f15: &T15,
    dest: &mut O,
) -> (r: Result<(), EncodeError>)
    ensures
        match r {
            Ok(_) => (
                *f0,
                *f1,
                *f2,
                *f3,
                *f4,
                *f5,
                *f6,
                *f7,
                *f8,
                *f9,
                *f10,
                *f11,
                *f12,
                *f13,
                *f14,
                *f15,
            ).dep_encodable()
                && final(dest).written() == old(dest).written()
                + (
                    *f0,
                    *f1,
                    *f2,
                    *f3,
                    *f4,
                    *f5,
                    *f6,
                    *f7,
                    *f8,
                    *f9,
                    *f10,
                    *f11,
                    *f12,
                    *f13,
                    *f14,
                    *f15,
                ).dep_encoding(),
            Err(e) => !(
                *f0,
                *f1,
                *f2,
                *f3,
                *f4,
                *f5,
                *f6,
                *f7,
                *f8,
                *f9,
                *f10,
                *f11,
                *f12,
                *f13,
                *f14,
                *f15,
            ).dep_encodable()
                && e == EncodeError::UNSUPPORTED_OPERATION
                && old(dest).written().is_prefix_of(final(dest).written()),
        },
{
    let ghost start = dest.written();
    let ghost init = (
        *f0,
        *f1,
        *f2,
        *f3,
        *f4,
        *f5,
        *f6,
        *f7,
        *f8,
        *f9,
        *f10,
        *f11,
        *f12,
        *f13,
        *f14,
    );
    match dep_encode_fields_15(
              f0,
              f1,
              f2,
              f3,
              f4,
              f5,
              f6,
              f7,
              f8,
              f9,
              f10,
              f11,
              f12,
              f13,
              f14,
              dest,
          ) {
        Ok(_) => {},
        Err(e) => {
            return Err(e);
        },
    }
    let ghost middle = dest.written();
    let r = f15.dep_encode(dest);
    proof {
        assert(start.is_prefix_of(middle));
        if r is Ok {
            assert((start + init.dep_encoding()) + f15.dep_encoding() =~= start + (
            init.dep_encoding() + f15.dep_encoding()));
        } else {
            assert(start.is_prefix_of(dest.written()));
        }
    }
    r
}

impl<
    T0: NestedDecode,
    T1: NestedDecode,
    T2: NestedDecode,
    T3: NestedDecode,
    T4: NestedDecode,
    T5: NestedDecode,
    T6: NestedDecode,
    T7: NestedDecode,
    T8: NestedDecode,
    T9: NestedDecode,
    T10: NestedDecode,
    T11: NestedDecode,
    T12: NestedDecode,
    T13: NestedDecode,
    T14: NestedDecode,
    T15: NestedDecode,
> NestedDecode for (T0, T1, T2, T3, T4, T5, T6, T7, T8, T9, T10, T11, T12, T13, T14, T15) {
    const TYPE_INFO: TypeInfo = TypeInfo::Unknown;

    /// The last field follows the fields in front of it, with nothing in between.
    open spec fn dep_decoding(input: Seq<u8>) -> (
        Result<
            (
                T0::V,
                T1::V,
                T2::V,
                T3::V,
                T4::V,
                T5::V,
                T6::V,
                T7::V,
                T8::V,
                T9::V,
                T10::V,
                T11::V,
                T12::V,
                T13::V,
                T14::V,
                T15::V,
            ),
            DecodeError,
        >,
        nat,
    ) {
        match <(T0, T1, T2, T3, T4, T5, T6, T7, T8, T9, T10, T11, T12, T13, T14)>::dep_decoding(input) {
            (Ok(init), n) => match T15::dep_decoding(input.skip(n as int)) {
                (Ok(last), m) => (Ok((
                    init.0,
                    init.1,
                    init.2,
                    init.3,
                    init.4,
                    init.5,
                    init.6,
                    init.7,
                    init.8,
                    init.9,
                    init.10,
                    init.11,
                    init.12,
                    init.13,
                    init.14,
                    last,
                )), n + m),
                (Err(e), m) => (Err(e), n + m),
            },
            (Err(e), n) => (Err(e), n),
        }
    }

    proof fn lemma_dep_decoding_consumed(input: Seq<u8>) {
        <(T0, T1, T2, T3, T4, T5, T6, T7, T8, T9, T10, T11, T12, T13, T14)>::lemma_dep_decoding_consumed(input);
        let n = <(T0, T1, T2, T3, T4, T5, T6, T7, T8, T9, T10, T11, T12, T13, T14)>::dep_decoding(input).1;
        T15::lemma_dep_decoding_consumed(input.skip(n as int));
    }

    proof fn lemma_byte_classified(input: Seq<u8>) {
    }

    fn dep_decode(input: &mut &[u8]) -> (r: Result<Self, DecodeError>) {
        let ghost start = (*input)@;
        let ghost n = <(T0, T1, T2, T3, T4, T5, T6, T7, T8, T9, T10, T11, T12, T13, T14)>::dep_decoding(start).1;
        let ghost m = T15::dep_decoding(start.skip(n as int)).1;
        proof {
            <(T0, T1, T2, T3, T4, T5, T6, T7, T8, T9, T10, T11, T12, T13, T14)>::lemma_dep_decoding_consumed(start);
            T15::lemma_dep_decoding_consumed(start.skip(n as int));
            assert(start.skip(n as int).skip(m as int) =~= start.skip((n + m) as int));
        }
        let init = match <(T0, T1, T2, T3, T4, T5, T6, T7, T8, T9, T10, T11, T12, T13, T14)>::dep_decode(input) {
            Ok(init) => init,
            Err(e) => {
                return Err(e);
            },
        };
        match T15::dep_decode(input) {
            Ok(last) => Ok((
                init.0,
                init.1,
                init.2,
                init.3,
                init.4,
                init.5,
                init.6,
                init.7,
                init.8,
                init.9,
                init.10,
                init.11,
                init.12,
                init.13,
                init.14,
                last,
            )),
            Err(e) => Err(e),
        }
    }
}

impl<
    T0: NestedEncode,
    T1: NestedEncode,
    T2: NestedEncode,
    T3: NestedEncode,
    T4: NestedEncode,
    T5: NestedEncode,
    T6: NestedEncode,
    T7: NestedEncode,
    T8: NestedEncode,
    T9: NestedEncode,
    T10: NestedEncode,
    T11: NestedEncode,
    T12: NestedEncode,
    T13: NestedEncode,
    T14: NestedEncode,
    T15: NestedEncode,
> NestedEncode for (T0, T1, T2, T3, T4, T5, T6, T7, T8, T9, T10, T11, T12, T13, T14, T15) {
    const TYPE_INFO: TypeInfo = TypeInfo::Unknown;

    open spec fn dep_encodable(&self) -> bool {
        (
            self.0,
            self.1,
            self.2,
            self.3,
            self.4,
            self.5,
            self.6,
            self.7,
            self.8,
            self.9,
            self.10,
            self.11,
            self.12,
            self.13,
            self.14,
        ).dep_encodable()
            && self.15.dep_encodable()
    }

    /// The encoding of the last field follows the encoding of the fields in
    /// front of it.
    open spec fn dep_encoding(&self) -> Seq<u8> {
        (
            self.0,
            self.1,
            self.2,
            self.3,
            self.4,
            self.5,
            self.6,
            self.7,
            self.8,
            self.9,
            self.10,
            self.11,
            self.12,
            self.13,
            self.14,
        ).dep_encoding()
            + self.15.dep_encoding()
    }

    fn dep_encode<O: NestedEncodeOutput>(&self, dest: &mut O) -> (r: Result<(), EncodeError>) {
        dep_encode_fields_16(
            &self.0,
            &self.1,
            &self.2,
            &self.3,
            &self.4,
            &self.5,
            &self.6,
            &self.7,
            &self.8,
            &self.9,
            &self.10,
            &self.11,
            &self.12,
            &self.13,
            &self.14,
            &self.15,
            dest,
        )
    }
}

impl<
    T0: NestedRoundTrip,
    T1: NestedRoundTrip,
    T2: NestedRoundTrip,
    T3: NestedRoundTrip,
    T4: NestedRoundTrip,
    T5: NestedRoundTrip,
    T6: NestedRoundTrip,
    T7: NestedRoundTrip,
    T8: NestedRoundTrip,
    T9: NestedRoundTrip,
    T10: NestedRoundTrip,
    T11: NestedRoundTrip,
    T12: NestedRoundTrip,
    T13: NestedRoundTrip,
    T14: NestedRoundTrip,
    T15: NestedRoundTrip,
> NestedRoundTrip for (T0, T1, T2, T3, T4, T5, T6, T7, T8, T9, T10, T11, T12, T13, T14, T15) {
    proof fn lemma_dep_round_trip(value: Self, rest: Seq<u8>) {
        let init = (
            value.0,
            value.1,
            value.2,
            value.3,
            value.4,
            value.5,
            value.6,
            value.7,
            value.8,
            value.9,
            value.10,
            value.11,
            value.12,
            value.13,
            value.14,
        );
        let input = value.dep_encoding() + rest;
        let behind = value.15.dep_encoding() + rest;
        assert(input =~= init.dep_encoding() + behind);
        <(T0, T1, T2, T3, T4, T5, T6, T7, T8, T9, T10, T11, T12, T13, T14)>::lemma_dep_round_trip(init, behind);
        assert(input.skip(init.dep_encoding().len() as int) =~= behind);
        T15::lemma_dep_round_trip(value.15, rest);
    }
}

impl<
    T0: NestedDecode,
    T1: NestedDecode,
    T2: NestedDecode,
    T3: NestedDecode,
    T4: NestedDecode,
    T5: NestedDecode,
    T6: NestedDecode,
    T7: NestedDecode,
    T8: NestedDecode,
    T9: NestedDecode,
    T10: NestedDecode,
    T11: NestedDecode,
    T12: NestedDecode,
    T13: NestedDecode,
    T14: NestedDecode,
    T15: NestedDecode,
> TopDecode for (T0, T1, T2, T3, T4, T5, T6, T7, T8, T9, T10, T11, T12, T13, T14, T15) {
    const TYPE_INFO: TypeInfo = TypeInfo::Unknown;

    open spec fn top_decoding(bytes: Seq<u8>) -> Result<
        (
            T0::V,
            T1::V,
            T2::V,
            T3::V,
            T4::V,
            T5::V,
            T6::V,
            T7::V,
            T8::V,
            T9::V,
            T10::V,
            T11::V,
            T12::V,
            T13::V,
            T14::V,
            T15::V,
        ),
        DecodeError,
    > {
        dep_decoding_exact::<Self>(bytes)
    }

    open spec fn top_decoding_boxed(bytes: Seq<u8>) -> Result<
        (
            T0::V,
            T1::V,
            T2::V,
            T3::V,
            T4::V,
            T5::V,
            T6::V,
            T7::V,
            T8::V,
            T9::V,
            T10::V,
            T11::V,
            T12::V,
            T13::V,
            T14::V,
            T15::V,
        ),
        DecodeError,
    > {
        Self::top_decoding(bytes)
    }

    fn top_decode<I: TopDecodeInput>(input: I) -> (r: Result<Self, DecodeError>) {
        top_decode_from_nested(input)
    }

    fn top_decode_boxed<I: TopDecodeInput>(input: I) -> (r: Result<Box<Self>, DecodeError>) {
        match Self::top_decode(input) {
            Ok(value) => Ok(Box::new(value)),
            Err(e) => Err(e),
        }
    }
}

impl<
    T0: NestedEncode,
    T1: NestedEncode,
    T2: NestedEncode,
    T3: NestedEncode,
    T4: NestedEncode,
    T5: NestedEncode,
    T6: NestedEncode,
    T7: NestedEncode,
    T8: NestedEncode,
    T9: NestedEncode,
    T10: NestedEncode,
    T11: NestedEncode,
    T12: NestedEncode,
    T13: NestedEncode,
    T14: NestedEncode,
    T15: NestedEncode,
> TopEncode for (T0, T1, T2, T3, T4, T5, T6, T7, T8, T9, T10, T11, T12, T13, T14, T15) {
    const TYPE_INFO: TypeInfo = TypeInfo::Unknown;

    open spec fn top_encodable(&self) -> bool {
        self.dep_encodable()
    }

    open spec fn top_encoding(&self) -> Seq<u8> {
        self.dep_encoding()
    }

    fn top_encode<O: TopEncodeOutput>(&self, output: &mut O) -> (r: Result<(), EncodeError>) {
        top_encode_from_nested(self, output)
    }
}

impl<
    T0: NestedRoundTrip,
    T1: NestedRoundTrip,
    T2: NestedRoundTrip,
    T3: NestedRoundTrip,
    T4: NestedRoundTrip,
    T5: NestedRoundTrip,
    T6: NestedRoundTrip,
    T7: NestedRoundTrip,
    T8: NestedRoundTrip,
    T9: NestedRoundTrip,
    T10: NestedRoundTrip,
    T11: NestedRoundTrip,
    T12: NestedRoundTrip,
    T13: NestedRoundTrip,
    T14: NestedRoundTrip,
    T15: NestedRoundTrip,
> TopRoundTrip for (T0, T1, T2, T3, T4, T5, T6, T7, T8, T9, T10, T11, T12, T13, T14, T15) {
    open spec fn top_delimited(&self) -> bool {
        true
    }

    proof fn lemma_top_round_trip(value: Self) {
        lemma_exact_round_trip::<Self>(value);
    }
}

} // verus!
