use crate::codec_err::DecodeError;
use crate::model::{seq_model, Model};
use crate::nested_de::{dep_decoding_exact, dep_number, dep_sequence, NestedDecode};
use crate::nested_en::{seq_encodable, seq_encoding, NestedEncode};
use crate::num_conv::{
    be_bytes, lemma_be_bytes, lemma_be_bytes_value, lemma_minimal_signed_value,
    lemma_minimal_unsigned_value, lemma_pow256_values, pow256,
};
use crate::top_de::{top_sequence, TopDecode};
use crate::top_en::TopEncode;
use vstd::prelude::*;

verus! {

/// The types whose nested encoding decodes to the value that was encoded,
/// whatever bytes follow it.
pub trait NestedRoundTrip: NestedEncode + NestedDecode {
    /// Decoding the nested encoding of `value`, with `rest` behind it, gives
    /// `value` and leaves the cursor in front of `rest`.
    proof fn lemma_dep_round_trip(value: Self, rest: Seq<u8>)
        requires
            value.dep_encodable(),
        ensures
            Self::dep_decoding(value.dep_encoding() + rest) == (
                Ok::<<Self as Model>::V, DecodeError>(value.model()),
                value.dep_encoding().len(),
            ),
    ;
}

/// The types whose top-level encoding decodes to the value that was encoded.
pub trait TopRoundTrip: TopEncode + TopDecode {
    /// Whether the payload of the value shows where its parts end. Only a row of
    /// values without a count can fail to: where a value is encoded as no bytes at
    /// all, the payload does not tell how many of them there are.
    spec fn top_delimited(&self) -> bool;

    /// Decoding the top-level encoding of `value` gives `value`, also where the
    /// value is wanted in a box.
    proof fn lemma_top_round_trip(value: Self)
        requires
            value.top_encodable(),
            value.top_delimited(),
        ensures
            Self::top_decoding(value.top_encoding()) == Ok::<<Self as Model>::V, DecodeError>(
                value.model(),
            ),
            Self::top_decoding_boxed(value.top_encoding()) == Ok::<
                <Self as Model>::V,
                DecodeError,
            >(value.model()),
    ;
}

/// A number that fits `width` bytes is what its fixed-width encoding decodes to.
pub proof fn lemma_dep_number_round_trip(v: int, width: nat, signed: bool, rest: Seq<u8>)
    requires
        width > 0,
        signed ==> -128 * pow256((width - 1) as nat) <= v < 128 * pow256((width - 1) as nat),
        !signed ==> 0 <= v < pow256(width),
    ensures
        dep_number(be_bytes(v, width) + rest, width, signed) == (
            Ok::<int, DecodeError>(v),
            width,
        ),
{
    lemma_be_bytes(v, width);
    lemma_be_bytes_value(v, width);
    assert((be_bytes(v, width) + rest).take(width as int) =~= be_bytes(v, width));
}

/// A row of values is what the row of their encodings decodes to.
pub proof fn lemma_dep_sequence_round_trip<T: NestedRoundTrip>(items: Seq<T>, rest: Seq<u8>)
    requires
        seq_encodable(items),
    ensures
        dep_sequence::<T>(seq_encoding(items) + rest, items.len()) == (
            Ok::<Seq<T::V>, DecodeError>(seq_model(items)),
            seq_encoding(items).len(),
        ),
    decreases items.len(),
{
    if items.len() == 0 {
        assert(seq_model(items) =~= Seq::<T::V>::empty());
    } else {
        let first = items[0];
        let others = items.drop_first();
        let input = seq_encoding(items) + rest;
        assert(first.dep_encodable());
        assert forall|i: int| 0 <= i < others.len() implies (
        #[trigger] others[i]).dep_encodable() by {
            assert(items[i + 1].dep_encodable());
        }
        assert(input =~= first.dep_encoding() + (seq_encoding(others) + rest));
        T::lemma_dep_round_trip(first, seq_encoding(others) + rest);
        assert(input.skip(first.dep_encoding().len() as int) =~= seq_encoding(others) + rest);
        lemma_dep_sequence_round_trip::<T>(others, rest);
        assert(seq![first.model()] + seq_model(others) =~= seq_model(items));
    }
}

/// A row of values, each of which is encoded as at least one byte, is what the
/// row of their encodings decodes to as a whole payload.
pub proof fn lemma_top_sequence_round_trip<T: NestedRoundTrip>(items: Seq<T>)
    requires
        seq_encodable(items),
        forall|i: int| 0 <= i < items.len() ==> (#[trigger] items[i]).dep_encoding().len() > 0,
    ensures
        top_sequence::<T>(seq_encoding(items)) == Ok::<Seq<T::V>, DecodeError>(
            seq_model(items),
        ),
    decreases items.len(),
{
    if items.len() == 0 {
        assert(seq_model(items) =~= Seq::<T::V>::empty());
    } else {
        let first = items[0];
        let others = items.drop_first();
        let input = seq_encoding(items);
        assert(first.dep_encodable());
        assert(first.dep_encoding().len() > 0);
        assert forall|i: int| 0 <= i < others.len() implies (#[trigger] others[i]).dep_encodable()
            && others[i].dep_encoding().len() > 0 by {
            assert(items[i + 1].dep_encodable());
            assert(items[i + 1].dep_encoding().len() > 0);
        }
        T::lemma_dep_round_trip(first, seq_encoding(others));
        assert(input.skip(first.dep_encoding().len() as int) =~= seq_encoding(others));
        lemma_top_sequence_round_trip::<T>(others);
        assert(seq![first.model()] + seq_model(others) =~= seq_model(items));
    }
}

/// A value that is followed by more bytes is not a whole payload: decoding the
/// payload as exactly one value fails, and the error says that the input is too
/// long.
pub proof fn lemma_trailing_bytes_are_too_long<T: NestedRoundTrip>(value: T, extra: Seq<u8>)
    requires
        value.dep_encodable(),
        extra.len() > 0,
    ensures
        dep_decoding_exact::<T>(value.dep_encoding() + extra) == Err::<T::V, DecodeError>(
            DecodeError::INPUT_TOO_LONG,
        ),
{
    T::lemma_dep_round_trip(value, extra);
}

/// A value whose encoding is the whole payload decodes from it.
pub proof fn lemma_exact_round_trip<T: NestedRoundTrip>(value: T)
    requires
        value.dep_encodable(),
    ensures
        dep_decoding_exact::<T>(value.dep_encoding()) == Ok::<T::V, DecodeError>(
            value.model(),
        ),
{
    T::lemma_dep_round_trip(value, Seq::empty());
    assert(value.dep_encoding() + Seq::<u8>::empty() =~= value.dep_encoding());
}

impl NestedRoundTrip for u8 {
    proof fn lemma_dep_round_trip(value: Self, rest: Seq<u8>) {
    }
}

impl TopRoundTrip for u8 {
    open spec fn top_delimited(&self) -> bool {
        true
    }

    proof fn lemma_top_round_trip(value: Self) {
        lemma_minimal_unsigned_value(value as u64);
    }
}

impl NestedRoundTrip for u16 {
    proof fn lemma_dep_round_trip(value: Self, rest: Seq<u8>) {
        lemma_pow256_values();
        lemma_dep_number_round_trip(value as int, 2, false, rest);
        lemma_be_bytes(value as int, 2);
    }
}

impl TopRoundTrip for u16 {
    open spec fn top_delimited(&self) -> bool {
        true
    }

    proof fn lemma_top_round_trip(value: Self) {
        lemma_minimal_unsigned_value(value as u64);
    }
}

impl NestedRoundTrip for u32 {
    proof fn lemma_dep_round_trip(value: Self, rest: Seq<u8>) {
        lemma_pow256_values();
        lemma_dep_number_round_trip(value as int, 4, false, rest);
        lemma_be_bytes(value as int, 4);
    }
}

impl TopRoundTrip for u32 {
    open spec fn top_delimited(&self) -> bool {
        true
    }

    proof fn lemma_top_round_trip(value: Self) {
        lemma_minimal_unsigned_value(value as u64);
    }
}

impl NestedRoundTrip for usize {
    proof fn lemma_dep_round_trip(value: Self, rest: Seq<u8>) {
        lemma_pow256_values();
        lemma_dep_number_round_trip(value as int, 4, false, rest);
        lemma_be_bytes(value as int, 4);
    }
}

impl TopRoundTrip for usize {
    open spec fn top_delimited(&self) -> bool {
        true
    }

    proof fn lemma_top_round_trip(value: Self) {
        lemma_minimal_unsigned_value(value as u64);
    }
}

impl NestedRoundTrip for u64 {
    proof fn lemma_dep_round_trip(value: Self, rest: Seq<u8>) {
        lemma_pow256_values();
        lemma_dep_number_round_trip(value as int, 8, false, rest);
        lemma_be_bytes(value as int, 8);
    }
}

impl TopRoundTrip for u64 {
    open spec fn top_delimited(&self) -> bool {
        true
    }

    proof fn lemma_top_round_trip(value: Self) {
        lemma_minimal_unsigned_value(value as u64);
    }
}

impl NestedRoundTrip for i8 {
    proof fn lemma_dep_round_trip(value: Self, rest: Seq<u8>) {
        lemma_pow256_values();
        lemma_dep_number_round_trip(value as int, 1, true, rest);
        lemma_be_bytes(value as int, 1);
    }
}

impl TopRoundTrip for i8 {
    open spec fn top_delimited(&self) -> bool {
        true
    }

    proof fn lemma_top_round_trip(value: Self) {
        lemma_minimal_signed_value(value as i64);
    }
}

impl NestedRoundTrip for i16 {
    proof fn lemma_dep_round_trip(value: Self, rest: Seq<u8>) {
        lemma_pow256_values();
        lemma_dep_number_round_trip(value as int, 2, true, rest);
        lemma_be_bytes(value as int, 2);
    }
}

impl TopRoundTrip for i16 {
    open spec fn top_delimited(&self) -> bool {
        true
    }

    proof fn lemma_top_round_trip(value: Self) {
        lemma_minimal_signed_value(value as i64);
    }
}

impl NestedRoundTrip for i32 {
    proof fn lemma_dep_round_trip(value: Self, rest: Seq<u8>) {
        lemma_pow256_values();
        lemma_dep_number_round_trip(value as int, 4, true, rest);
        lemma_be_bytes(value as int, 4);
    }
}

impl TopRoundTrip for i32 {
    open spec fn top_delimited(&self) -> bool {
        true
    }

    proof fn lemma_top_round_trip(value: Self) {
        lemma_minimal_signed_value(value as i64);
    }
}

impl NestedRoundTrip for isize {
    proof fn lemma_dep_round_trip(value: Self, rest: Seq<u8>) {
        lemma_pow256_values();
        lemma_dep_number_round_trip(value as int, 4, true, rest);
        lemma_be_bytes(value as int, 4);
    }
}

impl TopRoundTrip for isize {
    open spec fn top_delimited(&self) -> bool {
        true
    }

    proof fn lemma_top_round_trip(value: Self) {
        lemma_minimal_signed_value(value as i64);
    }
}

impl NestedRoundTrip for i64 {
    proof fn lemma_dep_round_trip(value: Self, rest: Seq<u8>) {
        lemma_pow256_values();
        lemma_dep_number_round_trip(value as int, 8, true, rest);
        lemma_be_bytes(value as int, 8);
    }
}

impl TopRoundTrip for i64 {
    open spec fn top_delimited(&self) -> bool {
        true
    }

    proof fn lemma_top_round_trip(value: Self) {
        lemma_minimal_signed_value(value as i64);
    }
}

impl NestedRoundTrip for () {
    proof fn lemma_dep_round_trip(value: Self, rest: Seq<u8>) {
    }
}

impl TopRoundTrip for () {
    open spec fn top_delimited(&self) -> bool {
        true
    }

    proof fn lemma_top_round_trip(value: Self) {
    }
}

impl NestedRoundTrip for bool {
    proof fn lemma_dep_round_trip(value: Self, rest: Seq<u8>) {
    }
}

impl TopRoundTrip for bool {
    open spec fn top_delimited(&self) -> bool {
        true
    }

    proof fn lemma_top_round_trip(value: Self) {
        lemma_minimal_unsigned_value(if value { 1u64 } else { 0u64 });
    }
}

impl<T: NestedRoundTrip> NestedRoundTrip for Option<T> {
    proof fn lemma_dep_round_trip(value: Self, rest: Seq<u8>) {
        match value {
            Some(inner) => {
                let input = value.dep_encoding() + rest;
                assert(input.skip(1) =~= inner.dep_encoding() + rest);
                T::lemma_dep_round_trip(inner, rest);
            },
            None => {},
        }
    }
}

impl<T: NestedRoundTrip> TopRoundTrip for Option<T> {
    open spec fn top_delimited(&self) -> bool {
        true
    }

    proof fn lemma_top_round_trip(value: Self) {
        match value {
            Some(inner) => {
                assert(value.top_encoding().skip(1) =~= inner.dep_encoding());
                lemma_exact_round_trip::<T>(inner);
            },
            None => {},
        }
    }
}

impl<T: NestedRoundTrip> NestedRoundTrip for Box<T> {
    proof fn lemma_dep_round_trip(value: Self, rest: Seq<u8>) {
        T::lemma_dep_round_trip(*value, rest);
    }
}

impl<T: TopRoundTrip> TopRoundTrip for Box<T> {
    open spec fn top_delimited(&self) -> bool {
        (**self).top_delimited()
    }

    proof fn lemma_top_round_trip(value: Self) {
        T::lemma_top_round_trip(*value);
    }
}

impl<T: NestedRoundTrip> NestedRoundTrip for Vec<T> {
    proof fn lemma_dep_round_trip(value: Self, rest: Seq<u8>) {
        let count = be_bytes(value@.len() as int, 4);
        let input = value.dep_encoding() + rest;
        lemma_pow256_values();
        lemma_be_bytes(value@.len() as int, 4);
        assert(input =~= count + (seq_encoding(value@) + rest));
        lemma_dep_number_round_trip(value@.len() as int, 4, false, seq_encoding(value@) + rest);
        assert(input.skip(4) =~= seq_encoding(value@) + rest);
        lemma_dep_sequence_round_trip::<T>(value@, rest);
        assert(Seq::<T::V>::empty() + seq_model(value@) =~= value.model());
    }
}

impl<T: NestedRoundTrip> TopRoundTrip for Vec<T> {
    /// Every element is encoded as at least one byte.
    open spec fn top_delimited(&self) -> bool {
        forall|i: int| 0 <= i < self@.len() ==> (#[trigger] self@[i]).dep_encoding().len() > 0
    }

    proof fn lemma_top_round_trip(value: Self) {
        lemma_top_sequence_round_trip::<T>(value@);
        assert(seq_model(value@) =~= value.model());
    }
}

impl<T: NestedRoundTrip> TopRoundTrip for Box<[T]> {
    /// Every element is encoded as at least one byte.
    open spec fn top_delimited(&self) -> bool {
        forall|i: int| 0 <= i < self@.len() ==> (#[trigger] self@[i]).dep_encoding().len() > 0
    }

    proof fn lemma_top_round_trip(value: Self) {
        lemma_top_sequence_round_trip::<T>(value@);
        assert(seq_model(value@) =~= value.model());
    }
}

} // verus!
