use crate::codec_err::DecodeError;
use crate::model::Model;
use crate::num_conv::{
    be_signed, be_unsigned, bytes_to_number, lemma_be_fold_split, lemma_be_signed_bounds,
    lemma_pow256_values, lemma_reinterpret_i64, lemma_wrap_in_range, pow256,
};
use crate::type_info::TypeInfo;
use vstd::prelude::*;
use vstd::slice::slice_subrange;

verus! {

/// Whether the outcome `r` of a decoding is the one that `m` calls for: the same
/// error, or a value that stands for the value of `m`.
pub open spec fn decoded_as<T: Model>(
    r: Result<T, DecodeError>,
    m: Result<T::V, DecodeError>,
) -> bool {
    match (r, m) {
        (Ok(value), Ok(model)) => value.model() == model,
        (Err(e), Err(f)) => e == f,
        _ => false,
    }
}

/// The value that a type decodes from the single byte `b`.
pub open spec fn byte_as<T: NestedDecode>(b: u8) -> T::V {
    T::dep_decoding(seq![b]).0->Ok_0
}

/// Decoding of a value that is embedded in a larger structure. The value is
/// read from the front of a cursor, which moves past the bytes that were used
/// and leaves the rest to the fields that follow.
pub trait NestedDecode: Sized + Model {
    /// The classification of the type, which containers of it read.
    const TYPE_INFO: TypeInfo = TypeInfo::Unknown;

    /// What the front of `input` decodes to, and how many bytes the cursor moves.
    /// On an error the count covers the parts that were decoded before the part
    /// that failed.
    spec fn dep_decoding(input: Seq<u8>) -> (Result<<Self as Model>::V, DecodeError>, nat);

    /// The cursor never moves past the end of the input.
    proof fn lemma_dep_decoding_consumed(input: Seq<u8>)
        ensures
            Self::dep_decoding(input).1 <= input.len(),
    ;

    /// A type that is classified as one raw byte decodes from any non-empty input
    /// by taking its first byte, whatever follows.
    proof fn lemma_byte_classified(input: Seq<u8>)
        ensures
            Self::TYPE_INFO == TypeInfo::U8 && input.len() > 0 ==> Self::dep_decoding(input) == (
                Ok::<<Self as Model>::V, DecodeError>(
                    Self::dep_decoding(seq![input[0]]).0->Ok_0,
                ),
                1nat,
            ),
    ;

    /// Decodes one value from the front of `input` and moves the cursor.
    fn dep_decode(input: &mut &[u8]) -> (r: Result<Self, DecodeError>)
        ensures
            decoded_as(r, Self::dep_decoding((*old(input))@).0),
            (*final(input))@ == (*old(input))@.skip(Self::dep_decoding((*old(input))@).1 as int),
    ;

    /// Takes a whole buffer of bytes over as a vector of values, one value for
    /// each byte, without decoding them one by one. Only a type that is
    /// classified as one raw byte can do so; every other type hands the buffer
    /// back untouched.
    fn bytes_into_vec(bytes: Vec<u8>) -> (r: Result<Vec<Self>, Vec<u8>>)
        ensures
            match r {
                Ok(values) => Self::TYPE_INFO == TypeInfo::U8 && values.model().len()
                    == bytes@.len() && forall|i: int|
                    0 <= i < bytes@.len() ==> #[trigger] values.model()[i]
                        == Self::dep_decoding(seq![bytes@[i]]).0->Ok_0,
                Err(back) => back@ == bytes@,
            },
    {
        Err(bytes)
    }
}

/// What `bytes` decode to where they must hold exactly one value: bytes that
/// are left over after the value are an error.
pub open spec fn dep_decoding_exact<D: NestedDecode>(bytes: Seq<u8>) -> Result<D::V, DecodeError> {
    match D::dep_decoding(bytes) {
        (Ok(value), n) => if n == bytes.len() {
            Ok(value)
        } else {
            Err(DecodeError::INPUT_TOO_LONG)
        },
        (Err(e), _) => Err(e),
    }
}

/// Decodes one value from `input` and checks that the value takes up all of it.
pub fn dep_decode_from_byte_slice<D: NestedDecode>(input: &[u8]) -> (r: Result<D, DecodeError>)
    ensures
        decoded_as(r, dep_decoding_exact::<D>(input@)),
{
    let mut cursor = input;
    proof {
        D::lemma_dep_decoding_consumed(input@);
    }
    match D::dep_decode(&mut cursor) {
        Ok(result) => {
            if cursor.is_empty() {
                Ok(result)
            } else {
                Err(DecodeError::INPUT_TOO_LONG)
            }
        },
        Err(e) => Err(e),
    }
}

/// Takes `len` bytes from the front of the cursor, or fails and leaves the
/// cursor where it was if fewer remain.
pub fn read_slice<'a>(input: &mut &'a [u8], len: usize) -> (r: Result<&'a [u8], DecodeError>)
    ensures
        (*old(input))@.len() < len ==> r == Err::<&[u8], DecodeError>(DecodeError::INPUT_TOO_SHORT)
            && (*final(input))@ == (*old(input))@,
        (*old(input))@.len() >= len ==> r is Ok && r->Ok_0@ == (*old(input))@.take(len as int) && (
        *final(input))@ == (*old(input))@.skip(len as int),
{
    if input.len() < len {
        Err(DecodeError::INPUT_TOO_SHORT)
    } else {
        let head = slice_subrange(*input, 0, len);
        *input = slice_subrange(*input, len, input.len());
        assert(head@ =~= (*old(input))@.take(len as int));
        assert((*input)@ =~= (*old(input))@.skip(len as int));
        Ok(head)
    }
}

/// Moves the cursor past `len` bytes that have been looked at.
fn advance(input: &mut &[u8], len: usize)
    requires
        len <= (*old(input))@.len(),
    ensures
        (*final(input))@ == (*old(input))@.skip(len as int),
{
    *input = slice_subrange(*input, len, input.len());
    assert((*input)@ =~= (*old(input))@.skip(len as int));
}

/// What a fixed-width big-endian number of `width` bytes decodes to.
pub open spec fn dep_number(input: Seq<u8>, width: nat, signed: bool) -> (
    Result<int, DecodeError>,
    nat,
) {
    if input.len() < width {
        (Err(DecodeError::INPUT_TOO_SHORT), 0)
    } else if signed {
        (Ok(be_signed(input.take(width as int))), width)
    } else {
        (Ok(be_unsigned(input.take(width as int))), width)
    }
}

/// Decodes a big-endian unsigned number of `width` bytes, as many as a 64-bit
/// word can hold.
pub fn dep_decode_unsigned(input: &mut &[u8], width: usize) -> (r: Result<u64, DecodeError>)
    requires
        width <= 8,
    ensures
        (*final(input))@ == (*old(input))@.skip(
            dep_number((*old(input))@, width as nat, false).1 as int,
        ),
        match dep_number((*old(input))@, width as nat, false).0 {
            Ok(v) => r == Ok::<u64, DecodeError>(v as u64) && 0 <= v < pow256(width as nat),
            Err(e) => r == Err::<u64, DecodeError>(e),
        },
{
    assert((*input)@.skip(0) =~= (*input)@);
    match read_slice(input, width) {
        Ok(bytes) => {
            proof {
                lemma_be_fold_split(0, bytes@);
                lemma_pow256_values();
                lemma_wrap_in_range(be_unsigned(bytes@));
            }
            Ok(bytes_to_number(bytes, false))
        },
        Err(e) => Err(e),
    }
}

/// Decodes a big-endian two's-complement number of `width` bytes, as many as a
/// 64-bit word can hold.
pub fn dep_decode_signed(input: &mut &[u8], width: usize) -> (r: Result<i64, DecodeError>)
    requires
        width <= 8,
    ensures
        (*final(input))@ == (*old(input))@.skip(
            dep_number((*old(input))@, width as nat, true).1 as int,
        ),
        match dep_number((*old(input))@, width as nat, true).0 {
            Ok(v) => r == Ok::<i64, DecodeError>(v as i64) && -pow256(width as nat) <= 2 * v
                < pow256(width as nat),
            Err(e) => r == Err::<i64, DecodeError>(e),
        },
{
    assert((*input)@.skip(0) =~= (*input)@);
    match read_slice(input, width) {
        Ok(bytes) => {
            let word = bytes_to_number(bytes, true);
            proof {
                if width > 0 {
                    lemma_be_signed_bounds(bytes@);
                }
                lemma_pow256_values();
                lemma_wrap_in_range(be_signed(bytes@));
                lemma_reinterpret_i64(word);
            }
            Ok(word as i64)
        },
        Err(e) => Err(e),
    }
}


impl NestedDecode for u8 {
    const TYPE_INFO: TypeInfo = TypeInfo::U8;

    open spec fn dep_decoding(input: Seq<u8>) -> (Result<u8, DecodeError>, nat) {
        if input.len() == 0 {
            (Err(DecodeError::INPUT_TOO_SHORT), 0)
        } else {
            (Ok(input[0]), 1)
        }
    }

    proof fn lemma_dep_decoding_consumed(input: Seq<u8>) {
    }

    proof fn lemma_byte_classified(input: Seq<u8>) {
    }

    fn dep_decode(input: &mut &[u8]) -> (r: Result<Self, DecodeError>) {
        assert((*input)@.skip(0) =~= (*input)@);
        match read_slice(input, 1) {
            Ok(bytes) => Ok(bytes[0]),
            Err(e) => Err(e),
        }
    }

    fn bytes_into_vec(bytes: Vec<u8>) -> (r: Result<Vec<Self>, Vec<u8>>)
        ensures
            r is Ok,
    {
        Ok(bytes)
    }
}

impl NestedDecode for u16 {
    const TYPE_INFO: TypeInfo = TypeInfo::U16;

    open spec fn dep_decoding(input: Seq<u8>) -> (Result<u16, DecodeError>, nat) {
        match dep_number(input, 2, false) {
            (Ok(v), n) => (Ok(v as u16), n),
            (Err(e), n) => (Err(e), n),
        }
    }

    proof fn lemma_dep_decoding_consumed(input: Seq<u8>) {
    }

    proof fn lemma_byte_classified(input: Seq<u8>) {
    }

    fn dep_decode(input: &mut &[u8]) -> (r: Result<Self, DecodeError>) {
        proof {
            lemma_pow256_values();
        }
        match dep_decode_unsigned(input, 2) {
            Ok(v) => Ok(v as u16),
            Err(e) => Err(e),
        }
    }
}

impl NestedDecode for u32 {
    const TYPE_INFO: TypeInfo = TypeInfo::U32;

    open spec fn dep_decoding(input: Seq<u8>) -> (Result<u32, DecodeError>, nat) {
        match dep_number(input, 4, false) {
            (Ok(v), n) => (Ok(v as u32), n),
            (Err(e), n) => (Err(e), n),
        }
    }

    proof fn lemma_dep_decoding_consumed(input: Seq<u8>) {
    }

    proof fn lemma_byte_classified(input: Seq<u8>) {
    }

    fn dep_decode(input: &mut &[u8]) -> (r: Result<Self, DecodeError>) {
        proof {
            lemma_pow256_values();
        }
        match dep_decode_unsigned(input, 4) {
            Ok(v) => Ok(v as u32),
            Err(e) => Err(e),
        }
    }
}

impl NestedDecode for usize {
    const TYPE_INFO: TypeInfo = TypeInfo::USIZE;

    /// A machine word travels as 32 bits, whatever the width of the platform.
    open spec fn dep_decoding(input: Seq<u8>) -> (Result<usize, DecodeError>, nat) {
        match dep_number(input, 4, false) {
            (Ok(v), n) => (Ok(v as usize), n),
            (Err(e), n) => (Err(e), n),
        }
    }

    proof fn lemma_dep_decoding_consumed(input: Seq<u8>) {
    }

    proof fn lemma_byte_classified(input: Seq<u8>) {
    }

    fn dep_decode(input: &mut &[u8]) -> (r: Result<Self, DecodeError>) {
        proof {
            lemma_pow256_values();
        }
        match dep_decode_unsigned(input, 4) {
            Ok(v) => Ok(v as usize),
            Err(e) => Err(e),
        }
    }
}

impl NestedDecode for u64 {
    const TYPE_INFO: TypeInfo = TypeInfo::U64;

    open spec fn dep_decoding(input: Seq<u8>) -> (Result<u64, DecodeError>, nat) {
        match dep_number(input, 8, false) {
            (Ok(v), n) => (Ok(v as u64), n),
            (Err(e), n) => (Err(e), n),
        }
    }

    proof fn lemma_dep_decoding_consumed(input: Seq<u8>) {
    }

    proof fn lemma_byte_classified(input: Seq<u8>) {
    }

    fn dep_decode(input: &mut &[u8]) -> (r: Result<Self, DecodeError>) {
        proof {
            lemma_pow256_values();
        }
        match dep_decode_unsigned(input, 8) {
            Ok(v) => Ok(v as u64),
            Err(e) => Err(e),
        }
    }
}

impl NestedDecode for i8 {
    const TYPE_INFO: TypeInfo = TypeInfo::I8;

    open spec fn dep_decoding(input: Seq<u8>) -> (Result<i8, DecodeError>, nat) {
        match dep_number(input, 1, true) {
            (Ok(v), n) => (Ok(v as i8), n),
            (Err(e), n) => (Err(e), n),
        }
    }

    proof fn lemma_dep_decoding_consumed(input: Seq<u8>) {
    }

    proof fn lemma_byte_classified(input: Seq<u8>) {
    }

    fn dep_decode(input: &mut &[u8]) -> (r: Result<Self, DecodeError>) {
        proof {
            lemma_pow256_values();
        }
        match dep_decode_signed(input, 1) {
            Ok(v) => Ok(v as i8),
            Err(e) => Err(e),
        }
    }
}

impl NestedDecode for i16 {
    const TYPE_INFO: TypeInfo = TypeInfo::I16;

    open spec fn dep_decoding(input: Seq<u8>) -> (Result<i16, DecodeError>, nat) {
        match dep_number(input, 2, true) {
            (Ok(v), n) => (Ok(v as i16), n),
            (Err(e), n) => (Err(e), n),
        }
    }

    proof fn lemma_dep_decoding_consumed(input: Seq<u8>) {
    }

    proof fn lemma_byte_classified(input: Seq<u8>) {
    }

    fn dep_decode(input: &mut &[u8]) -> (r: Result<Self, DecodeError>) {
        proof {
            lemma_pow256_values();
        }
        match dep_decode_signed(input, 2) {
            Ok(v) => Ok(v as i16),
            Err(e) => Err(e),
        }
    }
}

impl NestedDecode for i32 {
    const TYPE_INFO: TypeInfo = TypeInfo::I32;

    open spec fn dep_decoding(input: Seq<u8>) -> (Result<i32, DecodeError>, nat) {
        match dep_number(input, 4, true) {
            (Ok(v), n) => (Ok(v as i32), n),
            (Err(e), n) => (Err(e), n),
        }
    }

    proof fn lemma_dep_decoding_consumed(input: Seq<u8>) {
    }

    proof fn lemma_byte_classified(input: Seq<u8>) {
    }

    fn dep_decode(input: &mut &[u8]) -> (r: Result<Self, DecodeError>) {
        proof {
            lemma_pow256_values();
        }
        match dep_decode_signed(input, 4) {
            Ok(v) => Ok(v as i32),
            Err(e) => Err(e),
        }
    }
}

impl NestedDecode for isize {
    const TYPE_INFO: TypeInfo = TypeInfo::ISIZE;

    /// A machine word travels as 32 bits, whatever the width of the platform.
    open spec fn dep_decoding(input: Seq<u8>) -> (Result<isize, DecodeError>, nat) {
        match dep_number(input, 4, true) {
            (Ok(v), n) => (Ok(v as isize), n),
            (Err(e), n) => (Err(e), n),
        }
    }

    proof fn lemma_dep_decoding_consumed(input: Seq<u8>) {
    }

    proof fn lemma_byte_classified(input: Seq<u8>) {
    }

    fn dep_decode(input: &mut &[u8]) -> (r: Result<Self, DecodeError>) {
        proof {
            lemma_pow256_values();
        }
        match dep_decode_signed(input, 4) {
            Ok(v) => Ok(v as isize),
            Err(e) => Err(e),
        }
    }
}

impl NestedDecode for i64 {
    const TYPE_INFO: TypeInfo = TypeInfo::I64;

    open spec fn dep_decoding(input: Seq<u8>) -> (Result<i64, DecodeError>, nat) {
        match dep_number(input, 8, true) {
            (Ok(v), n) => (Ok(v as i64), n),
            (Err(e), n) => (Err(e), n),
        }
    }

    proof fn lemma_dep_decoding_consumed(input: Seq<u8>) {
    }

    proof fn lemma_byte_classified(input: Seq<u8>) {
    }

    fn dep_decode(input: &mut &[u8]) -> (r: Result<Self, DecodeError>) {
        proof {
            lemma_pow256_values();
        }
        match dep_decode_signed(input, 8) {
            Ok(v) => Ok(v as i64),
            Err(e) => Err(e),
        }
    }
}


impl NestedDecode for () {
    const TYPE_INFO: TypeInfo = TypeInfo::Unit;

    /// The unit value takes no bytes.
    open spec fn dep_decoding(input: Seq<u8>) -> (Result<(), DecodeError>, nat) {
        (Ok(()), 0)
    }

    proof fn lemma_dep_decoding_consumed(input: Seq<u8>) {
    }

    proof fn lemma_byte_classified(input: Seq<u8>) {
    }

    fn dep_decode(input: &mut &[u8]) -> (r: Result<Self, DecodeError>) {
        assert((*input)@.skip(0) =~= (*input)@);
        Ok(())
    }
}

impl NestedDecode for bool {
    const TYPE_INFO: TypeInfo = TypeInfo::Bool;

    /// One byte: 0 is false and 1 is true. Any other byte is no boolean.
    open spec fn dep_decoding(input: Seq<u8>) -> (Result<bool, DecodeError>, nat) {
        if input.len() == 0 {
            (Err(DecodeError::INPUT_TOO_SHORT), 0)
        } else if input[0] == 0 {
            (Ok(false), 1)
        } else if input[0] == 1 {
            (Ok(true), 1)
        } else {
            (Err(DecodeError::INVALID_VALUE), 0)
        }
    }

    proof fn lemma_dep_decoding_consumed(input: Seq<u8>) {
    }

    proof fn lemma_byte_classified(input: Seq<u8>) {
    }

    fn dep_decode(input: &mut &[u8]) -> (r: Result<Self, DecodeError>) {
        assert((*input)@.skip(0) =~= (*input)@);
        if input.len() == 0 {
            return Err(DecodeError::INPUT_TOO_SHORT);
        }
        let first = input[0];
        if first > 1 {
            return Err(DecodeError::INVALID_VALUE);
        }
        advance(input, 1);
        Ok(first == 1)
    }
}

impl<T: NestedDecode> NestedDecode for Option<T> {
    /// One byte of presence, 0 or 1, and after a 1 the value.
    open spec fn dep_decoding(input: Seq<u8>) -> (Result<Option<T::V>, DecodeError>, nat) {
        if input.len() == 0 {
            (Err(DecodeError::INPUT_TOO_SHORT), 0)
        } else if input[0] == 0 {
            (Ok(None), 1)
        } else if input[0] == 1 {
            match T::dep_decoding(input.skip(1)) {
                (Ok(value), n) => (Ok(Some(value)), 1 + n),
                (Err(e), n) => (Err(e), 1 + n),
            }
        } else {
            (Err(DecodeError::INVALID_VALUE), 0)
        }
    }

    proof fn lemma_dep_decoding_consumed(input: Seq<u8>) {
        if input.len() > 0 {
            T::lemma_dep_decoding_consumed(input.skip(1));
        }
    }

    proof fn lemma_byte_classified(input: Seq<u8>) {
    }

    fn dep_decode(input: &mut &[u8]) -> (r: Result<Self, DecodeError>) {
        assert((*input)@.skip(0) =~= (*input)@);
        if input.len() == 0 {
            return Err(DecodeError::INPUT_TOO_SHORT);
        }
        let first = input[0];
        if first > 1 {
            return Err(DecodeError::INVALID_VALUE);
        }
        advance(input, 1);
        if first == 0 {
            return Ok(None);
        }
        let ghost rest = (*input)@;
        let value = T::dep_decode(input);
        proof {
            T::lemma_dep_decoding_consumed(rest);
            let n = T::dep_decoding(rest).1;
            assert(rest.skip(n as int) =~= (*old(input))@.skip(1 + n as int));
        }
        match value {
            Ok(v) => Ok(Some(v)),
            Err(e) => Err(e),
        }
    }
}

impl<T: NestedDecode> NestedDecode for Box<T> {
    /// A box is transparent: it decodes as the value inside it.
    open spec fn dep_decoding(input: Seq<u8>) -> (Result<T::V, DecodeError>, nat) {
        T::dep_decoding(input)
    }

    proof fn lemma_dep_decoding_consumed(input: Seq<u8>) {
        T::lemma_dep_decoding_consumed(input);
    }

    proof fn lemma_byte_classified(input: Seq<u8>) {
    }

    fn dep_decode(input: &mut &[u8]) -> (r: Result<Self, DecodeError>) {
        match T::dep_decode(input) {
            Ok(v) => Ok(Box::new(v)),
            Err(e) => Err(e),
        }
    }
}


/// Puts the values `done`, decoded from `used` bytes, in front of the outcome of
/// decoding the rest.
pub open spec fn after<V>(
    done: Seq<V>,
    used: nat,
    rest: (Result<Seq<V>, DecodeError>, nat),
) -> (Result<Seq<V>, DecodeError>, nat) {
    match rest.0 {
        Ok(values) => (Ok(done + values), used + rest.1),
        Err(e) => (Err(e), used + rest.1),
    }
}

/// What `count` values in a row decode to: the first from the front of `input`,
/// each next one from where the one before it ended. The first failure ends the
/// decoding with its error.
pub open spec fn dep_sequence<T: NestedDecode>(input: Seq<u8>, count: nat) -> (
    Result<Seq<T::V>, DecodeError>,
    nat,
)
    decreases count,
{
    if count == 0 {
        (Ok(Seq::empty()), 0)
    } else {
        match T::dep_decoding(input) {
            (Ok(value), n) => after(
                seq![value],
                n,
                dep_sequence::<T>(input.skip(n as int), (count - 1) as nat),
            ),
            (Err(e), n) => (Err(e), n),
        }
    }
}

/// Decoding a sequence never moves the cursor past the end of the input, and a
/// success yields as many values as were asked for.
pub proof fn lemma_dep_sequence<T: NestedDecode>(input: Seq<u8>, count: nat)
    ensures
        dep_sequence::<T>(input, count).1 <= input.len(),
        dep_sequence::<T>(input, count).0 matches Ok(values) ==> values.len() == count,
    decreases count,
{
    if count > 0 {
        T::lemma_dep_decoding_consumed(input);
        let n = T::dep_decoding(input).1;
        if T::dep_decoding(input).0 is Ok {
            lemma_dep_sequence::<T>(input.skip(n as int), (count - 1) as nat);
        }
    }
}

/// Decodes `count` values in a row from the cursor.
pub fn dep_decode_sequence<T: NestedDecode>(input: &mut &[u8], count: usize) -> (r: Result<
    Vec<T>,
    DecodeError,
>)
    ensures
        decoded_as(r, dep_sequence::<T>((*old(input))@, count as nat).0),
        (*final(input))@ == (*old(input))@.skip(
            dep_sequence::<T>((*old(input))@, count as nat).1 as int,
        ),
{
    let ghost start = (*input)@;
    let ghost mut used: nat = 0;
    let mut result: Vec<T> = Vec::new();
    let mut i: usize = 0;
    assert(start.skip(0) =~= start);
    assert(result.model() =~= Seq::<T::V>::empty());
    assert(Seq::<T::V>::empty() + dep_sequence::<T>(start, count as nat).0->Ok_0
        =~= dep_sequence::<T>(start, count as nat).0->Ok_0);
    while i < count
        invariant
            0 <= i <= count,
            start == (*old(input))@,
            used <= start.len(),
            (*input)@ == start.skip(used as int),
            result@.len() == i,
            after(result.model(), used, dep_sequence::<T>((*input)@, (count - i) as nat))
                == dep_sequence::<T>(start, count as nat),
        decreases count - i,
    {
        let ghost here = (*input)@;
        let ghost before = result.model();
        proof {
            T::lemma_dep_decoding_consumed(here);
        }
        match T::dep_decode(input) {
            Ok(value) => {
                let ghost n = T::dep_decoding(here).1;
                let ghost model = T::dep_decoding(here).0->Ok_0;
                let ghost tail = dep_sequence::<T>(here.skip(n as int), (count - i - 1) as nat);
                result.push(value);
                proof {
                    assert(result.model() =~= before.push(model));
                    assert(here.skip(n as int) =~= start.skip((used + n) as int));
                    if tail.0 is Ok {
                        assert(before + (seq![model] + tail.0->Ok_0) =~= before.push(model)
                            + tail.0->Ok_0);
                    }
                    used = used + n;
                }
            },
            Err(e) => {
                proof {
                    let n = T::dep_decoding(here).1;
                    assert(here.skip(n as int) =~= start.skip((used + n) as int));
                }
                return Err(e);
            },
        }
        i += 1;
    }
    proof {
        assert(result.model() + Seq::<T::V>::empty() =~= result.model());
    }
    Ok(result)
}

impl<T: NestedDecode> NestedDecode for Vec<T> {
    /// A count of four bytes, and then that many values.
    open spec fn dep_decoding(input: Seq<u8>) -> (Result<Seq<T::V>, DecodeError>, nat) {
        match dep_number(input, 4, false) {
            (Ok(count), n) => after(
                Seq::empty(),
                n,
                dep_sequence::<T>(input.skip(n as int), count as nat),
            ),
            (Err(e), n) => (Err(e), n),
        }
    }

    proof fn lemma_dep_decoding_consumed(input: Seq<u8>) {
        if input.len() >= 4 {
            lemma_be_fold_split(0, input.take(4));
            lemma_dep_sequence::<T>(input.skip(4), be_unsigned(input.take(4)) as nat);
        }
    }

    proof fn lemma_byte_classified(input: Seq<u8>) {
    }

    fn dep_decode(input: &mut &[u8]) -> (r: Result<Self, DecodeError>) {
        proof {
            lemma_pow256_values();
        }
        let count = match dep_decode_unsigned(input, 4) {
            Ok(count) => count as usize,
            Err(e) => {
                return Err(e);
            },
        };
        let ghost rest = (*input)@;
        let r = dep_decode_sequence::<T>(input, count);
        proof {
            lemma_dep_sequence::<T>(rest, count as nat);
            let n = dep_sequence::<T>(rest, count as nat).1;
            assert(rest.skip(n as int) =~= (*old(input))@.skip(4 + n as int));
            if r is Ok {
                assert(Seq::<T::V>::empty() + dep_sequence::<T>(rest, count as nat).0->Ok_0
                    =~= dep_sequence::<T>(rest, count as nat).0->Ok_0);
            }
        }
        r
    }
}

/// The classifications of the types that this module decodes. Among them only
/// `u8` is classified as one raw byte.
pub proof fn lemma_classifications()
    ensures
        <u8 as NestedDecode>::TYPE_INFO == TypeInfo::U8,
        <u16 as NestedDecode>::TYPE_INFO == TypeInfo::U16,
        <u32 as NestedDecode>::TYPE_INFO == TypeInfo::U32,
        <usize as NestedDecode>::TYPE_INFO == TypeInfo::USIZE,
        <u64 as NestedDecode>::TYPE_INFO == TypeInfo::U64,
        <i8 as NestedDecode>::TYPE_INFO == TypeInfo::I8,
        <i16 as NestedDecode>::TYPE_INFO == TypeInfo::I16,
        <i32 as NestedDecode>::TYPE_INFO == TypeInfo::I32,
        <isize as NestedDecode>::TYPE_INFO == TypeInfo::ISIZE,
        <i64 as NestedDecode>::TYPE_INFO == TypeInfo::I64,
        <bool as NestedDecode>::TYPE_INFO == TypeInfo::Bool,
        <() as NestedDecode>::TYPE_INFO == TypeInfo::Unit,
{
}

} // verus!
