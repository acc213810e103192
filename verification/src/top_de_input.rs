use crate::buffers::{boxed_slice_into_vec, vec_into_boxed_slice};
use crate::num_conv::{
    be_signed, be_unsigned, bytes_to_i64, bytes_to_number, bytes_to_u64, lemma_reinterpret_i64,
    lemma_short_payload_exact, number_of_bytes, wrap_i64,
};
use vstd::prelude::*;
use vstd::slice::slice_to_vec;

verus! {

/// The source of one top-level payload. The codec reads a value through this
/// capability alone: either the whole payload as an owned buffer, or, for
/// numbers, its interpretation as a 64-bit word.
pub trait TopDecodeInput: Sized {
    /// The bytes of the payload.
    spec fn bytes(&self) -> Seq<u8>;

    /// The length of the payload in bytes.
    fn byte_len(&self) -> (len: usize)
        ensures
            len == self.bytes().len(),
    ;

    /// Hands the payload over as an owned buffer.
    fn into_boxed_slice_u8(self) -> (buffer: Box<[u8]>)
        ensures
            buffer@ == self.bytes(),
    ;

    /// The payload read as a big-endian unsigned number, reduced modulo 2^64.
    fn into_u64(self) -> (value: u64)
        ensures
            value == number_of_bytes(self.bytes(), false),
    {
        let buffer = boxed_slice_into_vec(self.into_boxed_slice_u8());
        bytes_to_number(buffer.as_slice(), false)
    }

    /// The payload read as a big-endian two's-complement number, reduced modulo
    /// 2^64 into the signed range.
    fn into_i64(self) -> (value: i64)
        ensures
            value == wrap_i64(be_signed(self.bytes())),
    {
        let buffer = boxed_slice_into_vec(self.into_boxed_slice_u8());
        let word = bytes_to_number(buffer.as_slice(), true);
        proof {
            lemma_reinterpret_i64(word);
        }
        word as i64
    }
}

impl TopDecodeInput for Box<[u8]> {
    open spec fn bytes(&self) -> Seq<u8> {
        self@
    }

    fn byte_len(&self) -> (len: usize) {
        self.len()
    }

    fn into_boxed_slice_u8(self) -> (buffer: Box<[u8]>) {
        self
    }
}

impl TopDecodeInput for Vec<u8> {
    open spec fn bytes(&self) -> Seq<u8> {
        self@
    }

    fn byte_len(&self) -> (len: usize) {
        self.len()
    }

    fn into_boxed_slice_u8(self) -> (buffer: Box<[u8]>) {
        vec_into_boxed_slice(self)
    }

    fn into_u64(self) -> (value: u64) {
        bytes_to_number(self.as_slice(), false)
    }

    fn into_i64(self) -> (value: i64) {
        let word = bytes_to_number(self.as_slice(), true);
        proof {
            lemma_reinterpret_i64(word);
        }
        word as i64
    }
}

impl<'a> TopDecodeInput for &'a [u8] {
    open spec fn bytes(&self) -> Seq<u8> {
        (*self)@
    }

    fn byte_len(&self) -> (len: usize) {
        self.len()
    }

    fn into_boxed_slice_u8(self) -> (buffer: Box<[u8]>) {
        vec_into_boxed_slice(slice_to_vec(self))
    }

    fn into_u64(self) -> (value: u64) {
        bytes_to_number(self, false)
    }

    fn into_i64(self) -> (value: i64) {
        let word = bytes_to_number(self, true);
        proof {
            lemma_reinterpret_i64(word);
        }
        word as i64
    }
}

/// The unsigned value of the payload of `input`, if a 64-bit word can hold it. A
/// payload of at most eight bytes is read through `into_u64`. A longer payload
/// is taken over as bytes, and fits if only zero bytes stand in front of its last
/// eight.
pub fn into_exact_u64<I: TopDecodeInput>(input: I) -> (r: Option<u64>)
    ensures
        match r {
            Some(value) => value == be_unsigned(input.bytes()),
            None => be_unsigned(input.bytes()) > u64::MAX,
        },
{
    if input.byte_len() <= 8 {
        proof {
            lemma_short_payload_exact(input.bytes());
        }
        Some(input.into_u64())
    } else {
        let buffer = boxed_slice_into_vec(input.into_boxed_slice_u8());
        bytes_to_u64(buffer.as_slice())
    }
}

/// The two's-complement value of the payload of `input`, if a 64-bit word can
/// hold it. A payload of at most eight bytes is read through `into_i64`. A longer
/// payload is taken over as bytes, and fits if only bytes that extend the sign
/// stand in front of its last eight.
pub fn into_exact_i64<I: TopDecodeInput>(input: I) -> (r: Option<i64>)
    ensures
        match r {
            Some(value) => value == be_signed(input.bytes()),
            None => be_signed(input.bytes()) < i64::MIN || be_signed(input.bytes()) > i64::MAX,
        },
{
    if input.byte_len() <= 8 {
        proof {
            lemma_short_payload_exact(input.bytes());
        }
        Some(input.into_i64())
    } else {
        let buffer = boxed_slice_into_vec(input.into_boxed_slice_u8());
        bytes_to_i64(buffer.as_slice())
    }
}

} // verus!
