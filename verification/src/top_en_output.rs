use crate::num_conv::{minimal_signed, minimal_unsigned, top_encode_number};
use vstd::prelude::*;
use vstd::slice::slice_to_vec;

verus! {

/// The handle of a big number that lives outside the codec.
#[derive(Clone, Copy, Debug, PartialEq, Eq, Structural)]
pub enum BigNumberHandle {
    /// The handle of a big signed number.
    BigInt(i32),
    /// The handle of a big unsigned number.
    BigUint(i32),
}

/// Whether a destination has kept the handle `handle`: it holds one handle more
/// than before, and the same payload.
pub open spec fn handle_kept(
    payload: Seq<u8>,
    handles: Seq<BigNumberHandle>,
    handle: BigNumberHandle,
    payload_after: Seq<u8>,
    handles_after: Seq<BigNumberHandle>,
) -> bool {
    handles_after == handles.push(handle) && payload_after == payload
}

/// Whether a destination has taken `bytes` in place of a handle: its payload has
/// grown by these bytes, and it holds the same handles as before.
pub open spec fn bytes_taken(
    payload: Seq<u8>,
    handles: Seq<BigNumberHandle>,
    bytes: Seq<u8>,
    payload_after: Seq<u8>,
    handles_after: Seq<BigNumberHandle>,
) -> bool {
    payload_after == payload + bytes && handles_after == handles
}

/// The destination of one top-level payload. A value is handed over as raw
/// bytes, as a 64-bit number, as nothing at all, or as the handle of a big
/// number that lives outside the codec.
pub trait TopEncodeOutput {
    /// The bytes of the payload that the destination holds.
    spec fn payload(&self) -> Seq<u8>;

    /// The handles of big numbers that the destination keeps in place of their
    /// bytes, in the order in which they came. A destination that can only hold
    /// bytes keeps none.
    spec fn handles(&self) -> Seq<BigNumberHandle>;

    /// Hands over raw bytes.
    fn set_slice_u8(&mut self, bytes: &[u8])
        ensures
            final(self).payload() == old(self).payload() + bytes@,
            final(self).handles() == old(self).handles(),
    ;

    /// Hands over an unsigned number, which counts as its shortest encoding.
    fn set_u64(&mut self, value: u64)
        ensures
            final(self).payload() == old(self).payload() + minimal_unsigned(value),
            final(self).handles() == old(self).handles(),
    {
        let bytes = top_encode_number(value, false);
        self.set_slice_u8(bytes.as_slice());
    }

    /// Hands over a signed number, which counts as its shortest encoding.
    fn set_i64(&mut self, value: i64)
        ensures
            final(self).payload() == old(self).payload() + minimal_signed(value),
            final(self).handles() == old(self).handles(),
    {
        assert((value as u64) as i64 == value) by (bit_vector);
        let bytes = top_encode_number(value as u64, true);
        self.set_slice_u8(bytes.as_slice());
    }

    /// Hands over no value: the payload stays as it is.
    fn set_unit(&mut self)
        ensures
            final(self).payload() == old(self).payload(),
            final(self).handles() == old(self).handles(),
    ;

    /// Hands over the handle of a big signed number. A destination that can use
    /// the handle keeps it, and its payload gets no bytes. Any other destination
    /// calls `else_bytes` and takes the bytes that it makes, as this one does.
    fn set_big_int_handle_or_bytes<F: FnOnce() -> Vec<u8>>(&mut self, handle: i32, else_bytes: F)
        requires
            else_bytes.requires(()),
        ensures
            handle_kept(
                old(self).payload(),
                old(self).handles(),
                BigNumberHandle::BigInt(handle),
                final(self).payload(),
                final(self).handles(),
            ) || exists|bytes: Vec<u8>|
                else_bytes.ensures((), bytes) && bytes_taken(
                    old(self).payload(),
                    old(self).handles(),
                    bytes@,
                    final(self).payload(),
                    final(self).handles(),
                ),
    {
        let bytes = else_bytes();
        self.set_slice_u8(bytes.as_slice());
    }

    /// Hands over the handle of a big unsigned number. A destination that can use
    /// the handle keeps it, and its payload gets no bytes. Any other destination
    /// calls `else_bytes` and takes the bytes that it makes, as this one does.
    fn set_big_uint_handle_or_bytes<F: FnOnce() -> Vec<u8>>(&mut self, handle: i32, else_bytes: F)
        requires
            else_bytes.requires(()),
        ensures
            handle_kept(
                old(self).payload(),
                old(self).handles(),
                BigNumberHandle::BigUint(handle),
                final(self).payload(),
                final(self).handles(),
            ) || exists|bytes: Vec<u8>|
                else_bytes.ensures((), bytes) && bytes_taken(
                    old(self).payload(),
                    old(self).handles(),
                    bytes@,
                    final(self).payload(),
                    final(self).handles(),
                ),
    {
        let bytes = else_bytes();
        self.set_slice_u8(bytes.as_slice());
    }
}

/// A byte buffer takes every value as bytes, added at its end.
impl TopEncodeOutput for Vec<u8> {
    open spec fn payload(&self) -> Seq<u8> {
        self@
    }

    open spec fn handles(&self) -> Seq<BigNumberHandle> {
        Seq::empty()
    }

    fn set_slice_u8(&mut self, bytes: &[u8]) {
        self.extend_from_slice(bytes);
    }

    fn set_unit(&mut self) {
    }
}

/// One value as it was handed over to a destination.
#[derive(Debug, PartialEq, Eq)]
pub enum OutputValue {
    /// Raw bytes.
    Bytes(Vec<u8>),
    /// An unsigned number.
    U64(u64),
    /// A signed number.
    I64(i64),
    /// No value.
    Unit,
    /// The handle of a big signed number.
    BigIntHandle(i32),
    /// The handle of a big unsigned number.
    BigUintHandle(i32),
}

impl OutputValue {
    /// The bytes that the value adds to the payload. A number adds its shortest
    /// encoding. A handle adds nothing: what it names lives outside the codec.
    pub open spec fn bytes(self) -> Seq<u8> {
        match self {
            OutputValue::Bytes(bytes) => bytes@,
            OutputValue::U64(value) => minimal_unsigned(value),
            OutputValue::I64(value) => minimal_signed(value),
            OutputValue::Unit => Seq::empty(),
            OutputValue::BigIntHandle(_) => Seq::empty(),
            OutputValue::BigUintHandle(_) => Seq::empty(),
        }
    }
}

/// The handles among the values of `values`, in their order.
pub open spec fn values_handles(values: Seq<OutputValue>) -> Seq<BigNumberHandle>
    decreases values.len(),
{
    if values.len() == 0 {
        Seq::empty()
    } else {
        match values.last() {
            OutputValue::BigIntHandle(handle) => values_handles(values.drop_last()).push(
                BigNumberHandle::BigInt(handle),
            ),
            OutputValue::BigUintHandle(handle) => values_handles(values.drop_last()).push(
                BigNumberHandle::BigUint(handle),
            ),
            _ => values_handles(values.drop_last()),
        }
    }
}

/// The bytes that the values of `values` add to a payload, in their order.
pub open spec fn values_payload(values: Seq<OutputValue>) -> Seq<u8>
    decreases values.len(),
{
    if values.len() == 0 {
        Seq::empty()
    } else {
        values_payload(values.drop_last()) + values.last().bytes()
    }
}

/// A destination that keeps every value as it was handed over: numbers stay
/// numbers and handles stay handles. It serves a host that takes these as they
/// are, and that is handed the record once the encoding has succeeded.
#[derive(Debug, PartialEq, Eq)]
pub struct RecordedOutput {
    values: Vec<OutputValue>,
}

impl View for RecordedOutput {
    type V = Seq<OutputValue>;

    closed spec fn view(&self) -> Seq<OutputValue> {
        self.values@
    }
}

impl RecordedOutput {
    /// A record that holds nothing yet.
    pub fn new() -> (record: RecordedOutput)
        ensures
            record@ == Seq::<OutputValue>::empty(),
    {
        RecordedOutput { values: Vec::new() }
    }

    /// The values that were handed over, in their order.
    pub fn into_values(self) -> (values: Vec<OutputValue>)
        ensures
            values@ == self@,
    {
        self.values
    }

    fn record(&mut self, value: OutputValue)
        ensures
            final(self)@ == old(self)@.push(value),
            values_payload(final(self)@) == values_payload(old(self)@) + value.bytes(),
            values_handles(final(self)@) == match value {
                OutputValue::BigIntHandle(handle) => values_handles(old(self)@).push(
                    BigNumberHandle::BigInt(handle),
                ),
                OutputValue::BigUintHandle(handle) => values_handles(old(self)@).push(
                    BigNumberHandle::BigUint(handle),
                ),
                _ => values_handles(old(self)@),
            },
    {
        self.values.push(value);
        assert(self.values@.drop_last() =~= old(self).values@);
    }
}

impl TopEncodeOutput for RecordedOutput {
    open spec fn payload(&self) -> Seq<u8> {
        values_payload(self@)
    }

    open spec fn handles(&self) -> Seq<BigNumberHandle> {
        values_handles(self@)
    }

    fn set_slice_u8(&mut self, bytes: &[u8])
        ensures
            final(self)@.len() == old(self)@.len() + 1,
            final(self)@.drop_last() == old(self)@,
            final(self)@.last() matches OutputValue::Bytes(kept) && kept@ == bytes@,
    {
        self.record(OutputValue::Bytes(slice_to_vec(bytes)));
    }

    fn set_u64(&mut self, value: u64)
        ensures
            final(self)@ == old(self)@.push(OutputValue::U64(value)),
    {
        self.record(OutputValue::U64(value));
    }

    fn set_i64(&mut self, value: i64)
        ensures
            final(self)@ == old(self)@.push(OutputValue::I64(value)),
    {
        self.record(OutputValue::I64(value));
    }

    fn set_unit(&mut self)
        ensures
            final(self)@ == old(self)@.push(OutputValue::Unit),
    {
        self.record(OutputValue::Unit);
        assert(old(self).payload() + Seq::<u8>::empty() =~= old(self).payload());
    }

    fn set_big_int_handle_or_bytes<F: FnOnce() -> Vec<u8>>(&mut self, handle: i32, else_bytes: F)
        ensures
            final(self)@ == old(self)@.push(OutputValue::BigIntHandle(handle)),
    {
        self.record(OutputValue::BigIntHandle(handle));
        assert(old(self).payload() + Seq::<u8>::empty() =~= old(self).payload());
    }

    fn set_big_uint_handle_or_bytes<F: FnOnce() -> Vec<u8>>(&mut self, handle: i32, else_bytes: F)
        ensures
            final(self)@ == old(self)@.push(OutputValue::BigUintHandle(handle)),
    {
        self.record(OutputValue::BigUintHandle(handle));
        assert(old(self).payload() + Seq::<u8>::empty() =~= old(self).payload());
    }
}

} // verus!
