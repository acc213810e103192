use vstd::prelude::*;

verus! {

/// The ways in which decoding can fail. A failed decode produces exactly one of
/// these and no partial value.
#[allow(non_camel_case_types)]
#[derive(Clone, Copy, Debug, PartialEq, Eq, Structural)]
pub enum DecodeError {
    /// The cursor ran out of bytes in the middle of a value.
    INPUT_TOO_SHORT,
    /// The payload holds more than the target can represent, or bytes are left
    /// over after a composite has been decoded in full.
    INPUT_TOO_LONG,
    /// A number lies outside the range of the target width, or a boolean payload
    /// is neither 0 nor 1.
    INPUT_OUT_OF_RANGE,
    /// The bytes are in range but break a narrower constraint of the type.
    INVALID_VALUE,
    /// A byte array was decoded from a buffer whose length differs from the
    /// declared size of the array.
    ARRAY_DECODE_ERROR,
}

/// The ways in which encoding can fail.
#[allow(non_camel_case_types)]
#[derive(Clone, Copy, Debug, PartialEq, Eq, Structural)]
pub enum EncodeError {
    /// The value has no encoding: the wire format cannot hold it.
    UNSUPPORTED_OPERATION,
}

impl DecodeError {
    /// The human-readable message that belongs to this error.
    pub fn message(&self) -> (msg: &'static str)
        ensures
            msg@ == match *self {
                DecodeError::INPUT_TOO_SHORT => "input too short"@,
                DecodeError::INPUT_TOO_LONG => "input too long"@,
                DecodeError::INPUT_OUT_OF_RANGE => "input out of range"@,
                DecodeError::INVALID_VALUE => "invalid value"@,
                DecodeError::ARRAY_DECODE_ERROR => "array decode error"@,
            },
    {
        match self {
            DecodeError::INPUT_TOO_SHORT => "input too short",
            DecodeError::INPUT_TOO_LONG => "input too long",
            DecodeError::INPUT_OUT_OF_RANGE => "input out of range",
            DecodeError::INVALID_VALUE => "invalid value",
            DecodeError::ARRAY_DECODE_ERROR => "array decode error",
        }
    }
}

impl EncodeError {
    /// The human-readable message that belongs to this error.
    pub fn message(&self) -> (msg: &'static str)
        ensures
            msg@ == "unsupported operation"@,
    {
        match self {
            EncodeError::UNSUPPORTED_OPERATION => "unsupported operation",
        }
    }
}

} // verus!
