use crate::codec_err::{DecodeError, EncodeError};
use crate::model::Model;
use crate::nested_de::NestedDecode;
use crate::nested_en::{NestedEncode, NestedEncodeOutput};
use crate::round_trip::{NestedRoundTrip, TopRoundTrip};
use crate::top_de::TopDecode;
use crate::top_de_input::TopDecodeInput;
use crate::top_en::TopEncode;
use crate::top_en_output::TopEncodeOutput;
use crate::type_info::TypeInfo;
use vstd::prelude::*;

verus! {

/// A machine word that is known not to be zero.
#[derive(Clone, Copy, Debug, PartialEq, Eq, Structural)]
pub struct NonZeroUsize {
    value: usize,
}

impl View for NonZeroUsize {
    type V = usize;

    closed spec fn view(&self) -> usize {
        self.value
    }
}

impl Model for NonZeroUsize {
    type V = usize;

    open spec fn model(&self) -> usize {
        self@
    }
}

impl NonZeroUsize {
    #[verifier::type_invariant]
    spec fn well_formed(self) -> bool {
        self.value != 0
    }

    /// The non-zero word of value `n`, if `n` is not zero.
    pub fn new(n: usize) -> (r: Option<NonZeroUsize>)
        ensures
            match r {
                Some(non_zero) => n != 0 && non_zero@ == n,
                None => n == 0,
            },
    {
        if n == 0 {
            None
        } else {
            Some(NonZeroUsize { value: n })
        }
    }

    /// The value of the word, which is not zero.
    pub fn get(self) -> (n: usize)
        ensures
            n == self@,
            n != 0,
    {
        proof {
            use_type_invariant(&self);
        }
        self.value
    }
}

/// What the machine word `num` is as a non-zero word: zero is not a valid value.
pub open spec fn non_zero_of(num: usize) -> Result<usize, DecodeError> {
    if num == 0 {
        Err(DecodeError::INVALID_VALUE)
    } else {
        Ok(num)
    }
}

/// Accepts a decoded machine word as a non-zero word, or refuses a zero.
pub fn decode_non_zero_usize(num: usize) -> (r: Result<NonZeroUsize, DecodeError>)
    ensures
        match r {
            Ok(non_zero) => num != 0 && non_zero@ == num,
            Err(e) => num == 0 && e == DecodeError::INVALID_VALUE,
        },
{
    if let Some(nz) = NonZeroUsize::new(num) {
        Ok(nz)
    } else {
        Err(DecodeError::INVALID_VALUE)
    }
}

impl NestedDecode for NonZeroUsize {
    const TYPE_INFO: TypeInfo = TypeInfo::Unknown;

    /// A machine word, which must not be zero. A zero leaves the cursor in front
    /// of it.
    open spec fn dep_decoding(input: Seq<u8>) -> (Result<usize, DecodeError>, nat) {
        match usize::dep_decoding(input) {
            (Ok(num), n) => if num == 0 {
                (Err(DecodeError::INVALID_VALUE), 0)
            } else {
                (Ok(num), n)
            },
            (Err(e), n) => (Err(e), n),
        }
    }

    proof fn lemma_dep_decoding_consumed(input: Seq<u8>) {
    }

    proof fn lemma_byte_classified(input: Seq<u8>) {
    }

    fn dep_decode(input: &mut &[u8]) -> (r: Result<Self, DecodeError>) {
        let mut ahead = *input;
        match usize::dep_decode(&mut ahead) {
            Ok(num) => match decode_non_zero_usize(num) {
                Ok(non_zero) => {
                    *input = ahead;
                    Ok(non_zero)
                },
                Err(e) => {
                    assert((*input)@.skip(0) =~= (*input)@);
                    Err(e)
                },
            },
            Err(e) => {
                assert((*input)@.skip(0) =~= (*input)@);
                Err(e)
            },
        }
    }
}

impl TopDecode for NonZeroUsize {
    const TYPE_INFO: TypeInfo = TypeInfo::Unknown;

    /// The payload is decoded as a machine word, which must not be zero.
    open spec fn top_decoding(bytes: Seq<u8>) -> Result<usize, DecodeError> {
        match usize::top_decoding(bytes) {
            Ok(num) => non_zero_of(num),
            Err(e) => Err(e),
        }
    }

    open spec fn top_decoding_boxed(bytes: Seq<u8>) -> Result<usize, DecodeError> {
        Self::top_decoding(bytes)
    }

    fn top_decode<I: TopDecodeInput>(input: I) -> (r: Result<Self, DecodeError>) {
        match usize::top_decode(input) {
            Ok(num) => decode_non_zero_usize(num),
            Err(e) => Err(e),
        }
    }

    fn top_decode_boxed<I: TopDecodeInput>(input: I) -> (r: Result<Box<Self>, DecodeError>) {
        match Self::top_decode(input) {
            Ok(value) => Ok(Box::new(value)),
            Err(e) => Err(e),
        }
    }
}

impl NestedEncode for NonZeroUsize {
    const TYPE_INFO: TypeInfo = TypeInfo::Unknown;

    /// The word has the encoding of its value. Every word that a program holds is
    /// non-zero; this is said here for the words that only a proof speaks of.
    open spec fn dep_encodable(&self) -> bool {
        self@ != 0 && self@.dep_encodable()
    }

    /// A non-zero word is encoded as the machine word that it is.
    open spec fn dep_encoding(&self) -> Seq<u8> {
        self@.dep_encoding()
    }

    fn dep_encode<O: NestedEncodeOutput>(&self, dest: &mut O) -> (r: Result<(), EncodeError>) {
        self.get().dep_encode(dest)
    }
}

impl TopEncode for NonZeroUsize {
    const TYPE_INFO: TypeInfo = TypeInfo::Unknown;

    /// The word has the encoding of its value. Every word that a program holds is
    /// non-zero; this is said here for the words that only a proof speaks of.
    open spec fn top_encodable(&self) -> bool {
        self@ != 0 && self@.top_encodable()
    }

    /// A non-zero word is encoded as the machine word that it is.
    open spec fn top_encoding(&self) -> Seq<u8> {
        self@.top_encoding()
    }

    fn top_encode<O: TopEncodeOutput>(&self, output: &mut O) -> (r: Result<(), EncodeError>) {
        self.get().top_encode(output)
    }
}

impl NestedRoundTrip for NonZeroUsize {
    proof fn lemma_dep_round_trip(value: Self, rest: Seq<u8>) {
        usize::lemma_dep_round_trip(value@, rest);
    }
}

impl TopRoundTrip for NonZeroUsize {
    open spec fn top_delimited(&self) -> bool {
        true
    }

    proof fn lemma_top_round_trip(value: Self) {
        usize::lemma_top_round_trip(value@);
    }
}

} // verus!
