pub mod arrays;
pub mod buffers;
pub mod codec_err;
pub mod finish;
pub mod laws;
pub mod model;
pub mod nested_de;
pub mod nested_en;
pub mod non_zero;
pub mod num_conv;
pub mod payable;
pub mod round_trip;
pub mod test_struct;
pub mod top_de;
pub mod top_de_input;
pub mod top_en;
pub mod top_en_output;
pub mod tuples;
pub mod type_info;

pub use crate::codec_err::{DecodeError, EncodeError};
pub use crate::finish::{EndpointResult, Finish};
pub use crate::model::Model;
pub use crate::nested_de::NestedDecode;
pub use crate::nested_en::{NestedEncode, NestedEncodeOutput};
pub use crate::non_zero::NonZeroUsize;
pub use crate::round_trip::{NestedRoundTrip, TopRoundTrip};
pub use crate::top_de::{top_decode_from_nested, TopDecode};
pub use crate::top_de_input::TopDecodeInput;
pub use crate::top_en::{top_encode_from_nested, top_encode_to_vec, TopEncode};
pub use crate::top_en_output::{BigNumberHandle, OutputValue, RecordedOutput, TopEncodeOutput};
pub use crate::type_info::TypeInfo;
