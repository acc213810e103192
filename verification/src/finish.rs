use crate::top_en::TopEncode;
use crate::top_en_output::{RecordedOutput, TopEncodeOutput};
use vstd::prelude::*;

verus! {

/// What the host is to do once an endpoint has returned.
#[derive(Debug, PartialEq, Eq)]
pub enum Finish {
    /// Hand these values over as the result of the call.
    Output(RecordedOutput),
    /// End the call with an error that carries this message.
    SignalError(&'static str),
}

/// The values that can be the result of an endpoint.
pub trait EndpointResult: Sized {
    /// The payload that the value makes as a result, if it has one.
    spec fn result_payload(&self) -> Option<Seq<u8>>;

    /// Decides what the host is to do with the value: hand over what the value
    /// makes as a payload, or signal the error of a value that makes none.
    fn finish(&self) -> (outcome: Finish)
        ensures
            match outcome {
                Finish::Output(recorded) => self.result_payload() == Some(recorded.payload()),
                Finish::SignalError(message) => self.result_payload() is None && message@
                    == "unsupported operation"@,
            },
    ;
}

/// Every value that has a top-level encoding can be the result of an endpoint.
impl<T: TopEncode> EndpointResult for T {
    open spec fn result_payload(&self) -> Option<Seq<u8>> {
        if self.top_encodable() {
            Some(self.top_encoding())
        } else {
            None
        }
    }

    fn finish(&self) -> (outcome: Finish) {
        let mut recorded = RecordedOutput::new();
        let res = self.top_encode(&mut recorded);
        match res {
            Ok(_) => {
                assert(Seq::<u8>::empty() + self.top_encoding() =~= self.top_encoding());
                Finish::Output(recorded)
            },
            Err(encode_err_message) => Finish::SignalError(encode_err_message.message()),
        }
    }
}

} // verus!
