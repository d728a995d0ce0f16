//! Helpers for messages that travel to the remote chain.

use vstd::prelude::*;
use vstd::string::StringExecFns;

verus! {

/// `prost::EncodeError`: why a message did not fit its buffer.
#[verifier::external_type_specification]
#[verifier::external_body]
pub struct ExEncodeError(prost::EncodeError);

/// The fees of one interchain transaction.
#[derive(Clone, Copy, Debug, PartialEq, Eq)]
pub struct IBCFees {
    pub recv_fee: u128,
    pub ack_fee: u128,
    pub timeout_fee: u128,
    pub register_fee: u128,
}

/// An encoded message with the URL that names its type.
#[derive(Clone, Debug, PartialEq, Eq)]
pub struct ProtobufAny {
    pub type_url: String,
    pub value: Vec<u8>,
}

/// A generic failure with its message.
#[derive(Clone, Debug, PartialEq, Eq)]
pub enum StdError {
    GenericErr { msg: String },
}

/// Why a message for the remote chain could not be prepared.
#[derive(Clone, Debug, PartialEq, Eq)]
pub enum NeutronError {
    Std(StdError),
}

/// The text with which `prost::EncodeError` describes itself.
///
/// Trusted: nothing is claimed of the text.
#[verifier::external_body]
fn encode_error_text(error: &prost::EncodeError) -> (r: String) {
    error.to_string()
}

/// The failure that reports an encoding error described by `detail`.
pub fn encode_failure(detail: &str) -> (r: NeutronError)
    ensures
        r matches NeutronError::Std(StdError::GenericErr { msg }) && msg@ == "Encode error: "@
            + detail@,
{
    let mut msg: String = "Encode error: ".to_owned();
    msg.append(detail);
    NeutronError::Std(StdError::GenericErr { msg })
}

/// Wraps the outcome of encoding a message for the remote chain: the
/// encoded bytes under `type_url`, or the failure that reports why the
/// message could not be encoded.
pub fn prepare_any_msg(encoded: Result<Vec<u8>, prost::EncodeError>, type_url: &str) -> (r: Result<
    ProtobufAny,
    NeutronError,
>)
    ensures
        encoded matches Ok(bytes) ==> (r matches Ok(any) && any.type_url@ == type_url@ && any.value@
            == bytes@),
        encoded is Err ==> (r matches Err(NeutronError::Std(StdError::GenericErr { msg }))
            && exists|detail: Seq<char>| msg@ == "Encode error: "@ + detail),
{
    match encoded {
        Ok(bytes) => Ok(ProtobufAny { type_url: type_url.to_owned(), value: bytes }),
        Err(e) => {
            let detail = encode_error_text(&e);
            let failure = encode_failure(detail.as_str());
            Err(failure)
        },
    }
}

} // verus!
