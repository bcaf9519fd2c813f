//! Wire envelope of the predict entry point: request, result status and the
//! uniform result record that is returned, never thrown.
use crate::inference::InferenceError;
use crate::tensor::Tensor;
use vstd::prelude::*;

verus! {

/// Error record carried inside a result envelope: one octet, the wire code
/// of an `InferenceError` kind.
#[derive(Clone, Copy, Debug, Default, PartialEq, Eq, Structural)]
pub struct MlError {
    pub err: u8,
}

/// Status of a predict call: either success, or an error record.
#[derive(Clone, Copy, Debug, PartialEq, Eq, Structural)]
pub struct ResultStatus {
    pub has_error: bool,
    pub error: Option<MlError>,
}

/// A predict request: model name, input tensor and tensor index.
#[derive(Clone, Debug, PartialEq, Eq)]
pub struct InferenceRequest {
    pub model: String,
    pub tensor: Tensor,
    pub index: u32,
}

/// What a predict call returns: a status plus the output tensor, which is
/// empty whenever the status carries an error.
#[derive(Clone, Debug, PartialEq, Eq)]
pub struct InferenceOutput {
    pub result: ResultStatus,
    pub tensor: Tensor,
}

/// The all-clear status.
pub fn get_valid_status() -> (r: ResultStatus)
    ensures
        r.has_error == false,
        r.error is None,
{
    ResultStatus { has_error: false, error: None }
}

/// The envelope returned when no output tensor exists: an empty tensor under
/// the given status, an error record when one is handed in and the all-clear
/// otherwise.
pub fn get_default_inference_result(error: Option<MlError>) -> (r: InferenceOutput)
    ensures
        r.result.has_error == error.is_some(),
        r.result.error == error,
        r.tensor.dimensions@.len() == 0,
        r.tensor.data@.len() == 0,
{
    InferenceOutput {
        result: ResultStatus { has_error: error.is_some(), error },
        tensor: Tensor::empty(),
    }
}

/// The envelope reporting one engine or pipeline failure.
pub fn error_result(e: InferenceError) -> (r: InferenceOutput)
    ensures
        r.result.has_error == true,
        r.result.error == Some(MlError { err: e.spec_code() }),
        r.tensor.dimensions@.len() == 0,
        r.tensor.data@.len() == 0,
{
    get_default_inference_result(Some(MlError { err: e.code() }))
}

} // verus!
