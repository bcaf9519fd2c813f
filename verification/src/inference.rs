//! Core vocabulary of the inference engine: graph handles, encodings,
//! execution targets and the engine error kinds.
use vstd::prelude::*;

verus! {

/// Opaque integer handle identifying a loaded model's raw bytes inside one
/// engine's model state.
pub type Graph = u32;

/// Opaque integer handle identifying a runnable session built from a Graph.
pub type GraphExecutionContext = u32;

/// Declared encoding of a model's bytes.
#[derive(Clone, Copy, Debug, PartialEq, Eq, Structural)]
pub enum GraphEncoding {
    Onnx,
    TfLite,
    OpenVino,
    Tensorflow,
}

impl Default for GraphEncoding {
    fn default() -> (r: GraphEncoding)
        ensures
            r == GraphEncoding::Onnx,
    {
        GraphEncoding::Onnx
    }
}

/// Declared execution target of a session.
#[derive(Clone, Copy, Debug, PartialEq, Eq, Structural)]
pub enum ExecutionTarget {
    Cpu,
    Gpu,
    Tpu,
}

impl Default for ExecutionTarget {
    fn default() -> (r: ExecutionTarget)
        ensures
            r == ExecutionTarget::Cpu,
    {
        ExecutionTarget::Cpu
    }
}

/// Failure kinds of engine and pipeline calls.
///
/// Two families, carried as data and never thrown: operational failures
/// (`ContextNotFound`, `UnsupportedExecutionTarget`, `OnnxError`,
/// `RuntimeError`, `NotImplemented`, `InvalidParameter`) and caller-input
/// failures (`InvalidEncodingError`, `FailedToBuildModelFromBuffer`,
/// `CorruptInputTensor`).
#[derive(Clone, Copy, Debug, PartialEq, Eq, Structural)]
pub enum InferenceError {
    /// The call cannot proceed in the current state: output not computed
    /// yet, output index out of range, or handle space exhausted.
    RuntimeError,
    /// A graph or session handle is unknown: never allocated, not yet
    /// populated, or already dropped.
    ContextNotFound,
    /// The native runtime failed to optimize, compile or execute the model.
    OnnxError,
    /// The engine does not support the requested execution target.
    UnsupportedExecutionTarget,
    /// The engine does not support the requested encoding.
    InvalidEncodingError,
    /// The model bytes do not parse under their declared encoding.
    FailedToBuildModelFromBuffer,
    /// The input tensor's bytes do not fit its dimensions.
    CorruptInputTensor,
    /// No engine family serves the requested encoding.
    NotImplemented,
    /// No engine of the required family has been created yet.
    InvalidParameter,
}

impl InferenceError {
    /// Wire code of this error kind, one distinct octet per kind.
    pub open spec fn spec_code(self) -> u8 {
        match self {
            InferenceError::RuntimeError => 0,
            InferenceError::ContextNotFound => 1,
            InferenceError::OnnxError => 2,
            InferenceError::UnsupportedExecutionTarget => 3,
            InferenceError::InvalidEncodingError => 4,
            InferenceError::FailedToBuildModelFromBuffer => 5,
            InferenceError::CorruptInputTensor => 6,
            InferenceError::NotImplemented => 7,
            InferenceError::InvalidParameter => 8,
        }
    }

    /// Wire code of this error kind.
    pub fn code(&self) -> (r: u8)
        ensures
            r == self.spec_code(),
    {
        match self {
            InferenceError::RuntimeError => 0,
            InferenceError::ContextNotFound => 1,
            InferenceError::OnnxError => 2,
            InferenceError::UnsupportedExecutionTarget => 3,
            InferenceError::InvalidEncodingError => 4,
            InferenceError::FailedToBuildModelFromBuffer => 5,
            InferenceError::CorruptInputTensor => 6,
            InferenceError::NotImplemented => 7,
            InferenceError::InvalidParameter => 8,
        }
    }
}

/// Result of an engine call.
pub type InferenceResult<T> = Result<T, InferenceError>;

} // verus!
