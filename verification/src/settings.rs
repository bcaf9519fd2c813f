//! Link settings and model metadata: what a caller hands over when it
//! attaches.
//!
//! Settings arrive as linkdef values and are decoded outside this library;
//! here stand the decoded records and their validation.
use crate::inference::InferenceError;
use crate::{BindlePath, ModelName};
use vstd::prelude::*;

verus! {

/// Per-caller link settings: the model-to-artifact assignments plus the
/// lazy-load flag.
#[derive(Clone, Debug)]
pub struct ModelSettings {
    /// Model to artifact-path assignments.
    pub models: Models,
    /// Whether models load before the first compute rather than at linkage.
    pub lazy_load: Option<bool>,
}

impl Default for ModelSettings {
    fn default() -> (r: ModelSettings)
        ensures
            r.models.zoo@.len() == 0,
            r.lazy_load == Some(false),
    {
        ModelSettings { models: Models { zoo: Vec::new() }, lazy_load: Some(false) }
    }
}

impl ModelSettings {
    /// Additional validation checks on settings beyond what decoding
    /// already established.  Nothing further is checked at present.
    pub fn validate(&self) -> (r: Result<(), InferenceError>)
        ensures
            r is Ok,
    {
        Ok(())
    }
}

/// The model-to-artifact assignments of one caller.
#[derive(Clone, Debug)]
pub struct Models {
    pub zoo: Vec<(ModelName, BindlePath)>,
}

impl Default for Models {
    fn default() -> (r: Models)
        ensures
            r.zoo@.len() == 0,
    {
        Models { zoo: Vec::new() }
    }
}

impl Models {
    /// Whether no model is assigned.
    pub fn is_empty(&self) -> (r: bool)
        ensures
            r == (self.zoo@.len() == 0),
    {
        self.zoo.is_empty()
    }
}

/// A model's descriptor as fetched beside its bytes from the artifact
/// store: declared encoding, target, element type and expected shapes.
#[derive(Clone, Debug)]
pub struct ModelDefinition {
    /// Model name (optional).
    pub model_name: Option<String>,
    /// Graph encoding, e.g. "onnx" or "tensorflow".
    pub graph_encoding: String,
    /// Execution target, e.g. "cpu".
    pub execution_target: String,
    /// Tensor element type, e.g. "f32".
    pub tensor_type: String,
    /// Expected input shape (optional).
    pub tensor_dimensions_in: Option<Vec<u32>>,
    /// Expected output shape (optional).
    pub tensor_dimensions_out: Option<Vec<u32>>,
}

} // verus!
