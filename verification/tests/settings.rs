//! Settings, metadata parsing and the result envelope.
use mlinference::inference::{ExecutionTarget, GraphEncoding, InferenceError};
use mlinference::mlinference::{get_default_inference_result, get_valid_status, MlError};
use mlinference::provider::ModelContext;
use mlinference::settings::{ModelDefinition, Models, ModelSettings};
use mlinference::tensor::{Tensor, TensorType};

fn definition(encoding: &str, target: &str, ttype: &str) -> ModelDefinition {
    ModelDefinition {
        model_name: None,
        graph_encoding: encoding.to_string(),
        execution_target: target.to_string(),
        tensor_type: ttype.to_string(),
        tensor_dimensions_in: None,
        tensor_dimensions_out: None,
    }
}

#[test]
fn default_settings_are_empty_and_eager() {
    let s = ModelSettings::default();
    assert!(s.models.is_empty());
    assert_eq!(s.lazy_load, Some(false));
    assert!(s.validate().is_ok());
}

#[test]
fn models_is_empty_tracks_the_zoo() {
    let mut m = Models::default();
    assert!(m.is_empty());
    m.zoo.push(("squeezenet".to_string(), "bindle:squeezenet".to_string()));
    assert!(!m.is_empty());
}

#[test]
fn valid_status_reports_no_error() {
    let s = get_valid_status();
    assert!(!s.has_error);
    assert!(s.error.is_none());
}

#[test]
fn default_inference_result_carries_the_error() {
    let r = get_default_inference_result(Some(MlError { err: 2 }));
    assert!(r.result.has_error);
    assert_eq!(r.result.error, Some(MlError { err: 2 }));
    assert!(r.tensor.data.is_empty());
    assert!(r.tensor.dimensions.is_empty());
    let ok = get_default_inference_result(None);
    assert!(!ok.result.has_error);
    assert!(ok.result.error.is_none());
}

#[test]
fn load_metadata_parses_known_fields() {
    let mut ctx = ModelContext::with_url("bindle:m".to_string());
    assert!(ctx.load_metadata(&definition("tensorflow", "cpu", "f32")).is_ok());
    assert_eq!(ctx.graph_encoding, GraphEncoding::Tensorflow);
    assert_eq!(ctx.execution_target, ExecutionTarget::Cpu);
    assert!(ctx.graph.is_none());
    assert!(ctx.graph_execution_context.is_none());

    let mut ctx2 = ModelContext::with_url("bindle:m2".to_string());
    assert!(ctx2.load_metadata(&definition("onnx", "gpu", "")).is_ok());
    assert_eq!(ctx2.graph_encoding, GraphEncoding::Onnx);
    assert_eq!(ctx2.execution_target, ExecutionTarget::Gpu);

    let mut ctx3 = ModelContext::with_url("bindle:m3".to_string());
    assert!(ctx3.load_metadata(&definition("tflite", "tpu", "f32")).is_ok());
    assert_eq!(ctx3.graph_encoding, GraphEncoding::TfLite);
    assert_eq!(ctx3.execution_target, ExecutionTarget::Tpu);
}

#[test]
fn load_metadata_rejects_unknown_fields() {
    let mut ctx = ModelContext::with_url("bindle:m".to_string());
    assert_eq!(
        ctx.load_metadata(&definition("caffe", "cpu", "f32")),
        Err(InferenceError::InvalidEncodingError)
    );
    assert_eq!(
        ctx.load_metadata(&definition("onnx", "fpga", "f32")),
        Err(InferenceError::UnsupportedExecutionTarget)
    );
    assert_eq!(
        ctx.load_metadata(&definition("onnx", "cpu", "f64")),
        Err(InferenceError::InvalidParameter)
    );
    // a failed parse leaves the context untouched
    assert_eq!(ctx.graph_encoding, GraphEncoding::Onnx);
    assert_eq!(ctx.execution_target, ExecutionTarget::Cpu);
}

#[test]
fn error_codes_are_distinct() {
    let all = [
        InferenceError::RuntimeError,
        InferenceError::ContextNotFound,
        InferenceError::OnnxError,
        InferenceError::UnsupportedExecutionTarget,
        InferenceError::InvalidEncodingError,
        InferenceError::FailedToBuildModelFromBuffer,
        InferenceError::CorruptInputTensor,
        InferenceError::NotImplemented,
        InferenceError::InvalidParameter,
    ];
    let mut codes: Vec<u8> = all.iter().map(|e| e.code()).collect();
    codes.sort();
    codes.dedup();
    assert_eq!(codes.len(), all.len());
}

#[test]
fn tensor_coherence_check() {
    let t = Tensor {
        tensor_type: TensorType { ttype: 0 },
        dimensions: vec![2, 3],
        data: vec![0u8; 24],
    };
    assert!(t.check_coherent());
    let short = Tensor {
        tensor_type: TensorType { ttype: 0 },
        dimensions: vec![2, 3],
        data: vec![0u8; 20],
    };
    assert!(!short.check_coherent());
    let scalarish = Tensor {
        tensor_type: TensorType { ttype: 0 },
        dimensions: vec![],
        data: vec![0u8; 4],
    };
    assert!(scalarish.check_coherent());
    let zero_dim = Tensor {
        tensor_type: TensorType { ttype: 0 },
        dimensions: vec![0, 5],
        data: vec![],
    };
    assert!(zero_dim.check_coherent());
}
