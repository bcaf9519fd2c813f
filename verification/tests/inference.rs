//! Engine state machine and predict pipeline, end to end against the
//! native runtime, with models built directly in their wire encodings.
use mlinference::engine::TractEngine;
use mlinference::inference::{ExecutionTarget, GraphEncoding, InferenceError};
use mlinference::mlinference::InferenceRequest;
use mlinference::provider::{FetchedModel, MlInferenceProvider, ModelContext};
use mlinference::registry::EngineRegistry;
use mlinference::settings::ModelDefinition;
use mlinference::str_map::StrMap;
use mlinference::tensor::{Tensor, TensorType};

// ---- protobuf building blocks -------------------------------------------

fn varint(mut v: u64, out: &mut Vec<u8>) {
    loop {
        let b = (v & 0x7f) as u8;
        v >>= 7;
        if v == 0 {
            out.push(b);
            break;
        } else {
            out.push(b | 0x80);
        }
    }
}

fn field_varint(field: u64, v: u64, out: &mut Vec<u8>) {
    varint(field << 3, out);
    varint(v, out);
}

fn field_bytes(field: u64, b: &[u8], out: &mut Vec<u8>) {
    varint((field << 3) | 2, out);
    varint(b.len() as u64, out);
    out.extend_from_slice(b);
}

fn field_str(field: u64, s: &str, out: &mut Vec<u8>) {
    field_bytes(field, s.as_bytes(), out);
}

fn le_bytes(vals: &[f32]) -> Vec<u8> {
    let mut out = Vec::new();
    for v in vals {
        out.extend_from_slice(&v.to_le_bytes());
    }
    out
}

// ---- a minimal ONNX model ------------------------------------------------

fn onnx_tensor_shape(dims: &[u64]) -> Vec<u8> {
    let mut out = Vec::new();
    for d in dims {
        let mut dim = Vec::new();
        field_varint(1, *d, &mut dim);
        field_bytes(1, &dim, &mut out);
    }
    out
}

fn onnx_value_info(name: &str, dims: &[u64]) -> Vec<u8> {
    let mut tensor_ty = Vec::new();
    field_varint(1, 1, &mut tensor_ty); // elem_type: float
    field_bytes(2, &onnx_tensor_shape(dims), &mut tensor_ty);
    let mut ty = Vec::new();
    field_bytes(1, &tensor_ty, &mut ty); // TypeProto.tensor_type
    let mut vi = Vec::new();
    field_str(1, name, &mut vi);
    field_bytes(2, &ty, &mut vi);
    vi
}

fn onnx_model(graph: &[u8]) -> Vec<u8> {
    let mut opset = Vec::new();
    field_varint(2, 13, &mut opset);
    let mut m = Vec::new();
    field_varint(1, 7, &mut m); // ir_version
    field_bytes(7, graph, &mut m);
    field_bytes(8, &opset, &mut m);
    m
}

/// An ONNX model whose computation is the identity function.
fn onnx_identity(dims: &[u64]) -> Vec<u8> {
    let mut node = Vec::new();
    field_str(1, "x", &mut node);
    field_str(2, "y", &mut node);
    field_str(4, "Identity", &mut node);
    let mut g = Vec::new();
    field_bytes(1, &node, &mut g);
    field_str(2, "ident", &mut g);
    field_bytes(11, &onnx_value_info("x", dims), &mut g);
    field_bytes(12, &onnx_value_info("y", dims), &mut g);
    onnx_model(&g)
}

/// An ONNX model that adds the constant 3.0 elementwise.
fn onnx_plus3(dims: &[u64], count: usize) -> Vec<u8> {
    let mut init = Vec::new();
    for d in dims {
        field_varint(1, *d, &mut init);
    }
    field_varint(2, 1, &mut init); // data_type: float
    field_str(8, "c", &mut init);
    field_bytes(9, &le_bytes(&vec![3.0f32; count]), &mut init);
    let mut node = Vec::new();
    field_str(1, "x", &mut node);
    field_str(1, "c", &mut node);
    field_str(2, "y", &mut node);
    field_str(4, "Add", &mut node);
    let mut g = Vec::new();
    field_bytes(1, &node, &mut g);
    field_str(2, "plus3", &mut g);
    field_bytes(5, &init, &mut g);
    field_bytes(11, &onnx_value_info("x", dims), &mut g);
    field_bytes(12, &onnx_value_info("y", dims), &mut g);
    onnx_model(&g)
}

// ---- a minimal TensorFlow graph definition -------------------------------

fn tf_attr(name: &str, value: &[u8]) -> Vec<u8> {
    let mut e = Vec::new();
    field_str(1, name, &mut e);
    field_bytes(2, value, &mut e);
    e
}

fn tf_attr_type_float() -> Vec<u8> {
    let mut a = Vec::new();
    field_varint(6, 1, &mut a); // AttrValue.type = DT_FLOAT
    a
}

fn tf_shape(dims: &[u64]) -> Vec<u8> {
    let mut shape = Vec::new();
    for d in dims {
        let mut dim = Vec::new();
        field_varint(1, *d, &mut dim); // Dim.size
        field_bytes(2, &dim, &mut shape); // TensorShapeProto.dim
    }
    shape
}

/// A TensorFlow graph that adds the constant 3.0 elementwise.
fn tf_plus3(dims: &[u64], count: usize) -> Vec<u8> {
    let mut x = Vec::new();
    field_str(1, "x", &mut x);
    field_str(2, "Placeholder", &mut x);
    field_bytes(5, &tf_attr("dtype", &tf_attr_type_float()), &mut x);
    let mut shape_attr = Vec::new();
    field_bytes(7, &tf_shape(dims), &mut shape_attr); // AttrValue.shape
    field_bytes(5, &tf_attr("shape", &shape_attr), &mut x);

    let mut tensor = Vec::new();
    field_varint(1, 1, &mut tensor); // dtype
    field_bytes(2, &tf_shape(dims), &mut tensor);
    field_bytes(4, &le_bytes(&vec![3.0f32; count]), &mut tensor); // tensor_content
    let mut cval = Vec::new();
    field_bytes(8, &tensor, &mut cval); // AttrValue.tensor
    let mut c = Vec::new();
    field_str(1, "c", &mut c);
    field_str(2, "Const", &mut c);
    field_bytes(5, &tf_attr("dtype", &tf_attr_type_float()), &mut c);
    field_bytes(5, &tf_attr("value", &cval), &mut c);

    let mut y = Vec::new();
    field_str(1, "y", &mut y);
    field_str(2, "Add", &mut y);
    field_str(3, "x", &mut y);
    field_str(3, "c", &mut y);
    field_bytes(5, &tf_attr("T", &tf_attr_type_float()), &mut y);

    let mut g = Vec::new();
    field_bytes(1, &x, &mut g);
    field_bytes(1, &c, &mut g);
    field_bytes(1, &y, &mut g);
    g
}

// ---- helpers --------------------------------------------------------------

fn f32_tensor(dims: &[u32], vals: &[f32]) -> Tensor {
    Tensor {
        tensor_type: TensorType { ttype: 0 },
        dimensions: dims.to_vec(),
        data: le_bytes(vals),
    }
}

fn definition(encoding: &str) -> ModelDefinition {
    ModelDefinition {
        model_name: None,
        graph_encoding: encoding.to_string(),
        execution_target: "cpu".to_string(),
        tensor_type: "f32".to_string(),
        tensor_dimensions_in: Some(vec![1, 4]),
        tensor_dimensions_out: Some(vec![1, 4]),
    }
}

fn fetched(name: &str, encoding: &str, bytes: Vec<u8>) -> FetchedModel {
    FetchedModel {
        model_name: name.to_string(),
        bindle_url: format!("bindle:{}", name),
        metadata: definition(encoding),
        model_data: bytes,
    }
}

// ---- engine state machine -------------------------------------------------

#[test]
fn handle_monotonicity_and_targeted_drop() {
    let mut e = TractEngine::default();
    let g0 = e.load(&onnx_identity(&[1, 4])).unwrap();
    let g1 = e.load(&[0xde, 0xad]).unwrap();
    let g2 = e.load(&onnx_identity(&[1, 2])).unwrap();
    assert_eq!((g0, g1, g2), (0, 1, 2));

    // dropping removes exactly the targeted handle and leaves others intact
    e.drop_model_state(&g1, &0);
    let c0 = e
        .init_execution_context(g0, &ExecutionTarget::Cpu, &GraphEncoding::Onnx)
        .unwrap();
    assert_eq!(c0, 0);
    let c2 = e
        .init_execution_context(g2, &ExecutionTarget::Cpu, &GraphEncoding::Onnx)
        .unwrap();
    assert_eq!(c2, 1);
    assert_eq!(
        e.init_execution_context(g1, &ExecutionTarget::Cpu, &GraphEncoding::Onnx),
        Err(InferenceError::ContextNotFound)
    );

    // the next graph handle continues past the dropped one
    let g3 = e.load(&[1]).unwrap();
    assert_eq!(g3, 3);

    // a freed handle is never reused, even when it was the highest one
    e.drop_model_state(&g3, &0);
    let g4 = e.load(&[2]).unwrap();
    assert_eq!(g4, 4);
}

#[test]
fn get_output_before_compute_is_an_error() {
    let mut e = TractEngine::default();
    let g = e.load(&onnx_identity(&[1, 4])).unwrap();
    let c = e
        .init_execution_context(g, &ExecutionTarget::Cpu, &GraphEncoding::Onnx)
        .unwrap();
    assert_eq!(e.get_output(c, 0), Err(InferenceError::RuntimeError));
    let t = f32_tensor(&[1, 4], &[1.0, 2.0, 3.0, 4.0]);
    e.set_input(c, 0, &t).unwrap();
    // still nothing computed
    assert_eq!(e.get_output(c, 0), Err(InferenceError::RuntimeError));
    e.compute(c).unwrap();
    let out = e.get_output(c, 0).unwrap();
    assert_eq!(out.data, t.data);
}

#[test]
fn unsupported_encoding_allocates_no_session() {
    let mut e = TractEngine::default();
    let g = e.load(&onnx_identity(&[1, 4])).unwrap();
    assert_eq!(e.state.executions.len(), 0);
    assert_eq!(
        e.init_execution_context(g, &ExecutionTarget::Cpu, &GraphEncoding::OpenVino),
        Err(InferenceError::InvalidEncodingError)
    );
    assert_eq!(e.state.executions.len(), 0);
    assert_eq!(
        e.init_execution_context(g, &ExecutionTarget::Cpu, &GraphEncoding::TfLite),
        Err(InferenceError::InvalidEncodingError)
    );
    assert_eq!(e.state.executions.len(), 0);
}

#[test]
fn unsupported_target_is_rejected() {
    let mut e = TractEngine::default();
    let g = e.load(&onnx_identity(&[1, 4])).unwrap();
    assert_eq!(
        e.init_execution_context(g, &ExecutionTarget::Gpu, &GraphEncoding::Onnx),
        Err(InferenceError::UnsupportedExecutionTarget)
    );
    assert_eq!(
        e.init_execution_context(g, &ExecutionTarget::Tpu, &GraphEncoding::Onnx),
        Err(InferenceError::UnsupportedExecutionTarget)
    );
}

#[test]
fn malformed_model_bytes_are_rejected_at_session_build() {
    let mut e = TractEngine::default();
    let g = e.load(&[1, 2, 3, 4, 5]).unwrap();
    assert_eq!(
        e.init_execution_context(g, &ExecutionTarget::Cpu, &GraphEncoding::Onnx),
        Err(InferenceError::FailedToBuildModelFromBuffer)
    );
    assert_eq!(
        e.init_execution_context(g, &ExecutionTarget::Cpu, &GraphEncoding::Tensorflow),
        Err(InferenceError::FailedToBuildModelFromBuffer)
    );
}

#[test]
fn unknown_handles_never_panic() {
    let mut e = TractEngine::default();
    let t = f32_tensor(&[1], &[1.0]);
    assert_eq!(
        e.init_execution_context(9, &ExecutionTarget::Cpu, &GraphEncoding::Onnx),
        Err(InferenceError::ContextNotFound)
    );
    assert_eq!(e.set_input(7, 0, &t), Err(InferenceError::ContextNotFound));
    assert_eq!(e.compute(7), Err(InferenceError::ContextNotFound));
    assert_eq!(e.get_output(7, 0), Err(InferenceError::ContextNotFound));

    // a dropped session is as unknown as one never allocated
    let g = e.load(&onnx_identity(&[1, 4])).unwrap();
    let c = e
        .init_execution_context(g, &ExecutionTarget::Cpu, &GraphEncoding::Onnx)
        .unwrap();
    e.drop_model_state(&g, &c);
    assert_eq!(e.set_input(c, 0, &t), Err(InferenceError::ContextNotFound));
    assert_eq!(e.compute(c), Err(InferenceError::ContextNotFound));
    assert_eq!(e.get_output(c, 0), Err(InferenceError::ContextNotFound));
    // dropping again is a harmless no-op
    e.drop_model_state(&g, &c);
    // and the dropped session handle stays retired: a later session gets a
    // fresh number, so the stale handle can never alias it
    let g2 = e.load(&onnx_identity(&[1, 4])).unwrap();
    let c2 = e
        .init_execution_context(g2, &ExecutionTarget::Cpu, &GraphEncoding::Onnx)
        .unwrap();
    assert_ne!(c2, c);
    assert_eq!(e.get_output(c, 0), Err(InferenceError::ContextNotFound));
}

#[test]
fn corrupt_input_tensor_is_rejected() {
    let mut e = TractEngine::default();
    let g = e.load(&onnx_identity(&[1, 4])).unwrap();
    let c = e
        .init_execution_context(g, &ExecutionTarget::Cpu, &GraphEncoding::Onnx)
        .unwrap();
    // 3 bytes cannot encode any whole number of 4-byte elements
    let ragged = Tensor {
        tensor_type: TensorType { ttype: 0 },
        dimensions: vec![1, 4],
        data: vec![1, 2, 3],
    };
    assert_eq!(e.set_input(c, 0, &ragged), Err(InferenceError::CorruptInputTensor));
    // 8 bytes do not fill a 1x4 float tensor either
    let short = f32_tensor(&[1, 4], &[1.0, 2.0]);
    assert_eq!(e.set_input(c, 0, &short), Err(InferenceError::CorruptInputTensor));
}

#[test]
fn failing_run_reports_compute_error() {
    let mut e = TractEngine::default();
    let g = e.load(&onnx_identity(&[1, 4])).unwrap();
    let c = e
        .init_execution_context(g, &ExecutionTarget::Cpu, &GraphEncoding::Onnx)
        .unwrap();
    // two buffered inputs for a one-input model: the run cannot be built
    let t = f32_tensor(&[1, 4], &[1.0, 2.0, 3.0, 4.0]);
    e.set_input(c, 0, &t).unwrap();
    e.set_input(c, 1, &t).unwrap();
    assert_eq!(e.compute(c), Err(InferenceError::OnnxError));
}

#[test]
fn uncollected_outputs_block_a_second_compute() {
    let mut e = TractEngine::default();
    let g = e.load(&onnx_identity(&[1, 4])).unwrap();
    let c = e
        .init_execution_context(g, &ExecutionTarget::Cpu, &GraphEncoding::Onnx)
        .unwrap();
    let t = f32_tensor(&[1, 4], &[1.0, 2.0, 3.0, 4.0]);
    e.set_input(c, 0, &t).unwrap();
    e.compute(c).unwrap();
    e.set_input(c, 0, &t).unwrap();
    assert_eq!(e.compute(c), Err(InferenceError::RuntimeError));
}

#[test]
fn output_index_out_of_range_is_an_error() {
    let mut e = TractEngine::default();
    let g = e.load(&onnx_identity(&[1, 4])).unwrap();
    let c = e
        .init_execution_context(g, &ExecutionTarget::Cpu, &GraphEncoding::Onnx)
        .unwrap();
    let t = f32_tensor(&[1, 4], &[1.0, 2.0, 3.0, 4.0]);
    e.set_input(c, 0, &t).unwrap();
    e.compute(c).unwrap();
    assert_eq!(e.get_output(c, 5), Err(InferenceError::RuntimeError));
    assert!(e.get_output(c, 0).is_ok());
}

#[test]
fn distinct_sessions_do_not_interfere() {
    // two sessions of the same engine, interleaved: each output matches its
    // own input, never the other session's
    let mut e = TractEngine::default();
    let g = e.load(&onnx_identity(&[1, 4])).unwrap();
    let c1 = e
        .init_execution_context(g, &ExecutionTarget::Cpu, &GraphEncoding::Onnx)
        .unwrap();
    let c2 = e
        .init_execution_context(g, &ExecutionTarget::Cpu, &GraphEncoding::Onnx)
        .unwrap();
    assert_ne!(c1, c2);
    let t1 = f32_tensor(&[1, 4], &[1.0, 2.0, 3.0, 4.0]);
    let t2 = f32_tensor(&[1, 4], &[9.0, 8.0, 7.0, 6.0]);
    e.set_input(c1, 0, &t1).unwrap();
    e.set_input(c2, 0, &t2).unwrap();
    e.compute(c2).unwrap();
    e.compute(c1).unwrap();
    assert_eq!(e.get_output(c1, 0).unwrap().data, t1.data);
    assert_eq!(e.get_output(c2, 0).unwrap().data, t2.data);
}

// ---- registry --------------------------------------------------------------

#[test]
fn registry_creates_lazily_and_reuses() {
    let mut r = EngineRegistry::new();
    assert!(!r.has_engine(&GraphEncoding::Onnx));
    r.resolve_or_create(&GraphEncoding::Onnx).unwrap();
    assert!(r.has_engine(&GraphEncoding::Onnx));
    assert!(r.has_engine(&GraphEncoding::Tensorflow));
    // load something, then resolve again: the same instance is kept
    r.tract.as_mut().unwrap().load(&[1, 2, 3]).unwrap();
    r.resolve_or_create(&GraphEncoding::Tensorflow).unwrap();
    assert_eq!(r.tract.as_ref().unwrap().state.models.len(), 1);
    assert_eq!(
        r.resolve_or_create(&GraphEncoding::TfLite),
        Err(InferenceError::NotImplemented)
    );
    assert_eq!(
        r.resolve_or_create(&GraphEncoding::OpenVino),
        Err(InferenceError::NotImplemented)
    );
    assert!(!r.has_engine(&GraphEncoding::TfLite));
    assert!(!r.has_engine(&GraphEncoding::OpenVino));
}

// ---- predict pipeline -------------------------------------------------------

fn request(model: &str, tensor: Tensor) -> InferenceRequest {
    InferenceRequest { model: model.to_string(), tensor, index: 0 }
}

#[test]
fn predict_identity_returns_the_input() {
    let mut p = MlInferenceProvider::new();
    let models = vec![fetched("identity", "onnx", onnx_identity(&[1, 4]))];
    p.put_link_sub(&"actor1".to_string(), &models);
    let t = f32_tensor(&[1, 4], &[1.0, 2.0, 3.0, 4.0]);
    let out = p.predict(&Some("actor1".to_string()), &request("identity", t.clone()));
    assert!(!out.result.has_error, "result: {:?}", out.result);
    assert_eq!(out.tensor.data, t.data);
    assert_eq!(out.tensor.dimensions, vec![1, 4]);
}

#[test]
fn predict_plus3_onnx_adds_the_constant() {
    let mut p = MlInferenceProvider::new();
    let models = vec![fetched("plus3", "onnx", onnx_plus3(&[1, 4], 4))];
    p.put_link_sub(&"actor1".to_string(), &models);
    let t = f32_tensor(&[1, 4], &[1.0, 2.0, 3.0, 4.0]);
    let out = p.predict(&Some("actor1".to_string()), &request("plus3", t));
    assert!(!out.result.has_error, "result: {:?}", out.result);
    assert_eq!(out.tensor.data, le_bytes(&[4.0, 5.0, 6.0, 7.0]));
    assert_eq!(out.tensor.dimensions, vec![1, 4]);
}

#[test]
fn predict_plus3_tensorflow_adds_the_constant() {
    let mut p = MlInferenceProvider::new();
    let models = vec![fetched("plus3tf", "tensorflow", tf_plus3(&[1, 4], 4))];
    p.put_link_sub(&"actor1".to_string(), &models);
    let t = f32_tensor(&[1, 4], &[1.0, 2.0, 3.0, 4.0]);
    let out = p.predict(&Some("actor1".to_string()), &request("plus3tf", t));
    assert!(!out.result.has_error, "result: {:?}", out.result);
    assert_eq!(out.tensor.data, le_bytes(&[4.0, 5.0, 6.0, 7.0]));
    assert_eq!(out.tensor.dimensions, vec![1, 4]);
}

#[test]
fn predict_unknown_model_reports_not_found() {
    let mut p = MlInferenceProvider::new();
    let models = vec![fetched("identity", "onnx", onnx_identity(&[1, 4]))];
    p.put_link_sub(&"actor1".to_string(), &models);
    let t = f32_tensor(&[1, 4], &[1.0, 2.0, 3.0, 4.0]);
    let out = p.predict(&Some("actor1".to_string()), &request("absent", t));
    assert!(out.result.has_error);
    assert_eq!(
        out.result.error.unwrap().err,
        InferenceError::ContextNotFound.code()
    );
    assert!(out.tensor.data.is_empty());
    assert!(out.tensor.dimensions.is_empty());
}

#[test]
fn predict_unknown_caller_reports_not_found() {
    let mut p = MlInferenceProvider::new();
    let t = f32_tensor(&[1], &[1.0]);
    let out = p.predict(&Some("nobody".to_string()), &request("m", t.clone()));
    assert!(out.result.has_error);
    assert_eq!(
        out.result.error.unwrap().err,
        InferenceError::ContextNotFound.code()
    );
    let anon = p.predict(&None, &request("m", t));
    assert!(anon.result.has_error);
    assert_eq!(anon.result.error.unwrap().err, InferenceError::RuntimeError.code());
}

#[test]
fn predict_per_caller_sessions_are_independent() {
    // two callers, two sessions of the same engine: each predict answers
    // with its own caller's input
    let mut p = MlInferenceProvider::new();
    p.put_link_sub(
        &"actor1".to_string(),
        &vec![fetched("identity", "onnx", onnx_identity(&[1, 4]))],
    );
    p.put_link_sub(
        &"actor2".to_string(),
        &vec![fetched("identity", "onnx", onnx_identity(&[1, 4]))],
    );
    let t1 = f32_tensor(&[1, 4], &[1.0, 2.0, 3.0, 4.0]);
    let t2 = f32_tensor(&[1, 4], &[5.0, 6.0, 7.0, 8.0]);
    let o1 = p.predict(&Some("actor1".to_string()), &request("identity", t1.clone()));
    let o2 = p.predict(&Some("actor2".to_string()), &request("identity", t2.clone()));
    assert!(!o1.result.has_error);
    assert!(!o2.result.has_error);
    assert_eq!(o1.tensor.data, t1.data);
    assert_eq!(o2.tensor.data, t2.data);
}

#[test]
fn failed_model_load_does_not_poison_the_zoo() {
    // one model's artifact is garbage; the other still loads and serves
    let mut p = MlInferenceProvider::new();
    let models = vec![
        fetched("broken", "onnx", vec![9, 9, 9]),
        fetched("identity", "onnx", onnx_identity(&[1, 4])),
    ];
    p.put_link_sub(&"actor1".to_string(), &models);
    let t = f32_tensor(&[1, 4], &[1.0, 2.0, 3.0, 4.0]);
    let ok = p.predict(&Some("actor1".to_string()), &request("identity", t.clone()));
    assert!(!ok.result.has_error);
    assert_eq!(ok.tensor.data, t.data);
    let bad = p.predict(&Some("actor1".to_string()), &request("broken", t));
    assert!(bad.result.has_error);
    assert_eq!(
        bad.result.error.unwrap().err,
        InferenceError::ContextNotFound.code()
    );
}

#[test]
fn predict_without_engine_reports_invalid_parameter() {
    // a hand-built context claims a session, but no engine was ever created
    let mut p = MlInferenceProvider::new();
    let mut ctx = ModelContext::with_url("bindle:ghost".to_string());
    ctx.graph = Some(0);
    ctx.graph_execution_context = Some(0);
    let mut zoo: StrMap<ModelContext> = StrMap::new();
    zoo.insert("ghost".to_string(), ctx);
    p.actors.insert("actor1".to_string(), zoo);
    let t = f32_tensor(&[1], &[1.0]);
    let out = p.predict(&Some("actor1".to_string()), &request("ghost", t));
    assert!(out.result.has_error);
    assert_eq!(
        out.result.error.unwrap().err,
        InferenceError::InvalidParameter.code()
    );
}

#[test]
fn delete_link_drops_the_caller_and_its_state() {
    let mut p = MlInferenceProvider::new();
    p.put_link_sub(
        &"actor1".to_string(),
        &vec![fetched("identity", "onnx", onnx_identity(&[1, 4]))],
    );
    let t = f32_tensor(&[1, 4], &[1.0, 2.0, 3.0, 4.0]);
    p.delete_link(&"actor1".to_string());
    let out = p.predict(&Some("actor1".to_string()), &request("identity", t));
    assert!(out.result.has_error);
    assert_eq!(
        out.result.error.unwrap().err,
        InferenceError::ContextNotFound.code()
    );
    // the engine kept nothing of the caller's models
    assert_eq!(p.engines.tract.as_ref().unwrap().state.models.len(), 0);
    assert_eq!(p.engines.tract.as_ref().unwrap().state.executions.len(), 0);
    // deleting an unknown caller is a no-op
    p.delete_link(&"actor1".to_string());
}

#[test]
fn predict_output_index_out_of_range_is_an_error() {
    let mut p = MlInferenceProvider::new();
    p.put_link_sub(
        &"actor1".to_string(),
        &vec![fetched("identity", "onnx", onnx_identity(&[1, 4]))],
    );
    let t = f32_tensor(&[1, 4], &[1.0, 2.0, 3.0, 4.0]);
    let req = InferenceRequest { model: "identity".to_string(), tensor: t, index: 3 };
    let out = p.predict(&Some("actor1".to_string()), &req);
    assert!(out.result.has_error);
    assert_eq!(out.result.error.unwrap().err, InferenceError::RuntimeError.code());
}

#[test]
fn sessions_are_single_shot_per_compute_cycle() {
    // outputs of the first predict stay uncollected in the session, so a
    // second compute against it is refused
    let mut p = MlInferenceProvider::new();
    p.put_link_sub(
        &"actor1".to_string(),
        &vec![fetched("identity", "onnx", onnx_identity(&[1, 4]))],
    );
    let t = f32_tensor(&[1, 4], &[1.0, 2.0, 3.0, 4.0]);
    let first = p.predict(&Some("actor1".to_string()), &request("identity", t.clone()));
    assert!(!first.result.has_error);
    let second = p.predict(&Some("actor1".to_string()), &request("identity", t));
    assert!(second.result.has_error);
    assert_eq!(second.result.error.unwrap().err, InferenceError::RuntimeError.code());
}

#[test]
fn duplicate_model_names_keep_the_last_artifact() {
    let mut p = MlInferenceProvider::new();
    let models = vec![
        fetched("m", "onnx", onnx_identity(&[1, 4])),
        fetched("m", "onnx", onnx_plus3(&[1, 4], 4)),
    ];
    p.put_link_sub(&"actor1".to_string(), &models);
    let t = f32_tensor(&[1, 4], &[1.0, 2.0, 3.0, 4.0]);
    let out = p.predict(&Some("actor1".to_string()), &request("m", t));
    assert!(!out.result.has_error);
    assert_eq!(out.tensor.data, le_bytes(&[4.0, 5.0, 6.0, 7.0]));
}

#[test]
fn attach_unsupported_encoding_leaves_model_not_ready() {
    let mut p = MlInferenceProvider::new();
    p.put_link_sub(
        &"actor1".to_string(),
        &vec![fetched("lite", "tflite", vec![1, 2, 3])],
    );
    let t = f32_tensor(&[1], &[1.0]);
    let out = p.predict(&Some("actor1".to_string()), &request("lite", t));
    assert!(out.result.has_error);
    assert_eq!(
        out.result.error.unwrap().err,
        InferenceError::ContextNotFound.code()
    );
}
