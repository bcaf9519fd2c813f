//! Trusted boundary to the tract inference runtime.
//!
//! The engine's logic is verified; parsing and executing a model is the
//! native runtime's work and stands here behind a few wrappers.  What a run
//! returns cannot be written down in a few lines; for models that tract
//! computes as a pure function the outcome carries a name that the engine's
//! contracts speak of exactly.  Not every model is in that class: ONNX
//! models with unseeded random operators draw OS entropy at run time, and
//! floating-point results pass through kernels the runtime selects by
//! machine probing, so the run wrappers promise the named result only under
//! the determinism predicates below and promise nothing of other models'
//! values.
//!
//! One caveat holds for all four wrappers: tract's parser and translator
//! can panic on crafted model bytes (for instance a graph output produced
//! by no node), and "bytes on which the parser panics" is not a statable
//! precondition.  The host process is therefore expected to contain
//! unwinds at the call boundary, as the provider's host does around attach
//! and predict.
use crate::tensor::{all_coherent, views_of, TensorData, TensorDataView};
use tract_onnx::onnx;
use tract_onnx::prelude::DatumType::F32;
use tract_onnx::prelude::Framework;
use tract_tensorflow::tensorflow;
use tract_onnx::prelude::Tensor as TractTensor;
use tract_onnx::prelude::{InferenceFact, InferenceModelExt, IntoRunnable, TVec};
use vstd::prelude::*;

verus! {

/// Whether a byte buffer parses as an ONNX model.
pub uninterp spec fn onnx_parses(model: Seq<u8>) -> bool;

/// Whether a byte buffer parses as a TensorFlow graph definition.
pub uninterp spec fn tensorflow_parses(model: Seq<u8>) -> bool;

/// Whether tract computes this ONNX model as a pure function: every
/// execution of the parse, optimize and run chain on these bytes and any
/// one input buffer yields the same outcome, in every process and on every
/// machine.  Models whose operators draw entropy (tract seeds ONNX
/// Multinomial and RandomUniform/RandomNormal without a seed attribute
/// from the OS) are not in this class, nor are models whose results differ
/// between the runtime's machine-selected floating-point kernels.
pub uninterp spec fn onnx_deterministic(model: Seq<u8>) -> bool;

/// Whether tract computes this TensorFlow model as a pure function, in the
/// sense of `onnx_deterministic`.  tract's TensorFlow random operators are
/// seeded from graph attributes, but kernel selection still varies by
/// machine.
pub uninterp spec fn tensorflow_deterministic(model: Seq<u8>) -> bool;

/// What running a deterministic ONNX model on a buffer of inputs yields:
/// the output tensors, or nothing when parsing, shape binding,
/// optimization or execution fails.  Nothing is claimed about this name on
/// models outside `onnx_deterministic`.
pub uninterp spec fn onnx_output(model: Seq<u8>, inputs: Seq<TensorDataView>) -> Option<
    Seq<TensorDataView>,
>;

/// What running a deterministic TensorFlow model on a buffer of inputs
/// yields, in the sense of `onnx_output`.
pub uninterp spec fn tensorflow_output(model: Seq<u8>, inputs: Seq<TensorDataView>) -> Option<
    Seq<TensorDataView>,
>;

/// Relies on tract_onnx's `Framework::model_for_read`: whether bytes parse
/// as an ONNX model is a function of the bytes alone (the parse path reads
/// no entropy, no environment and no disk).  The parser can panic on
/// crafted bytes; see the module note on unwind containment.
#[verifier::external_body]
pub(crate) fn parse_onnx(model: &[u8]) -> (r: bool)
    ensures
        r == onnx_parses(model@),
{
    onnx().model_for_read(&mut &*model).is_ok()
}

/// Relies on tract_tensorflow's `Framework::model_for_read`: whether bytes
/// parse as a TensorFlow graph definition is a function of the bytes alone
/// (no entropy, no environment, no disk on the parse path).  The parser
/// can panic on crafted bytes; see the module note on unwind containment.
#[verifier::external_body]
pub(crate) fn parse_tensorflow(model: &[u8]) -> (r: bool)
    ensures
        r == tensorflow_parses(model@),
{
    tensorflow().model_for_read(&mut &*model).is_ok()
}

/// Relies on tract_onnx: parse the model, bind one shape fact per input in
/// buffer order, optimize, run; every failure along the chain is `None`.
/// Only for a model that tract computes as a pure function is the outcome
/// named: of any other model's outcome nothing is claimed, since it may
/// draw OS entropy or vary with the machine's kernels.  Each input's
/// payload must fill its shape exactly: the native tensor is allocated
/// from the shape and filled byte for byte.
#[verifier::external_body]
pub(crate) fn run_onnx(model: &[u8], inputs: &Vec<TensorData>) -> (r: Option<Vec<TensorData>>)
    requires
        all_coherent(inputs@),
    ensures
        onnx_deterministic(model@) ==> match r {
            Some(v) => onnx_output(model@, views_of(inputs@)) == Some(views_of(v@)),
            None => onnx_output(model@, views_of(inputs@)) is None,
        },
{
    let mut m = onnx().model_for_read(&mut &*model).ok()?;
    let mut ins = TVec::new();
    for (i, t) in inputs.iter().enumerate() {
        m.inputs.get(i)?;
        m.set_input_fact(i, InferenceFact::dt_shape(F32, t.dims.clone())).ok()?;
        let mut n = TractTensor::zero_dt(F32, &t.dims).ok()?;
        n.as_bytes_mut().copy_from_slice(&t.data);
        ins.push(n.into());
    }
    let outs = m.into_optimized().and_then(IntoRunnable::into_runnable).ok()?.run(ins).ok()?;
    Some(outs.iter().map(|t| TensorData::from_parts(t.shape(), t.as_bytes())).collect())
}

/// Relies on tract_tensorflow: parse the graph definition, bind one shape
/// fact per input in buffer order, optimize, run; every failure along the
/// chain is `None`.  Only for a model that tract computes as a pure
/// function is the outcome named, as with `run_onnx`.  Each input's
/// payload must fill its shape exactly: the native tensor is allocated
/// from the shape and filled byte for byte.
#[verifier::external_body]
pub(crate) fn run_tensorflow(model: &[u8], inputs: &Vec<TensorData>) -> (r: Option<
    Vec<TensorData>,
>)
    requires
        all_coherent(inputs@),
    ensures
        tensorflow_deterministic(model@) ==> match r {
            Some(v) => tensorflow_output(model@, views_of(inputs@)) == Some(views_of(v@)),
            None => tensorflow_output(model@, views_of(inputs@)) is None,
        },
{
    let mut m = tensorflow().model_for_read(&mut &*model).ok()?;
    let mut ins = TVec::new();
    for (i, t) in inputs.iter().enumerate() {
        m.inputs.get(i)?;
        m.set_input_fact(i, InferenceFact::dt_shape(F32, t.dims.clone())).ok()?;
        let mut n = TractTensor::zero_dt(F32, &t.dims).ok()?;
        n.as_bytes_mut().copy_from_slice(&t.data);
        ins.push(n.into());
    }
    let outs = m.into_optimized().and_then(IntoRunnable::into_runnable).ok()?.run(ins).ok()?;
    Some(outs.iter().map(|t| TensorData::from_parts(t.shape(), t.as_bytes())).collect())
}

} // verus!
