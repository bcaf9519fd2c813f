//! The tract-backed inference engine: its model state, its sessions and the
//! six operations of the engine interface.
//!
//! The engine owns a model state mapping graph handles to raw model bytes
//! and session handles to live sessions.  A session is created from a graph
//! for one target and encoding, accumulates input tensors, computes once,
//! and hands its outputs out; every operation re-validates its handle and
//! reports failure as a value, never by panicking.
use crate::handle_map::HandleMap;
use crate::inference::{
    ExecutionTarget, Graph, GraphEncoding, GraphExecutionContext, InferenceError, InferenceResult,
};
use crate::tensor::{
    all_coherent, dup_opt_tensors, dup_tensors, views_of, widen_dims, Tensor, TensorData,
    TensorDataView, TensorType, TENSOR_TYPE_F32,
};
use crate::tract::{
    onnx_deterministic, onnx_output, onnx_parses, parse_onnx, parse_tensorflow, run_onnx,
    run_tensorflow, tensorflow_deterministic, tensorflow_output, tensorflow_parses,
};
use vstd::prelude::*;

verus! {

/// Whether this engine family serves an encoding: it runs ONNX models and
/// TensorFlow graph definitions.
pub open spec fn encoding_supported(enc: GraphEncoding) -> bool {
    enc == GraphEncoding::Onnx || enc == GraphEncoding::Tensorflow
}

/// Whether model bytes parse under a supported encoding.
pub open spec fn spec_parses(enc: GraphEncoding, model: Seq<u8>) -> bool
    recommends
        encoding_supported(enc),
{
    if enc == GraphEncoding::Onnx {
        onnx_parses(model)
    } else {
        tensorflow_parses(model)
    }
}

/// What one run of a model under a supported encoding yields, where the
/// runtime computes that model as a pure function (`spec_deterministic`);
/// outside that class nothing is claimed of this name.
pub open spec fn spec_run(enc: GraphEncoding, model: Seq<u8>, inputs: Seq<TensorDataView>) -> Option<
    Seq<TensorDataView>,
>
    recommends
        encoding_supported(enc),
{
    if enc == GraphEncoding::Onnx {
        onnx_output(model, inputs)
    } else {
        tensorflow_output(model, inputs)
    }
}

/// Whether the runtime computes a model under a supported encoding as a
/// pure function of the bytes and inputs: the determinism classes named at
/// the trusted boundary.
pub open spec fn spec_deterministic(enc: GraphEncoding, model: Seq<u8>) -> bool
    recommends
        encoding_supported(enc),
{
    if enc == GraphEncoding::Onnx {
        onnx_deterministic(model)
    } else {
        tensorflow_deterministic(model)
    }
}

/// Handle monotonicity: the allocation counter numbers handles 0, 1, 2, …
/// in call order.  `load`'s contract hands out exactly the counter and
/// advances it by one, and `drop_model_state` never touches the counter,
/// so in a fresh engine N loads yield the graph handles `0..N-1`, all
/// distinct, and a dropped handle is never handed out again; this lemma
/// supplies the induction step that appending the counter's value keeps
/// the handle list contiguous.
pub proof fn lemma_handle_monotonicity(keys: Seq<u32>, g: u32)
    requires
        forall|i: int| 0 <= i < keys.len() ==> keys[i] == i,
        g == keys.len(),
    ensures
        forall|i: int| 0 <= i < keys.push(g).len() ==> keys.push(g)[i] == i,
{
    assert forall|i: int| 0 <= i < keys.push(g).len() implies keys.push(g)[i] == i by {
        if i < keys.len() {
            assert(keys.push(g)[i] == keys[i]);
        } else {
            assert(keys.push(g)[i] == g);
        }
    }
}

/// Session isolation: a step of the state machine addressed to one context
/// leaves every other session exactly as it was.  `set_input` and `compute`
/// promise `final(self).sessions() == old(self).sessions().insert(context,
/// ...)`; this spells out that such a step cannot corrupt another session,
/// so calls against distinct sessions commute on each other's state.
pub proof fn lemma_session_isolation(
    pre: Map<u32, TractSession>,
    post: Map<u32, TractSession>,
    c: u32,
    c2: u32,
)
    requires
        post == pre.insert(c, post[c]),
        c2 != c,
        pre.contains_key(c2),
    ensures
        post.contains_key(c2),
        post[c2] == pre[c2],
{
}

/// One live session: the model's raw bytes, its declared encoding, the
/// buffer of pending inputs and the outputs of the last compute.
pub struct TractSession {
    pub model: Vec<u8>,
    pub encoding: GraphEncoding,
    pub input_tensors: Option<Vec<TensorData>>,
    pub output_tensors: Option<Vec<TensorData>>,
}

impl TractSession {
    /// Sessions only ever hold a supported encoding and coherent buffered
    /// inputs.
    pub open spec fn wf(&self) -> bool {
        &&& encoding_supported(self.encoding)
        &&& match self.input_tensors {
            Some(v) => all_coherent(v@),
            None => true,
        }
    }

    /// The buffered inputs in call order; empty when none were set.
    pub open spec fn buffered(&self) -> Seq<TensorDataView> {
        match self.input_tensors {
            Some(v) => views_of(v@),
            None => Seq::empty(),
        }
    }

    /// The outputs of the last compute, if one succeeded and was not yet
    /// superseded.
    pub open spec fn outputs(&self) -> Option<Seq<TensorDataView>> {
        match self.output_tensors {
            Some(v) => Some(views_of(v@)),
            None => None,
        }
    }

    /// A fresh session around a model's bytes: no inputs, no outputs.
    pub fn with_graph(model: Vec<u8>, encoding: GraphEncoding) -> (r: Self)
        ensures
            r.model@ == model@,
            r.encoding == encoding,
            r.input_tensors is None,
            r.output_tensors is None,
    {
        TractSession { model, encoding, input_tensors: None, output_tensors: None }
    }
}

/// One engine's authoritative store: raw model bytes by graph handle, live
/// sessions by context handle.
pub struct ModelState {
    pub models: HandleMap<Vec<u8>>,
    pub executions: HandleMap<TractSession>,
}

impl ModelState {
    /// Both arenas well-formed, and every session well-formed.
    pub open spec fn wf(&self) -> bool {
        &&& self.models.wf()
        &&& self.executions.wf()
        &&& forall|c: u32|
            self.executions@.contains_key(c) ==> (#[trigger] self.executions@[c]).wf()
    }

    /// An empty store.
    pub fn new() -> (r: Self)
        ensures
            r.wf(),
            r.models@ == Map::<u32, Vec<u8>>::empty(),
            r.executions@ == Map::<u32, TractSession>::empty(),
            r.models.spec_entries().len() == 0,
            r.executions.spec_entries().len() == 0,
            r.models.spec_next() == 0,
            r.executions.spec_next() == 0,
    {
        ModelState { models: HandleMap::new(), executions: HandleMap::new() }
    }
}

/// The tract-backed engine, serving ONNX and TensorFlow models on the CPU.
pub struct TractEngine {
    pub state: ModelState,
}

impl Default for TractEngine {
    /// A fresh engine with an empty model state.
    fn default() -> (r: TractEngine)
        ensures
            r.wf(),
            r.models() == Map::<u32, Vec<u8>>::empty(),
            r.sessions() == Map::<u32, TractSession>::empty(),
            r.state.models.spec_entries().len() == 0,
            r.state.executions.spec_entries().len() == 0,
            r.state.models.spec_next() == 0,
            r.state.executions.spec_next() == 0,
    {
        TractEngine { state: ModelState::new() }
    }
}

impl TractEngine {
    pub open spec fn wf(&self) -> bool {
        self.state.wf()
    }

    /// The loaded models, raw bytes by graph handle.
    pub open spec fn models(&self) -> Map<u32, Vec<u8>> {
        self.state.models@
    }

    /// The live sessions by context handle.
    pub open spec fn sessions(&self) -> Map<u32, TractSession> {
        self.state.executions@
    }

    /// Stores the model bytes verbatim under a freshly allocated graph
    /// handle: the value of a counter that only ever grows, zero in a
    /// fresh engine.  The bytes are not validated here; validation happens
    /// at session-build time.  Fails only when the handle space is
    /// exhausted.
    ///
    /// Because the counter never winds back, a dropped handle is never
    /// handed out again within the engine's lifetime: a stale handle can
    /// become dangling but never alias a later model.  (While nothing has
    /// been dropped the counter coincides with last handle plus one.)
    pub fn load(&mut self, model: &[u8]) -> (r: InferenceResult<Graph>)
        requires
            old(self).wf(),
        ensures
            final(self).wf(),
            final(self).sessions() == old(self).sessions(),
            final(self).state.executions.spec_entries() == old(self).state.executions.spec_entries(),
            final(self).state.executions.spec_next() == old(self).state.executions.spec_next(),
            r is Ok <==> old(self).state.models.can_allocate(),
            forall|n: nat|
                n >= 1 && #[trigger] old(self).state.models.headroom(n) ==> final(
                self).state.models.headroom((n - 1) as nat),
            match r {
                Ok(g) => {
                    &&& !old(self).models().contains_key(g)
                    &&& g == old(self).state.models.spec_next()
                    &&& final(self).state.models.spec_next() == old(
                        self,
                    ).state.models.spec_next() + 1
                    &&& forall|g2: u32| old(self).models().contains_key(g2) ==> g2 < g
                    &&& final(self).models() == old(self).models().insert(
                        g,
                        final(self).models()[g],
                    )
                    &&& final(self).models()[g]@ == model@
                    &&& final(self).state.models.keys() == old(self).state.models.keys().push(g)
                },
                Err(e) => {
                    &&& e == InferenceError::RuntimeError
                    &&& final(self).models() == old(self).models()
                    &&& final(self).state.models.spec_entries() == old(
                        self,
                    ).state.models.spec_entries()
                    &&& final(self).state.models.spec_next() == old(self).state.models.spec_next()
                },
            },
    {
        match self.state.models.allocate(vstd::slice::slice_to_vec(model)) {
            None => Err(InferenceError::RuntimeError),
            Some(g) => Ok(g),
        }
    }

    /// Builds a runnable session from a loaded graph for a target and an
    /// encoding.  Fails when the target is not the CPU, the graph handle is
    /// unknown, the encoding is not served, the bytes do not parse, or the
    /// session handle space is exhausted; on success allocates a fresh
    /// session handle, with no inputs and no outputs yet.
    pub fn init_execution_context(
        &mut self,
        graph: Graph,
        target: &ExecutionTarget,
        encoding: &GraphEncoding,
    ) -> (r: InferenceResult<GraphExecutionContext>)
        requires
            old(self).wf(),
        ensures
            final(self).wf(),
            final(self).models() == old(self).models(),
            final(self).state.models.spec_entries() == old(self).state.models.spec_entries(),
            final(self).state.models.spec_next() == old(self).state.models.spec_next(),
            r is Ok <==> (*target == ExecutionTarget::Cpu && old(self).models().contains_key(graph)
                && encoding_supported(*encoding) && spec_parses(
                *encoding,
                old(self).models()[graph]@,
            ) && old(self).state.executions.can_allocate()),
            forall|n: nat|
                n >= 1 && #[trigger] old(self).state.executions.headroom(n) ==> final(
                self).state.executions.headroom((n - 1) as nat),
            match r {
                Ok(c) => {
                    &&& *target == ExecutionTarget::Cpu
                    &&& old(self).models().contains_key(graph)
                    &&& encoding_supported(*encoding)
                    &&& spec_parses(*encoding, old(self).models()[graph]@)
                    &&& !old(self).sessions().contains_key(c)
                    &&& c == old(self).state.executions.spec_next()
                    &&& final(self).state.executions.spec_next() == old(
                        self,
                    ).state.executions.spec_next() + 1
                    &&& final(self).sessions() == old(self).sessions().insert(
                        c,
                        final(self).sessions()[c],
                    )
                    &&& final(self).sessions()[c].model@ == old(self).models()[graph]@
                    &&& final(self).sessions()[c].encoding == *encoding
                    &&& final(self).sessions()[c].input_tensors is None
                    &&& final(self).sessions()[c].output_tensors is None
                },
                Err(e) => {
                    &&& final(self).sessions() == old(self).sessions()
                    &&& final(self).state.executions.spec_entries() == old(
                        self,
                    ).state.executions.spec_entries()
                    &&& final(self).state.executions.spec_next() == old(
                        self,
                    ).state.executions.spec_next()
                    &&& (e == InferenceError::UnsupportedExecutionTarget <==> *target
                        != ExecutionTarget::Cpu)
                    &&& (e == InferenceError::ContextNotFound <==> *target == ExecutionTarget::Cpu
                        && !old(self).models().contains_key(graph))
                    &&& (e == InferenceError::InvalidEncodingError <==> *target
                        == ExecutionTarget::Cpu && old(self).models().contains_key(graph)
                        && !encoding_supported(*encoding))
                    &&& (e == InferenceError::FailedToBuildModelFromBuffer <==> *target
                        == ExecutionTarget::Cpu && old(self).models().contains_key(graph)
                        && encoding_supported(*encoding) && !spec_parses(
                        *encoding,
                        old(self).models()[graph]@,
                    ))
                    &&& (e == InferenceError::RuntimeError <==> *target == ExecutionTarget::Cpu
                        && old(self).models().contains_key(graph) && encoding_supported(*encoding)
                        && spec_parses(*encoding, old(self).models()[graph]@))
                },
            },
    {
        if !(matches!(target, ExecutionTarget::Cpu)) {
            return Err(InferenceError::UnsupportedExecutionTarget);
        }
        let model_ref = match self.state.models.get(graph) {
            Some(m) => m,
            None => {
                return Err(InferenceError::ContextNotFound);
            },
        };
        let parses = match encoding {
            GraphEncoding::Onnx => parse_onnx(model_ref.as_slice()),
            GraphEncoding::Tensorflow => parse_tensorflow(model_ref.as_slice()),
            _ => {
                return Err(InferenceError::InvalidEncodingError);
            },
        };
        if !parses {
            return Err(InferenceError::FailedToBuildModelFromBuffer);
        }
        let bytes = model_ref.clone();
        let ghost old_smap = self.state.executions@;
        match self.state.executions.allocate(TractSession::with_graph(bytes, *encoding)) {
            None => Err(InferenceError::RuntimeError),
            Some(c) => {
                proof {
                    assert forall|c2: u32| self.sessions().contains_key(c2) implies (
                    #[trigger] self.sessions()[c2]).wf() by {
                        if c2 != c {
                            assert(old_smap[c2].wf());
                        }
                    }
                }
                Ok(c)
            },
        }
    }

    /// Converts the tensor's payload and appends it to the session's input
    /// buffer.  The buffer order, not `index`, determines the execution
    /// input order; the parameter addresses the declared shape slot and is
    /// otherwise not consulted.  Fails when the session handle is unknown or
    /// the payload does not fit the declared dimensions.
    pub fn set_input(
        &mut self,
        context: GraphExecutionContext,
        index: u32,
        tensor: &Tensor,
    ) -> (r: InferenceResult<()>)
        requires
            old(self).wf(),
        ensures
            final(self).wf(),
            final(self).models() == old(self).models(),
            final(self).state.models.spec_entries() == old(self).state.models.spec_entries(),
            final(self).state.executions.keys() == old(self).state.executions.keys(),
            r is Ok <==> (old(self).sessions().contains_key(context) && tensor.spec_coherent()),
            match r {
                Ok(_) => {
                    &&& old(self).sessions().contains_key(context)
                    &&& tensor.spec_coherent()
                    &&& final(self).sessions() == old(self).sessions().insert(
                        context,
                        final(self).sessions()[context],
                    )
                    &&& final(self).sessions()[context].model@ == old(
                        self,
                    ).sessions()[context].model@
                    &&& final(self).sessions()[context].encoding == old(
                        self,
                    ).sessions()[context].encoding
                    &&& final(self).sessions()[context].outputs() == old(
                        self,
                    ).sessions()[context].outputs()
                    &&& final(self).sessions()[context].input_tensors is Some
                    &&& final(self).sessions()[context].buffered() == old(
                        self,
                    ).sessions()[context].buffered().push(
                        TensorDataView {
                            dims: widen_dims(tensor.dimensions@),
                            data: tensor.data@,
                        },
                    )
                },
                Err(e) => {
                    &&& final(self).sessions() == old(self).sessions()
                    &&& final(self).state.executions.spec_entries() == old(
                        self,
                    ).state.executions.spec_entries()
                    &&& (e == InferenceError::ContextNotFound <==> !old(
                        self,
                    ).sessions().contains_key(context))
                    &&& (e == InferenceError::CorruptInputTensor <==> old(
                        self,
                    ).sessions().contains_key(context) && !tensor.spec_coherent())
                },
            },
    {
        let _ = index;
        let ghost old_smap = self.state.executions@;
        let new_sess = {
            let sess = match self.state.executions.get(context) {
                Some(s) => s,
                None => {
                    return Err(InferenceError::ContextNotFound);
                },
            };
            if !tensor.check_coherent() {
                return Err(InferenceError::CorruptInputTensor);
            }
            let td = tensor.to_data();
            let mut new_inputs: Vec<TensorData> = match &sess.input_tensors {
                Some(v) => dup_tensors(v),
                None => Vec::new(),
            };
            new_inputs.push(td);
            proof {
                assert(views_of(new_inputs@) =~= old_smap[context].buffered().push(
                    TensorDataView { dims: widen_dims(tensor.dimensions@), data: tensor.data@ },
                ));
                assert(old_smap[context].wf());
                assert forall|j: int| 0 <= j < new_inputs@.len() implies (
                #[trigger] new_inputs@[j])@.coherent() by {
                    assert(new_inputs@[j]@ == views_of(new_inputs@)[j]);
                    if j < new_inputs@.len() - 1 {
                        assert(views_of(new_inputs@)[j] == old_smap[context].buffered()[j]);
                        match old_smap[context].input_tensors {
                            Some(v) => {
                                assert(old_smap[context].buffered()[j] == (#[trigger] v@[j])@);
                            },
                            None => {},
                        }
                    }
                }
            }
            TractSession {
                model: sess.model.clone(),
                encoding: sess.encoding,
                input_tensors: Some(new_inputs),
                output_tensors: dup_opt_tensors(&sess.output_tensors),
            }
        };
        let ghost gsess = new_sess;
        let _ = self.state.executions.update_value(context, new_sess);
        proof {
            assert forall|c2: u32| self.sessions().contains_key(c2) implies (
            #[trigger] self.sessions()[c2]).wf() by {
                if c2 != context {
                    assert(old_smap[c2].wf());
                } else {
                    assert(self.sessions()[c2] == gsess);
                }
            }
        }
        Ok(())
    }

    /// Consumes the session's accumulated input buffer (no inputs set means
    /// an empty-input run), executes the model, and stores the output
    /// tensors, clearing the input buffer.  Fails when the session handle is
    /// unknown, when outputs of a prior compute were not yet collected, or
    /// when the native runtime rejects the run.  For a model the runtime
    /// computes as a pure function the stored outputs are pinned to the
    /// named run result; of any other model's outputs only their existence
    /// is stated, since the run may draw entropy or vary by machine.
    pub fn compute(&mut self, context: GraphExecutionContext) -> (r: InferenceResult<()>)
        requires
            old(self).wf(),
        ensures
            final(self).wf(),
            final(self).models() == old(self).models(),
            final(self).state.models.spec_entries() == old(self).state.models.spec_entries(),
            final(self).state.executions.keys() == old(self).state.executions.keys(),
            match r {
                Ok(_) => {
                    &&& old(self).sessions().contains_key(context)
                    &&& old(self).sessions()[context].outputs() is None
                    &&& final(self).sessions() == old(self).sessions().insert(
                        context,
                        final(self).sessions()[context],
                    )
                    &&& final(self).sessions()[context].model@ == old(
                        self,
                    ).sessions()[context].model@
                    &&& final(self).sessions()[context].encoding == old(
                        self,
                    ).sessions()[context].encoding
                    &&& final(self).sessions()[context].input_tensors is None
                    &&& final(self).sessions()[context].outputs() is Some
                },
                Err(e) => {
                    &&& final(self).sessions() == old(self).sessions()
                    &&& final(self).state.executions.spec_entries() == old(
                        self,
                    ).state.executions.spec_entries()
                    &&& (e == InferenceError::ContextNotFound || e == InferenceError::RuntimeError
                        || e == InferenceError::OnnxError)
                    &&& (e == InferenceError::ContextNotFound <==> !old(
                        self,
                    ).sessions().contains_key(context))
                    &&& (e == InferenceError::RuntimeError <==> old(self).sessions().contains_key(
                        context,
                    ) && old(self).sessions()[context].outputs() is Some)
                    &&& (e == InferenceError::OnnxError ==> old(self).sessions().contains_key(
                        context,
                    ) && old(self).sessions()[context].outputs() is None)
                },
            },
            old(self).sessions().contains_key(context) && spec_deterministic(
                old(self).sessions()[context].encoding,
                old(self).sessions()[context].model@,
            ) ==> {
                &&& (r is Ok <==> old(self).sessions()[context].outputs() is None && spec_run(
                    old(self).sessions()[context].encoding,
                    old(self).sessions()[context].model@,
                    old(self).sessions()[context].buffered(),
                ) is Some)
                &&& (r is Ok ==> final(self).sessions()[context].outputs() == spec_run(
                    old(self).sessions()[context].encoding,
                    old(self).sessions()[context].model@,
                    old(self).sessions()[context].buffered(),
                ))
                &&& (r == Err::<(), InferenceError>(InferenceError::OnnxError) <==> old(
                    self,
                ).sessions()[context].outputs() is None && spec_run(
                    old(self).sessions()[context].encoding,
                    old(self).sessions()[context].model@,
                    old(self).sessions()[context].buffered(),
                ) is None)
            },
    {
        let ghost old_smap = self.state.executions@;
        let new_sess = {
            let sess = match self.state.executions.get(context) {
                Some(s) => s,
                None => {
                    return Err(InferenceError::ContextNotFound);
                },
            };
            if sess.output_tensors.is_some() {
                return Err(InferenceError::RuntimeError);
            }
            let empty: Vec<TensorData> = Vec::new();
            let ins: &Vec<TensorData> = match &sess.input_tensors {
                Some(v) => v,
                None => &empty,
            };
            proof {
                assert(views_of(ins@) =~= old_smap[context].buffered());
            }
            let out_opt = if matches!(sess.encoding, GraphEncoding::Onnx) {
                run_onnx(sess.model.as_slice(), ins)
            } else {
                run_tensorflow(sess.model.as_slice(), ins)
            };
            match out_opt {
                None => {
                    return Err(InferenceError::OnnxError);
                },
                Some(outs) => TractSession {
                    model: sess.model.clone(),
                    encoding: sess.encoding,
                    input_tensors: None,
                    output_tensors: Some(outs),
                },
            }
        };
        let ghost gsess = new_sess;
        let _ = self.state.executions.update_value(context, new_sess);
        proof {
            assert forall|c2: u32| self.sessions().contains_key(c2) implies (
            #[trigger] self.sessions()[c2]).wf() by {
                if c2 != context {
                    assert(old_smap[c2].wf());
                } else {
                    assert(self.sessions()[c2] == gsess);
                }
            }
        }
        Ok(())
    }

    /// Hands out one output tensor of the last compute, dimensions and
    /// float-encoded bytes.  Fails when the session handle is unknown, when
    /// nothing was computed yet, when the index is out of range, or when an
    /// output dimension does not fit the wire width.
    #[verifier::loop_isolation(false)]
    pub fn get_output(&self, context: GraphExecutionContext, index: u32) -> (r: InferenceResult<
        Tensor,
    >)
        requires
            self.wf(),
        ensures
            r is Ok <==> (self.sessions().contains_key(context)
                && self.sessions()[context].outputs() is Some && (index as int)
                < self.sessions()[context].outputs().unwrap().len() && (forall|j: int|
                0 <= j < self.sessions()[context].outputs().unwrap()[index as int].dims.len()
                    ==> #[trigger] self.sessions()[context].outputs().unwrap()[
                    index as int
                ].dims[j] <= u32::MAX)),
            match r {
                Ok(t) => {
                    &&& self.sessions().contains_key(context)
                    &&& self.sessions()[context].outputs() is Some
                    &&& (index as int) < self.sessions()[context].outputs().unwrap().len()
                    &&& t.tensor_type.ttype == TENSOR_TYPE_F32
                    &&& widen_dims(t.dimensions@) == self.sessions()[context].outputs().unwrap()[
                        index as int
                    ].dims
                    &&& t.data@ == self.sessions()[context].outputs().unwrap()[index as int].data
                },
                Err(e) => {
                    &&& (e == InferenceError::ContextNotFound || e == InferenceError::RuntimeError)
                    &&& (e == InferenceError::ContextNotFound <==> !self.sessions().contains_key(
                        context,
                    ))
                    &&& (e == InferenceError::RuntimeError <==> self.sessions().contains_key(
                        context,
                    ) && (self.sessions()[context].outputs() is None || (
                    self.sessions()[context].outputs() is Some && ((index as int)
                        >= self.sessions()[context].outputs().unwrap().len() || exists|j: int|
                        0 <= j < self.sessions()[context].outputs().unwrap()[index as int].dims.len()
                            && #[trigger] self.sessions()[context].outputs().unwrap()[
                            index as int
                        ].dims[j] > u32::MAX))))
                },
            },
    {
        let sess = match self.state.executions.get(context) {
            Some(s) => s,
            None => {
                return Err(InferenceError::ContextNotFound);
            },
        };
        let outs = match &sess.output_tensors {
            Some(v) => v,
            None => {
                return Err(InferenceError::RuntimeError);
            },
        };
        if (index as usize) >= outs.len() {
            return Err(InferenceError::RuntimeError);
        }
        let td = &outs[index as usize];
        proof {
            assert(self.sessions()[context].outputs() == Some(views_of(outs@)));
            assert(td@ == views_of(outs@)[index as int]);
        }
        let mut dims32: Vec<u32> = Vec::new();
        let mut i: usize = 0;
        while i < td.dims.len()
            invariant
                i <= td.dims@.len(),
                dims32@.len() == i,
                forall|j: int| 0 <= j < i ==> dims32@[j] as usize == td.dims@[j],
            decreases td.dims@.len() - i,
        {
            let d = td.dims[i];
            if d > u32::MAX as usize {
                proof {
                    assert(self.sessions()[context].outputs().unwrap()[index as int].dims[i as int]
                        > u32::MAX);
                }
                return Err(InferenceError::RuntimeError);
            }
            dims32.push(d as u32);
            i = i + 1;
        }
        proof {
            assert(widen_dims(dims32@) =~= td.dims@);
        }
        Ok(
            Tensor {
                tensor_type: TensorType { ttype: TENSOR_TYPE_F32 },
                dimensions: dims32,
                data: td.data.clone(),
            },
        )
    }

    /// Best-effort removal of a graph and a session from the model state:
    /// removes exactly the targeted handles, leaves every other entry
    /// intact, and never fails; an absent handle is a no-op.
    pub fn drop_model_state(&mut self, graph: &Graph, gec: &GraphExecutionContext)
        requires
            old(self).wf(),
        ensures
            final(self).wf(),
            final(self).models() == old(self).models().remove(*graph),
            final(self).sessions() == old(self).sessions().remove(*gec),
    {
        let ghost old_models = self.state.models@;
        let ghost old_sessions = self.state.executions@;
        let taken_model = self.state.models.take(*graph);
        let taken_sess = self.state.executions.take(*gec);
        proof {
            if taken_model is None {
                assert(self.state.models@ =~= old_models.remove(*graph));
            }
            if taken_sess is None {
                assert(self.state.executions@ =~= old_sessions.remove(*gec));
            }
        }
    }
}

} // verus!
