//! The provider: per-caller model zoos, the engine registry and the predict
//! pipeline.
//!
//! A caller attaches with a set of named models, each fetched from the
//! artifact store and loaded into an engine; it then issues predicts, which
//! resolve the model's session and drive set-input, compute and get-output,
//! returning a uniform result envelope and never a hard fault.
use crate::engine::{encoding_supported, spec_deterministic, spec_parses, spec_run, TractEngine};
use crate::inference::{
    ExecutionTarget, Graph, GraphEncoding, GraphExecutionContext, InferenceError,
};
use crate::mlinference::{error_result, get_valid_status, InferenceOutput, InferenceRequest};
use crate::registry::{framework_of, spec_framework_of, EngineRegistry, InferenceFramework};
use crate::settings::ModelDefinition;
use crate::str_map::StrMap;
use crate::tensor::{widen_dims, Tensor, TensorDataView, TensorType, TENSOR_TYPE_F32};
use crate::BindlePath;
use vstd::prelude::*;
use vstd::string::StringExecFns;

verus! {

/// The encoding a descriptor names, if it is a known one.
pub open spec fn spec_encoding_of(s: Seq<char>) -> Option<GraphEncoding> {
    if s == "onnx"@ {
        Some(GraphEncoding::Onnx)
    } else if s == "tensorflow"@ {
        Some(GraphEncoding::Tensorflow)
    } else if s == "tflite"@ {
        Some(GraphEncoding::TfLite)
    } else if s == "openvino"@ {
        Some(GraphEncoding::OpenVino)
    } else {
        None
    }
}

/// The execution target a descriptor names, if it is a known one.
pub open spec fn spec_target_of(s: Seq<char>) -> Option<ExecutionTarget> {
    if s == "cpu"@ {
        Some(ExecutionTarget::Cpu)
    } else if s == "gpu"@ {
        Some(ExecutionTarget::Gpu)
    } else if s == "tpu"@ {
        Some(ExecutionTarget::Tpu)
    } else {
        None
    }
}

/// The element type a descriptor names; only 32-bit floats are served, and
/// an empty field defaults to them.
pub open spec fn spec_ttype_of(s: Seq<char>) -> Option<u8> {
    if s == "f32"@ || s.len() == 0 {
        Some(TENSOR_TYPE_F32)
    } else {
        None
    }
}

/// Per-caller, per-model record: artifact location, declared encoding and
/// target, and the engine handles once loading succeeds.
#[derive(Clone, Debug)]
pub struct ModelContext {
    pub bindle_url: BindlePath,
    pub graph_encoding: GraphEncoding,
    pub execution_target: ExecutionTarget,
    pub tensor_type: TensorType,
    pub graph: Option<Graph>,
    pub graph_execution_context: Option<GraphExecutionContext>,
}

impl ModelContext {
    /// A context that knows its artifact location and nothing else yet.
    pub fn with_url(bindle_url: BindlePath) -> (r: Self)
        ensures
            r.bindle_url@ == bindle_url@,
            r.graph_encoding == GraphEncoding::Onnx,
            r.execution_target == ExecutionTarget::Cpu,
            r.graph is None,
            r.graph_execution_context is None,
    {
        ModelContext {
            bindle_url,
            graph_encoding: GraphEncoding::Onnx,
            execution_target: ExecutionTarget::Cpu,
            tensor_type: TensorType { ttype: TENSOR_TYPE_F32 },
            graph: None,
            graph_execution_context: None,
        }
    }

    /// Applies a fetched descriptor: parses the declared encoding, target
    /// and element type into this context.  On an unknown field value the
    /// context is left unchanged.
    pub fn load_metadata(&mut self, metadata: &ModelDefinition) -> (r: Result<(), InferenceError>)
        ensures
            r is Ok <==> (spec_encoding_of(metadata.graph_encoding@) is Some && spec_target_of(
                metadata.execution_target@,
            ) is Some && spec_ttype_of(metadata.tensor_type@) is Some),
            match r {
                Ok(_) => {
                    &&& spec_encoding_of(metadata.graph_encoding@) is Some
                    &&& spec_target_of(metadata.execution_target@) is Some
                    &&& spec_ttype_of(metadata.tensor_type@) is Some
                    &&& final(self).graph_encoding == spec_encoding_of(
                        metadata.graph_encoding@,
                    ).unwrap()
                    &&& final(self).execution_target == spec_target_of(
                        metadata.execution_target@,
                    ).unwrap()
                    &&& final(self).tensor_type.ttype == spec_ttype_of(
                        metadata.tensor_type@,
                    ).unwrap()
                    &&& final(self).bindle_url == old(self).bindle_url
                    &&& final(self).graph == old(self).graph
                    &&& final(self).graph_execution_context == old(self).graph_execution_context
                },
                Err(e) => {
                    &&& *final(self) == *old(self)
                    &&& (e == InferenceError::InvalidEncodingError <==> spec_encoding_of(
                        metadata.graph_encoding@,
                    ) is None)
                    &&& (e == InferenceError::UnsupportedExecutionTarget <==> spec_encoding_of(
                        metadata.graph_encoding@,
                    ) is Some && spec_target_of(metadata.execution_target@) is None)
                    &&& (e == InferenceError::InvalidParameter <==> spec_encoding_of(
                        metadata.graph_encoding@,
                    ) is Some && spec_target_of(metadata.execution_target@) is Some
                        && spec_ttype_of(metadata.tensor_type@) is None)
                },
            },
    {
        let enc = if metadata.graph_encoding == String::from_str("onnx") {
            GraphEncoding::Onnx
        } else if metadata.graph_encoding == String::from_str("tensorflow") {
            GraphEncoding::Tensorflow
        } else if metadata.graph_encoding == String::from_str("tflite") {
            GraphEncoding::TfLite
        } else if metadata.graph_encoding == String::from_str("openvino") {
            GraphEncoding::OpenVino
        } else {
            return Err(InferenceError::InvalidEncodingError);
        };
        let target = if metadata.execution_target == String::from_str("cpu") {
            ExecutionTarget::Cpu
        } else if metadata.execution_target == String::from_str("gpu") {
            ExecutionTarget::Gpu
        } else if metadata.execution_target == String::from_str("tpu") {
            ExecutionTarget::Tpu
        } else {
            return Err(InferenceError::UnsupportedExecutionTarget);
        };
        let ttype = if metadata.tensor_type == String::from_str("f32")
            || metadata.tensor_type.as_str().is_empty() {
            TENSOR_TYPE_F32
        } else {
            return Err(InferenceError::InvalidParameter);
        };
        self.graph_encoding = enc;
        self.execution_target = target;
        self.tensor_type = TensorType { ttype };
        Ok(())
    }
}

/// Per-caller mapping from model name to its context.
pub type ModelZoo = StrMap<ModelContext>;

/// One model as fetched for a caller at attach time: its name, its artifact
/// location, its descriptor and its raw bytes.
#[derive(Clone, Debug)]
pub struct FetchedModel {
    pub model_name: String,
    pub bindle_url: BindlePath,
    pub metadata: ModelDefinition,
    pub model_data: Vec<u8>,
}

/// Every context of a zoo holds either both engine handles or neither:
/// what attach installs, and what detach counts on.
pub open spec fn zoo_handles_paired(z: ModelZoo) -> bool {
    forall|n: Seq<char>|
        z@.contains_key(n) ==> ((#[trigger] z@[n]).graph is Some <==> z@[
            n
        ].graph_execution_context is Some)
}

/// Whether an engine holds no trace of a context's handles: what detach
/// leaves behind for one model.  A context that never got its handles has
/// nothing to leave behind.
pub open spec fn spec_model_state_dropped(ctx: ModelContext, e: TractEngine) -> bool {
    match (ctx.graph, ctx.graph_execution_context) {
        (Some(g), Some(c)) => !e.models().contains_key(g) && !e.sessions().contains_key(c),
        _ => true,
    }
}

/// The provider: the caller registry and the engine registry.
pub struct MlInferenceProvider {
    pub actors: StrMap<ModelZoo>,
    pub engines: EngineRegistry,
}

/// The engine-tensor view of a wire tensor.
pub open spec fn request_view(t: Tensor) -> TensorDataView {
    TensorDataView { dims: widen_dims(t.dimensions@), data: t.data@ }
}

/// What a predict call returns, as a function of the provider state it
/// finds: either the view of the output tensor, or the error kind carried
/// in the envelope.  The caller, its zoo, the model, its session handle and
/// its engine are resolved in turn; then the engine runs set-input, compute
/// and get-output against the session.  This pins the whole call exactly
/// when the addressed model is one the runtime computes as a pure function
/// (`spec_predict_deterministic`); the checks before the run are exact for
/// every call (`spec_predict_prefix`).
pub open spec fn spec_predict_outcome(
    p: MlInferenceProvider,
    actor: Option<String>,
    arg: InferenceRequest,
) -> Result<TensorDataView, InferenceError> {
    if actor is None {
        Err(InferenceError::RuntimeError)
    } else if !p.actors@.contains_key(actor.unwrap()@) {
        Err(InferenceError::ContextNotFound)
    } else if !p.actors@[actor.unwrap()@]@.contains_key(arg.model@) {
        Err(InferenceError::ContextNotFound)
    } else {
        let ctx = p.actors@[actor.unwrap()@]@[arg.model@];
        if ctx.graph_execution_context is None {
            Err(InferenceError::ContextNotFound)
        } else {
            match spec_framework_of(ctx.graph_encoding) {
                None => Err(InferenceError::NotImplemented),
                Some(InferenceFramework::TfLite) => Err(InferenceError::InvalidParameter),
                Some(InferenceFramework::Tract) => {
                    if p.engines.tract is None {
                        Err(InferenceError::InvalidParameter)
                    } else {
                        spec_engine_outcome(
                            p.engines.tract.unwrap(),
                            ctx.graph_execution_context.unwrap(),
                            arg,
                        )
                    }
                },
            }
        }
    }
}

/// The session handle a predict call addresses, when it resolves one: the
/// caller, model, readiness, framework and engine checks all pass.  A call
/// that resolves no session touches no engine state at all.
pub open spec fn spec_predict_target(
    p: MlInferenceProvider,
    actor: Option<String>,
    arg: InferenceRequest,
) -> Option<GraphExecutionContext> {
    if actor is None {
        None
    } else if !p.actors@.contains_key(actor.unwrap()@) {
        None
    } else if !p.actors@[actor.unwrap()@]@.contains_key(arg.model@) {
        None
    } else {
        let ctx = p.actors@[actor.unwrap()@]@[arg.model@];
        if ctx.graph_execution_context is None {
            None
        } else if spec_framework_of(ctx.graph_encoding) == Some(InferenceFramework::Tract)
            && p.engines.tract is Some {
            ctx.graph_execution_context
        } else {
            None
        }
    }
}

/// The engine's part of a predict: what set-input, compute and get-output
/// yield against one session, exact for models the runtime computes as a
/// pure function.
pub open spec fn spec_engine_outcome(
    e: TractEngine,
    c: GraphExecutionContext,
    arg: InferenceRequest,
) -> Result<TensorDataView, InferenceError> {
    if !e.sessions().contains_key(c) {
        Err(InferenceError::ContextNotFound)
    } else if !arg.tensor.spec_coherent() {
        Err(InferenceError::CorruptInputTensor)
    } else {
        let sess = e.sessions()[c];
        if sess.outputs() is Some {
            Err(InferenceError::RuntimeError)
        } else {
            match spec_run(
                sess.encoding,
                sess.model@,
                sess.buffered().push(request_view(arg.tensor)),
            ) {
                None => Err(InferenceError::OnnxError),
                Some(outs) => {
                    if arg.index as int >= outs.len() {
                        Err(InferenceError::RuntimeError)
                    } else if exists|j: int|
                        0 <= j < outs[arg.index as int].dims.len() && #[trigger] outs[
                            arg.index as int
                        ].dims[j] > u32::MAX {
                        Err(InferenceError::RuntimeError)
                    } else {
                        Ok(outs[arg.index as int])
                    }
                },
            }
        }
    }
}

/// The deterministic prelude of a predict call: every check before the
/// native run.  `Err` carries the envelope error the call returns without
/// running anything; `Ok` carries the addressed session's handle, meaning
/// the run is reached and its outcome decides the rest.
pub open spec fn spec_predict_prefix(
    p: MlInferenceProvider,
    actor: Option<String>,
    arg: InferenceRequest,
) -> Result<GraphExecutionContext, InferenceError> {
    if actor is None {
        Err(InferenceError::RuntimeError)
    } else if !p.actors@.contains_key(actor.unwrap()@) {
        Err(InferenceError::ContextNotFound)
    } else if !p.actors@[actor.unwrap()@]@.contains_key(arg.model@) {
        Err(InferenceError::ContextNotFound)
    } else {
        let ctx = p.actors@[actor.unwrap()@]@[arg.model@];
        if ctx.graph_execution_context is None {
            Err(InferenceError::ContextNotFound)
        } else {
            match spec_framework_of(ctx.graph_encoding) {
                None => Err(InferenceError::NotImplemented),
                Some(InferenceFramework::TfLite) => Err(InferenceError::InvalidParameter),
                Some(InferenceFramework::Tract) => {
                    if p.engines.tract is None {
                        Err(InferenceError::InvalidParameter)
                    } else {
                        let c = ctx.graph_execution_context.unwrap();
                        let e = p.engines.tract.unwrap();
                        if !e.sessions().contains_key(c) {
                            Err(InferenceError::ContextNotFound)
                        } else if !arg.tensor.spec_coherent() {
                            Err(InferenceError::CorruptInputTensor)
                        } else if e.sessions()[c].outputs() is Some {
                            Err(InferenceError::RuntimeError)
                        } else {
                            Ok(c)
                        }
                    }
                },
            }
        }
    }
}

/// Whether the model a predict call addresses, when it reaches the run, is
/// one the runtime computes as a pure function; a call that stops earlier
/// is exact regardless.
pub open spec fn spec_predict_deterministic(
    p: MlInferenceProvider,
    actor: Option<String>,
    arg: InferenceRequest,
) -> bool {
    match spec_predict_prefix(p, actor, arg) {
        Ok(c) => spec_deterministic(
            p.engines.tract.unwrap().sessions()[c].encoding,
            p.engines.tract.unwrap().sessions()[c].model@,
        ),
        Err(_) => true,
    }
}

/// A fetched model whose descriptor and bytes are in order: a served
/// encoding, the CPU target, a served element type, and bytes that parse
/// under the declared encoding.
pub open spec fn spec_model_well_described(m: FetchedModel) -> bool {
    &&& spec_encoding_of(m.metadata.graph_encoding@) is Some
    &&& encoding_supported(spec_encoding_of(m.metadata.graph_encoding@).unwrap())
    &&& spec_target_of(m.metadata.execution_target@) == Some(ExecutionTarget::Cpu)
    &&& spec_ttype_of(m.metadata.tensor_type@) is Some
    &&& spec_parses(spec_encoding_of(m.metadata.graph_encoding@).unwrap(), m.model_data@)
}

/// The conditions under which loading a fetched model cannot fail: its
/// descriptor and bytes are in order, and the engine (when one exists
/// already) has handles left to allocate.
pub open spec fn spec_load_must_succeed(tract: Option<TractEngine>, m: FetchedModel) -> bool {
    &&& spec_model_well_described(m)
    &&& match tract {
        Some(e) => e.state.models.can_allocate() && e.state.executions.can_allocate(),
        None => true,
    }
}

/// Whether `n` more graph and session allocations can follow on this
/// engine slot; a slot with no engine yet starts from empty arenas.
pub open spec fn tract_headroom(tract: Option<TractEngine>, n: nat) -> bool {
    match tract {
        Some(e) => e.state.models.headroom(n) && e.state.executions.headroom(n),
        None => n <= u32::MAX,
    }
}

/// The conditions under which every model of a batch must load: each
/// descriptor and its bytes are in order, and the engine slot has handle
/// room for the whole batch.
pub open spec fn spec_batch_must_succeed(tract: Option<TractEngine>, ms: Seq<FetchedModel>) -> bool {
    &&& forall|j: int| 0 <= j < ms.len() ==> spec_model_well_described(#[trigger] ms[j])
    &&& tract_headroom(tract, ms.len())
}

/// Whether entry `j` is the batch's final word on its model name: no
/// later entry names the same model.
pub open spec fn spec_last_of_name(ms: Seq<FetchedModel>, j: int) -> bool {
    forall|j2: int| j < j2 < ms.len() ==> (#[trigger] ms[j2]).model_name@ != ms[j].model_name@
}

/// Loading never disturbs what an engine already holds: every session and
/// every model present before is present after, unchanged.
pub open spec fn engine_content_preserved(e0: TractEngine, e1: TractEngine) -> bool {
    &&& forall|c: u32|
        #[trigger] e0.sessions().contains_key(c) ==> e1.sessions().contains_key(c)
            && e1.sessions()[c] == e0.sessions()[c]
    &&& forall|g: u32|
        #[trigger] e0.models().contains_key(g) ==> e1.models().contains_key(g) && e1.models()[g]
            == e0.models()[g]
}

/// What attach promises of an installed context that carries handles: the
/// engine's session under its handle holds that model's bytes under the
/// declared encoding, with no inputs buffered and nothing computed, and
/// the graph handle holds the same bytes.
pub open spec fn spec_context_loaded(
    ctx: ModelContext,
    tract: Option<TractEngine>,
    ms: Seq<FetchedModel>,
    n: Seq<char>,
) -> bool {
    match (ctx.graph, ctx.graph_execution_context) {
        (Some(g), Some(c)) => {
            &&& tract is Some
            &&& tract.unwrap().sessions().contains_key(c)
            &&& tract.unwrap().sessions()[c].encoding == ctx.graph_encoding
            &&& tract.unwrap().sessions()[c].input_tensors is None
            &&& tract.unwrap().sessions()[c].output_tensors is None
            &&& tract.unwrap().models().contains_key(g)
            &&& exists|j: int|
                0 <= j < ms.len() && (#[trigger] ms[j]).model_name@ == n
                    && tract.unwrap().sessions()[c].model@ == ms[j].model_data@
                    && tract.unwrap().models()[g]@ == ms[j].model_data@ && Some(ctx.graph_encoding)
                    == spec_encoding_of(ms[j].metadata.graph_encoding@)
        },
        _ => true,
    }
}

impl MlInferenceProvider {
    /// Every registry well-formed: the caller map, each zoo, each engine.
    pub open spec fn wf(&self) -> bool {
        &&& self.actors.wf()
        &&& forall|a: Seq<char>|
            self.actors@.contains_key(a) ==> (#[trigger] self.actors@[a]).wf()
        &&& self.engines.wf()
    }

    /// A provider with no callers and no engines.
    pub fn new() -> (r: Self)
        ensures
            r.wf(),
            r.actors@ == Map::<Seq<char>, ModelZoo>::empty(),
            r.engines.tract is None,
    {
        MlInferenceProvider { actors: StrMap::new(), engines: EngineRegistry::new() }
    }

    /// Ensures an engine for the context's encoding exists, creating it on
    /// first need; each link definition may address a different framework.
    pub fn get_or_else_set_engine(&mut self, context: &ModelContext) -> (r: Result<
        (),
        InferenceError,
    >)
        requires
            old(self).wf(),
        ensures
            final(self).wf(),
            final(self).actors@ == old(self).actors@,
            final(self).actors.spec_entries() == old(self).actors.spec_entries(),
            r is Ok <==> spec_framework_of(context.graph_encoding) == Some(
                InferenceFramework::Tract,
            ),
            r is Ok ==> final(self).engines.tract is Some,
            r is Ok && old(self).engines.tract is Some ==> final(self).engines.tract == old(
                self,
            ).engines.tract,
            r is Ok && old(self).engines.tract is None ==> {
                &&& final(self).engines.tract.unwrap().models() == Map::<u32, Vec<u8>>::empty()
                &&& final(self).engines.tract.unwrap().sessions().dom() == Set::<u32>::empty()
                &&& final(self).engines.tract.unwrap().state.models.spec_entries().len() == 0
                &&& final(self).engines.tract.unwrap().state.executions.spec_entries().len() == 0
                &&& final(self).engines.tract.unwrap().state.models.spec_next() == 0
                &&& final(self).engines.tract.unwrap().state.executions.spec_next() == 0
            },
            r matches Err(e) ==> e == InferenceError::NotImplemented && final(self).engines.tract
                == old(self).engines.tract,
    {
        self.engines.resolve_or_create(&context.graph_encoding)
    }

    /// Handles the notification that a link is dropped: removes every piece
    /// of model state the caller's zoo addresses, then the zoo itself.
    #[verifier::loop_isolation(false)]
    pub fn delete_link(&mut self, actor_id: &String)
        requires
            old(self).wf(),
        ensures
            final(self).wf(),
            final(self).actors@ == old(self).actors@.remove(actor_id@),
            final(self).engines.tract is Some <==> old(self).engines.tract is Some,
            old(self).actors@.contains_key(actor_id@) && final(self).engines.tract is Some
                ==> forall|j: int|
                0 <= j < old(self).actors@[actor_id@].spec_entries().len()
                    ==> spec_model_state_dropped(
                    (#[trigger] old(self).actors@[actor_id@].spec_entries()[j]).1,
                    final(self).engines.tract.unwrap(),
                ),
    {
        let zoo_opt = self.actors.remove(actor_id);
        let ghost actors_after = self.actors@;
        match zoo_opt {
            None => {
                proof {
                    assert(self.actors@ =~= old(self).actors@.remove(actor_id@));
                }
            },
            Some(zoo) => {
                let n = zoo.len();
                let mut i: usize = 0;
                while i < n
                    invariant
                        i <= n,
                        self.actors@ == actors_after,
                        self.actors.wf(),
                        forall|a: Seq<char>|
                            self.actors@.contains_key(a) ==> (#[trigger] self.actors@[a]).wf(),
                        self.engines.wf(),
                        self.engines.tract is Some <==> old(self).engines.tract is Some,
                        self.engines.tract is Some ==> forall|j: int|
                            0 <= j < i ==> spec_model_state_dropped(
                                (#[trigger] zoo.spec_entries()[j]).1,
                                self.engines.tract.unwrap(),
                            ),
                    decreases n - i,
                {
                    let ctx = zoo.value_at(i);
                    match (ctx.graph, ctx.graph_execution_context) {
                        (Some(g), Some(c)) => {
                            match &mut self.engines.tract {
                                Some(e) => {
                                    e.drop_model_state(&g, &c);
                                },
                                None => {},
                            }
                        },
                        _ => {},
                    }
                    i = i + 1;
                }
            },
        }
    }

    /// Loads one fetched model into an engine: applies the descriptor,
    /// resolves or creates the engine, loads the bytes into a graph and
    /// builds a session.  A failure at any step aborts this model's loading
    /// only: the returned context then has no handles, and nothing loaded
    /// for it stays behind in the engine.
    fn load_one(engines: &mut EngineRegistry, m: &FetchedModel) -> (r: ModelContext)
        requires
            old(engines).wf(),
        ensures
            final(engines).wf(),
            r.bindle_url@ == m.bindle_url@,
            r.graph is Some <==> r.graph_execution_context is Some,
            final(engines).tract is None ==> old(engines).tract is None,
            match r.graph_execution_context {
                Some(c) => {
                    &&& final(engines).tract is Some
                    &&& final(engines).tract.unwrap().sessions().contains_key(c)
                    &&& final(engines).tract.unwrap().sessions()[c].model@ == m.model_data@
                    &&& final(engines).tract.unwrap().sessions()[c].input_tensors is None
                    &&& final(engines).tract.unwrap().sessions()[c].output_tensors is None
                    &&& final(engines).tract.unwrap().sessions()[c].encoding == r.graph_encoding
                    &&& Some(r.graph_encoding) == spec_encoding_of(m.metadata.graph_encoding@)
                    &&& r.graph matches Some(g) && final(engines).tract.unwrap().models().contains_key(
                        g,
                    ) && final(engines).tract.unwrap().models()[g]@ == m.model_data@
                },
                None => true,
            },
            spec_load_must_succeed(old(engines).tract, *m) ==> (r.graph_execution_context
                is Some),
            old(engines).tract is Some ==> final(engines).tract is Some
                && engine_content_preserved(
                old(engines).tract.unwrap(),
                final(engines).tract.unwrap(),
            ),
            forall|n: nat|
                n >= 1 && #[trigger] tract_headroom(old(engines).tract, n) ==> tract_headroom(
                    final(engines).tract,
                    (n - 1) as nat,
                ),
    {
        let ghost t0 = engines.tract;
        let mut ctx = ModelContext::with_url(m.bindle_url.clone());
        if ctx.load_metadata(&m.metadata).is_err() {
            return ctx;
        }
        if engines.resolve_or_create(&ctx.graph_encoding).is_err() {
            return ctx;
        }
        let eng = match &mut engines.tract {
            Some(e) => e,
            None => {
                return ctx;
            },
        };
        let ghost e0 = *eng;
        proof {
            assert forall|n: nat| #[trigger] tract_headroom(t0, n) implies e0.state.models.headroom(
                n,
            ) && e0.state.executions.headroom(n) by {
                if t0 is None {
                    assert(e0.state.models.spec_next() == 0);
                    assert(e0.state.executions.spec_next() == 0);
                }
            }
        }
        let g = match eng.load(m.model_data.as_slice()) {
            Ok(g) => g,
            Err(_) => {
                proof {
                    assert forall|n: nat|
                        n >= 1 && #[trigger] tract_headroom(t0, n) implies (
                        *eng).state.models.headroom((n - 1) as nat)
                            && (*eng).state.executions.headroom((n - 1) as nat) by {
                        assert(e0.state.models.headroom(n));
                        assert(e0.state.executions.headroom(n));
                    }
                }
                return ctx;
            },
        };
        let ghost e1 = *eng;
        match eng.init_execution_context(g, &ctx.execution_target, &ctx.graph_encoding) {
            Ok(c) => {
                ctx.graph = Some(g);
                ctx.graph_execution_context = Some(c);
                proof {
                    assert forall|n: nat|
                        n >= 1 && #[trigger] tract_headroom(t0, n) implies (
                        *eng).state.models.headroom((n - 1) as nat)
                            && (*eng).state.executions.headroom((n - 1) as nat) by {
                        assert(e0.state.models.headroom(n));
                        assert(e0.state.executions.headroom(n));
                        assert(e1.state.models.headroom((n - 1) as nat));
                        assert(e1.state.executions.headroom(n));
                        assert((*eng).state.models.spec_entries()
                            == e1.state.models.spec_entries());
                    }
                }
            },
            Err(_) => {
                // Leave nothing half-loaded behind: the graph was allocated
                // in this very call and no session refers to it.
                let ghost e2 = *eng;
                let _ = eng.state.models.take(g);
                proof {
                    assert forall|n: nat|
                        n >= 1 && #[trigger] tract_headroom(t0, n) implies (
                        *eng).state.models.headroom((n - 1) as nat)
                            && (*eng).state.executions.headroom((n - 1) as nat) by {
                        assert(e0.state.models.headroom(n));
                        assert(e0.state.executions.headroom(n));
                        assert(e1.state.models.headroom((n - 1) as nat));
                        assert(e2.state.models.headroom((n - 1) as nat));
                        assert((*eng).state.executions.spec_entries()
                            == e2.state.executions.spec_entries());
                    }
                }
            },
        }
        ctx
    }

    /// Builds and installs a caller's model zoo from its fetched models:
    /// one context per model, loaded into its engine, a failure aborting
    /// that model's loading only.  The zoo is installed in one step at the
    /// end, replacing any zoo the caller had.
    ///
    /// Every installed context that carries handles points at a live
    /// session of the engine holding that model's bytes under its declared
    /// encoding, with nothing buffered and nothing computed.  A model whose
    /// descriptor and bytes are in order receives its handles whenever the
    /// engine has handle room for the batch, whatever became of the other
    /// models; when the whole batch is in order, every entry is ready.
    #[verifier::loop_isolation(false)]
    pub fn put_link_sub(&mut self, actor_id: &String, models: &Vec<FetchedModel>)
        requires
            old(self).wf(),
        ensures
            final(self).wf(),
            final(self).actors@.contains_key(actor_id@),
            final(self).actors@ == old(self).actors@.insert(
                actor_id@,
                final(self).actors@[actor_id@],
            ),
            forall|n: Seq<char>|
                final(self).actors@[actor_id@]@.contains_key(n) <==> exists|j: int|
                    0 <= j < models@.len() && (#[trigger] models@[j]).model_name@ == n,
            zoo_handles_paired(final(self).actors@[actor_id@]),
            forall|n: Seq<char>|
                #[trigger] final(self).actors@[actor_id@]@.contains_key(n)
                    ==> spec_context_loaded(
                    final(self).actors@[actor_id@]@[n],
                    final(self).engines.tract,
                    models@,
                    n,
                ),
            spec_batch_must_succeed(old(self).engines.tract, models@) ==> forall|n: Seq<char>|
                #[trigger] final(self).actors@[actor_id@]@.contains_key(n) ==> final(
                self).actors@[actor_id@]@[n].graph_execution_context is Some,
            tract_headroom(old(self).engines.tract, models@.len()) ==> forall|j: int|
                0 <= j < models@.len() && spec_model_well_described(#[trigger] models@[j])
                    && spec_last_of_name(models@, j) ==> final(
                self).actors@[actor_id@]@.contains_key(models@[j].model_name@) && final(
                self).actors@[actor_id@]@[models@[j].model_name@].graph_execution_context is Some,
    {
        let ghost b0 = self.engines.tract;
        let mut zoo: ModelZoo = StrMap::new();
        let mut i: usize = 0;
        while i < models.len()
            invariant
                i <= models@.len(),
                zoo.wf(),
                self.actors == old(self).actors,
                self.engines.wf(),
                b0 == old(self).engines.tract,
                forall|n: Seq<char>|
                    zoo@.contains_key(n) <==> exists|j: int|
                        0 <= j < i && (#[trigger] models@[j]).model_name@ == n,
                zoo_handles_paired(zoo),
                forall|n: Seq<char>|
                    #[trigger] zoo@.contains_key(n) ==> spec_context_loaded(
                        zoo@[n],
                        self.engines.tract,
                        models@,
                        n,
                    ),
                tract_headroom(b0, models@.len()) ==> tract_headroom(
                    self.engines.tract,
                    (models@.len() - i) as nat,
                ),
                spec_batch_must_succeed(b0, models@) ==> forall|n: Seq<char>|
                    #[trigger] zoo@.contains_key(n) ==> zoo@[
                        n
                    ].graph_execution_context is Some,
                tract_headroom(b0, models@.len()) ==> forall|j: int|
                    0 <= j < i && spec_model_well_described(#[trigger] models@[j]) && (forall|
                        j2: int,
                    |
                        j < j2 < i ==> (#[trigger] models@[j2]).model_name@
                            != models@[j].model_name@) ==> zoo@.contains_key(
                        models@[j].model_name@,
                    ) && zoo@[models@[j].model_name@].graph_execution_context is Some,
            decreases models@.len() - i,
        {
            let m = &models[i];
            let ghost t_pre = self.engines.tract;
            proof {
                if tract_headroom(b0, models@.len()) && spec_model_well_described(
                    models@[i as int],
                ) {
                    assert(tract_headroom(t_pre, (models@.len() - i) as nat));
                    assert(spec_load_must_succeed(t_pre, models@[i as int]));
                }
                if spec_batch_must_succeed(b0, models@) {
                    assert(spec_model_well_described(models@[i as int]));
                }
            }
            let ctx = Self::load_one(&mut self.engines, m);
            let ghost gctx = ctx;
            zoo.insert(m.model_name.clone(), ctx);
            proof {
                assert forall|n: Seq<char>| zoo@.contains_key(n) implies exists|j: int|
                    0 <= j < i + 1 && (#[trigger] models@[j]).model_name@ == n by {
                    if n == models@[i as int].model_name@ {
                        assert(0 <= i < i + 1 && models@[i as int].model_name@ == n);
                    }
                }
                assert forall|n: Seq<char>| #[trigger] zoo@.contains_key(n) implies
                    spec_context_loaded(zoo@[n], self.engines.tract, models@, n) by {
                    if n == m.model_name@ {
                        assert(zoo@[n] == gctx);
                        if gctx.graph_execution_context is Some {
                            let c = gctx.graph_execution_context.unwrap();
                            assert(models@[i as int].model_name@ == n
                                && self.engines.tract.unwrap().sessions()[c].model@ == models@[
                                i as int
                            ].model_data@ && self.engines.tract.unwrap().models()[
                                gctx.graph.unwrap()
                            ]@ == models@[i as int].model_data@ && Some(gctx.graph_encoding)
                                == spec_encoding_of(models@[i as int].metadata.graph_encoding@));
                        }
                    } else {
                        assert(spec_context_loaded(zoo@[n], t_pre, models@, n));
                        match (zoo@[n].graph, zoo@[n].graph_execution_context) {
                            (Some(g2), Some(c2)) => {
                                assert(t_pre is Some);
                                assert(engine_content_preserved(
                                    t_pre.unwrap(),
                                    self.engines.tract.unwrap(),
                                ));
                                assert(t_pre.unwrap().sessions().contains_key(c2));
                                assert(t_pre.unwrap().models().contains_key(g2));
                            },
                            _ => {},
                        }
                    }
                }
                if tract_headroom(b0, models@.len()) {
                    assert(tract_headroom(self.engines.tract, (models@.len() - i - 1) as nat));
                    assert forall|j: int|
                        0 <= j < i + 1 && spec_model_well_described(#[trigger] models@[j]) && (
                        forall|j2: int|
                            j < j2 < i + 1 ==> (#[trigger] models@[j2]).model_name@ != models@[
                                j
                            ].model_name@) implies zoo@.contains_key(models@[j].model_name@)
                        && zoo@[models@[j].model_name@].graph_execution_context is Some by {
                        if j == i {
                            assert(zoo@[models@[j].model_name@] == gctx);
                        } else {
                            assert(models@[i as int].model_name@ != models@[j].model_name@);
                        }
                    }
                }
            }
            i = i + 1;
        }
        self.actors.insert(actor_id.clone(), zoo);
    }

    /// The predict entry point: resolves the caller's zoo, the model's
    /// session and its engine, drives set-input, compute and get-output,
    /// and returns a structured result envelope, never a hard fault.
    /// Every check before the native run is exact: `spec_predict_prefix`
    /// pins the envelope of every call that stops early, and the success
    /// envelope always carries the addressed session's stored output.
    /// When the addressed model is one the runtime computes as a pure
    /// function, the envelope is exactly `spec_predict_outcome`; every
    /// session other than the addressed one keeps its exact state.
    pub fn predict(&mut self, actor: &Option<String>, arg: &InferenceRequest) -> (r:
        InferenceOutput)
        requires
            old(self).wf(),
        ensures
            final(self).wf(),
            final(self).actors@ == old(self).actors@,
            final(self).actors.spec_entries() == old(self).actors.spec_entries(),
            final(self).engines.tract is Some <==> old(self).engines.tract is Some,
            old(self).engines.tract is Some ==> {
                &&& final(self).engines.tract.unwrap().models() == old(
                    self,
                ).engines.tract.unwrap().models()
                &&& forall|c2: u32|
                    final(self).engines.tract.unwrap().sessions().contains_key(c2) <==> old(
                        self,
                    ).engines.tract.unwrap().sessions().contains_key(c2)
                &&& forall|c2: u32|
                    (#[trigger] old(self).engines.tract.unwrap().sessions().contains_key(c2))
                        && Some(c2) != spec_predict_target(*old(self), *actor, *arg) ==> final(
                    self).engines.tract.unwrap().sessions()[c2] == old(
                        self,
                    ).engines.tract.unwrap().sessions()[c2]
            },
            spec_predict_deterministic(*old(self), *actor, *arg) ==> match spec_predict_outcome(
                *old(self),
                *actor,
                *arg,
            ) {
                Err(e) => {
                    &&& r.result.has_error == true
                    &&& r.result.error == Some(crate::mlinference::MlError { err: e.spec_code() })
                    &&& r.tensor.dimensions@.len() == 0
                    &&& r.tensor.data@.len() == 0
                },
                Ok(tv) => {
                    &&& r.result.has_error == false
                    &&& r.result.error is None
                    &&& r.tensor.tensor_type.ttype == TENSOR_TYPE_F32
                    &&& widen_dims(r.tensor.dimensions@) == tv.dims
                    &&& r.tensor.data@ == tv.data
                },
            },
            match spec_predict_prefix(*old(self), *actor, *arg) {
                Err(e) => {
                    &&& r.result.has_error == true
                    &&& r.result.error == Some(crate::mlinference::MlError { err: e.spec_code() })
                    &&& r.tensor.dimensions@.len() == 0
                    &&& r.tensor.data@.len() == 0
                },
                Ok(c) => {
                    &&& (r.result.has_error ==> {
                        &&& (r.result.error == Some(
                            crate::mlinference::MlError {
                                err: InferenceError::OnnxError.spec_code(),
                            },
                        ) || r.result.error == Some(
                            crate::mlinference::MlError {
                                err: InferenceError::RuntimeError.spec_code(),
                            },
                        ))
                        &&& r.tensor.dimensions@.len() == 0
                        &&& r.tensor.data@.len() == 0
                    })
                    &&& (!r.result.has_error ==> {
                        &&& r.result.error is None
                        &&& r.tensor.tensor_type.ttype == TENSOR_TYPE_F32
                        &&& final(self).engines.tract is Some
                        &&& final(self).engines.tract.unwrap().sessions().contains_key(c)
                        &&& final(self).engines.tract.unwrap().sessions()[c].outputs() is Some
                        &&& (arg.index as int) < final(
                        self).engines.tract.unwrap().sessions()[c].outputs().unwrap().len()
                        &&& widen_dims(r.tensor.dimensions@) == final(
                        self).engines.tract.unwrap().sessions()[c].outputs().unwrap()[
                            arg.index as int
                        ].dims
                        &&& r.tensor.data@ == final(
                        self).engines.tract.unwrap().sessions()[c].outputs().unwrap()[
                            arg.index as int
                        ].data
                    })
                },
            },
    {
        let a = match actor {
            Some(a) => a,
            None => {
                return error_result(InferenceError::RuntimeError);
            },
        };
        let (gec, enc) = {
            let zoo = match self.actors.get(a) {
                Some(z) => z,
                None => {
                    return error_result(InferenceError::ContextNotFound);
                },
            };
            let ctx = match zoo.get(&arg.model) {
                Some(c) => c,
                None => {
                    return error_result(InferenceError::ContextNotFound);
                },
            };
            let gec = match ctx.graph_execution_context {
                Some(c) => c,
                None => {
                    return error_result(InferenceError::ContextNotFound);
                },
            };
            (gec, ctx.graph_encoding)
        };
        match framework_of(&enc) {
            None => {
                return error_result(InferenceError::NotImplemented);
            },
            Some(InferenceFramework::TfLite) => {
                return error_result(InferenceError::InvalidParameter);
            },
            Some(InferenceFramework::Tract) => {},
        }
        let mut eng = match self.engines.tract.take() {
            Some(e) => e,
            None => {
                return error_result(InferenceError::InvalidParameter);
            },
        };
        match eng.set_input(gec, arg.index, &arg.tensor) {
            Err(e) => {
                self.engines.tract = Some(eng);
                return error_result(e);
            },
            Ok(_) => {},
        }
        match eng.compute(gec) {
            Err(e) => {
                self.engines.tract = Some(eng);
                return error_result(e);
            },
            Ok(_) => {},
        }
        let out = eng.get_output(gec, arg.index);
        self.engines.tract = Some(eng);
        match out {
            Err(e) => error_result(e),
            Ok(t) => InferenceOutput { result: get_valid_status(), tensor: t },
        }
    }
}

} // verus!
