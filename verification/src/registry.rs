//! Engine registry: one lazily created engine instance per inference
//! framework, keyed by the model's declared encoding.
//!
//! Different encodings require structurally different native runtimes; the
//! registry creates at most one engine per framework and hands the same
//! instance to every model of that framework.  Only the tract framework
//! (ONNX and TensorFlow) is built into this provider; TensorFlow Lite is a
//! known framework without a runtime here, and OpenVINO maps to no known
//! framework.
use crate::engine::TractEngine;
use crate::inference::{GraphEncoding, InferenceError};
use vstd::prelude::*;

verus! {

/// An integrated inference framework: a family of encodings served by one
/// native runtime.
#[derive(Clone, Copy, Debug, PartialEq, Eq, Structural)]
pub enum InferenceFramework {
    Tract,
    TfLite,
}

/// The framework serving an encoding, if any is known.
pub open spec fn spec_framework_of(enc: GraphEncoding) -> Option<InferenceFramework> {
    match enc {
        GraphEncoding::Onnx => Some(InferenceFramework::Tract),
        GraphEncoding::Tensorflow => Some(InferenceFramework::Tract),
        GraphEncoding::TfLite => Some(InferenceFramework::TfLite),
        GraphEncoding::OpenVino => None,
    }
}

/// The framework serving an encoding.
pub fn framework_of(enc: &GraphEncoding) -> (r: Option<InferenceFramework>)
    ensures
        r == spec_framework_of(*enc),
{
    match enc {
        GraphEncoding::Onnx => Some(InferenceFramework::Tract),
        GraphEncoding::Tensorflow => Some(InferenceFramework::Tract),
        GraphEncoding::TfLite => Some(InferenceFramework::TfLite),
        GraphEncoding::OpenVino => None,
    }
}

/// At most one engine instance per framework, created on first need.  The
/// tract slot is the only one a runtime exists for.
pub struct EngineRegistry {
    pub tract: Option<TractEngine>,
}

impl EngineRegistry {
    pub open spec fn wf(&self) -> bool {
        match self.tract {
            Some(e) => e.wf(),
            None => true,
        }
    }

    /// A registry with no engine created yet.
    pub fn new() -> (r: Self)
        ensures
            r.wf(),
            r.tract is None,
    {
        EngineRegistry { tract: None }
    }

    /// Ensures an engine serving the encoding exists, creating a fresh one
    /// on first need and reusing the existing instance afterwards.  Fails
    /// with `NotImplemented` when no runtime for the encoding is built in.
    pub fn resolve_or_create(&mut self, enc: &GraphEncoding) -> (r: Result<(), InferenceError>)
        requires
            old(self).wf(),
        ensures
            final(self).wf(),
            match r {
                Ok(_) => {
                    &&& spec_framework_of(*enc) == Some(InferenceFramework::Tract)
                    &&& final(self).tract is Some
                    &&& (old(self).tract is Some ==> final(self).tract == old(self).tract)
                    &&& (old(self).tract is None ==> {
                        &&& final(self).tract.unwrap().models() == Map::<u32, Vec<u8>>::empty()
                        &&& final(self).tract.unwrap().sessions().dom() == Set::<u32>::empty()
                        &&& final(self).tract.unwrap().state.models.spec_entries().len() == 0
                        &&& final(self).tract.unwrap().state.executions.spec_entries().len() == 0
                        &&& final(self).tract.unwrap().state.models.spec_next() == 0
                        &&& final(self).tract.unwrap().state.executions.spec_next() == 0
                    })
                },
                Err(e) => {
                    &&& e == InferenceError::NotImplemented
                    &&& spec_framework_of(*enc) != Some(InferenceFramework::Tract)
                    &&& final(self).tract == old(self).tract
                },
            },
    {
        match framework_of(enc) {
            Some(InferenceFramework::Tract) => {
                if self.tract.is_none() {
                    self.tract = Some(TractEngine::default());
                    proof {
                        assert(self.tract.unwrap().sessions().dom() =~= Set::<u32>::empty());
                    }
                }
                Ok(())
            },
            _ => Err(InferenceError::NotImplemented),
        }
    }

    /// Whether an engine serving the encoding has been created already: the
    /// read-only lookup of the predict path.
    pub fn has_engine(&self, enc: &GraphEncoding) -> (r: bool)
        ensures
            r == (spec_framework_of(*enc) == Some(InferenceFramework::Tract) && self.tract is Some),
    {
        match framework_of(enc) {
            Some(InferenceFramework::Tract) => self.tract.is_some(),
            _ => false,
        }
    }
}

} // verus!
