//! Verified core of an inference-serving provider.
//!
//! Given a named, pre-loaded model and an input tensor, the library executes a
//! forward pass through a native inference runtime and returns the output
//! tensor, while managing the lifecycle of loaded models and their execution
//! sessions for many connected callers.  The tensor codec, the model/session
//! state machine, the engine registry, the per-caller model zoo and the
//! predict pipeline are verified; the native runtime itself (tract) is called
//! through a small set of trusted wrappers.
use vstd::prelude::*;

pub mod codec;
pub mod handle_map;
pub mod inference;
pub mod mlinference;
pub mod provider;
pub mod registry;
pub mod settings;
pub mod str_map;
pub mod tensor;
pub mod engine;
pub mod tract;

verus! {

/// Location of a model artifact in the artifact store.
pub type BindlePath = String;

/// Name under which a caller addresses a model.
pub type ModelName = String;

} // verus!
