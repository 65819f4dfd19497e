//! MLC-LLM: not supported yet.
use vstd::prelude::*;

use crate::llm_backend::{CommandSpec, LLMError, LLMResult, RunConfig};

verus! {

#[derive(Debug, Clone)]
pub struct MlcBackend {
    pub binary: String,
}

impl Default for MlcBackend {
    fn default() -> (r: Self)
        ensures
            r.binary@ == "mlc_llm"@,
    {
        MlcBackend { binary: String::from_str("mlc_llm") }
    }
}

impl MlcBackend {
    /// Always refuses: this backend has no command line yet.
    pub fn build_command(&self, config: &RunConfig) -> (r: LLMResult<CommandSpec>)
        ensures
            r matches Err(LLMError::UnsupportedOperation(msg)) && msg@
                == "MLC-LLM backend is not implemented yet"@,
    {
        Err(LLMError::UnsupportedOperation("MLC-LLM backend is not implemented yet"))
    }
}

} // verus!
