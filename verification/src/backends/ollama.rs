//! `ollama run` command lines.
use vstd::prelude::*;

use crate::backends::args::push_str;
use crate::llm_backend::{
    env_view, extend_strings, strs_view, CommandSpec, LLMError, LLMResult, RunConfig,
    RunConfigView,
};
use crate::ollama_config::{u32_param, ModelfileView, OllamaModelConfig};
use crate::text::{decimal, u64_to_string};

verus! {

#[derive(Debug, Clone)]
pub struct OllamaBackend {
    pub binary: String,
}

impl Default for OllamaBackend {
    fn default() -> (r: Self)
        ensures
            r.binary@ == "ollama"@,
    {
        OllamaBackend { binary: String::from_str("ollama") }
    }
}

/// The context length handed to Ollama: the configured one, else the Modelfile's
/// `num_ctx` when the model is a readable Modelfile.
pub open spec fn ollama_context(c: RunConfigView, modelfile: Option<ModelfileView>) -> Option<u32> {
    match c.context_length {
        Some(n) => Some(n),
        None => match modelfile {
            Some(m) => u32_param(m, "num_ctx"@),
            None => None,
        },
    }
}

/// The environment for `ollama run`: `OLLAMA_CONTEXT_LENGTH` when a context length
/// is known.
pub open spec fn ollama_env(ctx: Option<u32>) -> Seq<(Seq<char>, Seq<char>)> {
    match ctx {
        Some(n) => seq![("OLLAMA_CONTEXT_LENGTH"@, decimal(n as nat))],
        None => Seq::empty(),
    }
}

impl OllamaBackend {
    /// `modelfile` is the parsed Modelfile at the model path, when the model names
    /// a readable file.
    pub fn build_command(&self, config: &RunConfig, modelfile: Option<&OllamaModelConfig>) -> (r:
        LLMResult<CommandSpec>)
        ensures
            match config@.model {
                None => r matches Err(LLMError::MissingModel { runtime }) && runtime@ == "ollama"@,
                Some(m) => r matches Ok(spec) && spec@.program == self.binary@ && spec@.args == seq![
                    "run"@,
                    m,
                ] + config@.extra_args && spec@.env == ollama_env(
                    ollama_context(
                        config@,
                        match modelfile {
                            Some(mf) => Some(mf@),
                            None => None,
                        },
                    ),
                ),
            },
    {
        let model = match &config.model {
            Some(m) => m,
            None => {
                return Err(LLMError::MissingModel { runtime: "ollama" });
            },
        };
        let mut args: Vec<String> = Vec::new();
        push_str(&mut args, "run");
        push_str(&mut args, model.as_str());
        extend_strings(&mut args, &config.extra_args);
        assert(strs_view(args@) =~= seq!["run"@, model@] + config@.extra_args);
        let context_length = match config.context_length {
            Some(n) => Some(n),
            None => match modelfile {
                Some(mf) => mf.context_length(),
                None => None,
            },
        };
        let mut env: Vec<(String, String)> = Vec::new();
        if let Some(n) = context_length {
            env.push((String::from_str("OLLAMA_CONTEXT_LENGTH"), u64_to_string(n as u64)));
        }
        assert(env_view(env@) =~= ollama_env(context_length));
        Ok(CommandSpec { program: self.binary.clone(), args, env })
    }
}

} // verus!
