//! `llama-cli` command lines.
use vstd::prelude::*;

use crate::backends::args::{opt_num_flag, opt_text_flag, push_num_flag, push_str, push_text_flag};
use crate::llm_backend::{
    extend_strings, strs_view, CommandSpec, LLMError, LLMResult, RunConfig, RunConfigView,
};

verus! {

#[derive(Debug, Clone)]
pub struct LlamaCppBackend {
    pub binary: String,
}

impl Default for LlamaCppBackend {
    fn default() -> (r: Self)
        ensures
            r.binary@ == "llama-cli"@,
    {
        LlamaCppBackend { binary: String::from_str("llama-cli") }
    }
}

/// The arguments for `llama-cli`: the model, then the set options in a fixed order,
/// then the extra arguments.
pub open spec fn llama_args(c: RunConfigView, model: Seq<char>) -> Seq<Seq<char>> {
    seq!["-m"@, model] + opt_num_flag("-n"@, c.max_tokens) + opt_num_flag(
        "-c"@,
        c.context_length,
    ) + opt_num_flag("--threads"@, c.threads) + opt_num_flag("--gpu-layers"@, c.gpu_layers)
        + opt_text_flag("--cache-type-k"@, c.cache_type_k) + opt_text_flag(
        "--cache-type-v"@,
        c.cache_type_v,
    ) + c.extra_args
}

impl LlamaCppBackend {
    pub fn build_command(&self, config: &RunConfig) -> (r: LLMResult<CommandSpec>)
        ensures
            match config@.model {
                None => r matches Err(LLMError::MissingModel { runtime }) && runtime@
                    == "llama.cpp"@,
                Some(m) => r matches Ok(spec) && spec@.program == self.binary@ && spec@.args
                    == llama_args(config@, m) && spec@.env.len() == 0,
            },
    {
        let model = match &config.model {
            Some(m) => m,
            None => {
                return Err(LLMError::MissingModel { runtime: "llama.cpp" });
            },
        };
        let mut args: Vec<String> = Vec::new();
        push_str(&mut args, "-m");
        push_str(&mut args, model.as_str());
        push_num_flag(&mut args, "-n", config.max_tokens);
        push_num_flag(&mut args, "-c", config.context_length);
        push_num_flag(&mut args, "--threads", config.threads);
        push_num_flag(&mut args, "--gpu-layers", config.gpu_layers);
        push_text_flag(&mut args, "--cache-type-k", &config.cache_type_k);
        push_text_flag(&mut args, "--cache-type-v", &config.cache_type_v);
        extend_strings(&mut args, &config.extra_args);
        assert(strs_view(args@) =~= llama_args(config@, model@));
        Ok(CommandSpec { program: self.binary.clone(), args, env: Vec::new() })
    }
}

} // verus!
