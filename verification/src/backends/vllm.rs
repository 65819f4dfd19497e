//! vLLM OpenAI-compatible server command lines.
use vstd::prelude::*;

use crate::backends::args::{opt_num_flag, push_num_flag, push_str};
use crate::llm_backend::{
    extend_strings, strs_view, CommandSpec, LLMError, LLMResult, RunConfig, RunConfigView,
};
use crate::text::{trim, trimmed};

verus! {

#[derive(Debug, Clone)]
pub struct VllmBackend {
    pub binary: String,
}

impl Default for VllmBackend {
    fn default() -> (r: Self)
        ensures
            r.binary@ == "python"@,
    {
        VllmBackend { binary: String::from_str("python") }
    }
}

/// `--quantization <q>` when a quantization is set and not blank.
pub open spec fn quantization_flag(q: Option<Seq<char>>) -> Seq<Seq<char>> {
    match q {
        Some(t) => if trim(t).len() > 0 {
            seq!["--quantization"@, t]
        } else {
            Seq::empty()
        },
        None => Seq::empty(),
    }
}

/// The arguments for the vLLM server: the module and model, the maximum model
/// length (the explicit one, else the context length), the maximum number of
/// sequences, the quantization, then the extra arguments.
pub open spec fn vllm_args(c: RunConfigView, model: Seq<char>) -> Seq<Seq<char>> {
    seq!["-m"@, "vllm.entrypoints.openai.api_server"@, "--model"@, model] + opt_num_flag(
        "--max-model-len"@,
        if c.max_model_len is Some {
            c.max_model_len
        } else {
            c.context_length
        },
    ) + opt_num_flag("--max-num-seqs"@, c.max_num_seqs) + quantization_flag(c.quantization)
        + c.extra_args
}

impl VllmBackend {
    pub fn build_command(&self, config: &RunConfig) -> (r: LLMResult<CommandSpec>)
        ensures
            match config@.model {
                None => r matches Err(LLMError::MissingModel { runtime }) && runtime@ == "vllm"@,
                Some(m) => r matches Ok(spec) && spec@.program == self.binary@ && spec@.args
                    == vllm_args(config@, m) && spec@.env.len() == 0,
            },
    {
        let model = match &config.model {
            Some(m) => m,
            None => {
                return Err(LLMError::MissingModel { runtime: "vllm" });
            },
        };
        let mut args: Vec<String> = Vec::new();
        push_str(&mut args, "-m");
        push_str(&mut args, "vllm.entrypoints.openai.api_server");
        push_str(&mut args, "--model");
        push_str(&mut args, model.as_str());
        let max_model_len = match config.max_model_len {
            Some(n) => Some(n),
            None => config.context_length,
        };
        push_num_flag(&mut args, "--max-model-len", max_model_len);
        push_num_flag(&mut args, "--max-num-seqs", config.max_num_seqs);
        let ghost before_q = args@;
        if let Some(q) = &config.quantization {
            let t = trimmed(q.as_str());
            if t.as_str().unicode_len() > 0 {
                push_str(&mut args, "--quantization");
                push_str(&mut args, q.as_str());
            }
        }
        assert(strs_view(args@) =~= strs_view(before_q) + quantization_flag(config@.quantization));
        extend_strings(&mut args, &config.extra_args);
        assert(strs_view(args@) =~= vllm_args(config@, model@));
        Ok(CommandSpec { program: self.binary.clone(), args, env: Vec::new() })
    }
}

} // verus!
