//! Shared runtime types: the run configuration, the command a backend builds, and
//! the runtime error type.
use vstd::prelude::*;

use crate::text::{concat3, decimal, push_decimal};

verus! {

/// The view of an optional string.
pub open spec fn opt_str_view(o: Option<String>) -> Option<Seq<char>> {
    match o {
        Some(s) => Some(s@),
        None => None,
    }
}

/// The view of a list of strings.
pub open spec fn strs_view(v: Seq<String>) -> Seq<Seq<char>> {
    v.map_values(|s: String| s@)
}

/// How one runtime invocation is configured.
#[derive(Debug, Clone)]
pub struct RunConfig {
    pub runtime: String,
    pub model: Option<String>,
    pub context_length: Option<u32>,
    pub max_tokens: Option<u32>,
    pub threads: Option<u32>,
    pub gpu_layers: Option<u32>,
    pub cache_type_k: Option<String>,
    pub cache_type_v: Option<String>,
    pub max_model_len: Option<u32>,
    pub max_num_seqs: Option<u32>,
    pub quantization: Option<String>,
    pub extra_args: Vec<String>,
}

/// The mathematical content of a [`RunConfig`].
pub ghost struct RunConfigView {
    pub runtime: Seq<char>,
    pub model: Option<Seq<char>>,
    pub context_length: Option<u32>,
    pub max_tokens: Option<u32>,
    pub threads: Option<u32>,
    pub gpu_layers: Option<u32>,
    pub cache_type_k: Option<Seq<char>>,
    pub cache_type_v: Option<Seq<char>>,
    pub max_model_len: Option<u32>,
    pub max_num_seqs: Option<u32>,
    pub quantization: Option<Seq<char>>,
    pub extra_args: Seq<Seq<char>>,
}

impl View for RunConfig {
    type V = RunConfigView;

    open spec fn view(&self) -> RunConfigView {
        RunConfigView {
            runtime: self.runtime@,
            model: opt_str_view(self.model),
            context_length: self.context_length,
            max_tokens: self.max_tokens,
            threads: self.threads,
            gpu_layers: self.gpu_layers,
            cache_type_k: opt_str_view(self.cache_type_k),
            cache_type_v: opt_str_view(self.cache_type_v),
            max_model_len: self.max_model_len,
            max_num_seqs: self.max_num_seqs,
            quantization: opt_str_view(self.quantization),
            extra_args: strs_view(self.extra_args@),
        }
    }
}

/// A copy of an optional string.
pub fn copy_opt_string(o: &Option<String>) -> (r: Option<String>)
    ensures
        opt_str_view(r) == opt_str_view(*o),
{
    match o {
        Some(s) => Some(s.clone()),
        None => None,
    }
}

/// A copy of a list of strings.
pub fn copy_strings(v: &Vec<String>) -> (r: Vec<String>)
    ensures
        strs_view(r@) == strs_view(v@),
{
    let mut out: Vec<String> = Vec::new();
    let mut i: usize = 0;
    while i < v.len()
        invariant
            i <= v@.len(),
            out@.len() == i,
            forall|k: int| 0 <= k < i ==> (#[trigger] out@[k])@ == v@[k]@,
        decreases v@.len() - i,
    {
        let c = v[i].clone();
        out.push(c);
        i = i + 1;
    }
    assert(strs_view(out@) =~= strs_view(v@));
    out
}

/// Appends copies of `src` to `dst`.
pub fn extend_strings(dst: &mut Vec<String>, src: &Vec<String>)
    ensures
        strs_view(final(dst)@) == strs_view(old(dst)@) + strs_view(src@),
{
    let ghost n0 = dst@.len();
    let mut i: usize = 0;
    while i < src.len()
        invariant
            i <= src@.len(),
            n0 == old(dst)@.len(),
            dst@.len() == n0 + i,
            forall|k: int| 0 <= k < n0 ==> (#[trigger] dst@[k])@ == old(dst)@[k]@,
            forall|k: int| 0 <= k < i ==> (#[trigger] dst@[n0 + k])@ == src@[k]@,
        decreases src@.len() - i,
    {
        let c = src[i].clone();
        dst.push(c);
        i = i + 1;
    }
    assert(strs_view(dst@) =~= strs_view(old(dst)@) + strs_view(src@)) by {
        assert forall|k: int| 0 <= k < dst@.len() implies (#[trigger] strs_view(dst@)[k]) == (
        strs_view(old(dst)@) + strs_view(src@))[k] by {
            if k >= n0 {
                assert(dst@[n0 + (k - n0)] == dst@[k]);
            }
        }
    }
}

impl RunConfig {
    /// A field-by-field copy of this configuration.
    pub fn copy(&self) -> (r: RunConfig)
        ensures
            r@ == self@,
    {
        RunConfig {
            runtime: self.runtime.clone(),
            model: copy_opt_string(&self.model),
            context_length: self.context_length,
            max_tokens: self.max_tokens,
            threads: self.threads,
            gpu_layers: self.gpu_layers,
            cache_type_k: copy_opt_string(&self.cache_type_k),
            cache_type_v: copy_opt_string(&self.cache_type_v),
            max_model_len: self.max_model_len,
            max_num_seqs: self.max_num_seqs,
            quantization: copy_opt_string(&self.quantization),
            extra_args: copy_strings(&self.extra_args),
        }
    }
}

/// Parameters that a running backend could be asked to change.
#[derive(Debug, Clone)]
pub struct AdjustmentParams {
    pub context_length: Option<u32>,
    pub max_tokens: Option<u32>,
    pub threads: Option<u32>,
    pub gpu_layers: Option<u32>,
}

/// A program to start, with its arguments and extra environment variables.
#[derive(Debug, Clone)]
pub struct CommandSpec {
    pub program: String,
    pub args: Vec<String>,
    pub env: Vec<(String, String)>,
}

pub open spec fn env_view(v: Seq<(String, String)>) -> Seq<(Seq<char>, Seq<char>)> {
    v.map_values(|p: (String, String)| (p.0@, p.1@))
}

pub ghost struct CommandSpecView {
    pub program: Seq<char>,
    pub args: Seq<Seq<char>>,
    pub env: Seq<(Seq<char>, Seq<char>)>,
}

impl View for CommandSpec {
    type V = CommandSpecView;

    open spec fn view(&self) -> CommandSpecView {
        CommandSpecView {
            program: self.program@,
            args: strs_view(self.args@),
            env: env_view(self.env@),
        }
    }
}

/// Errors of the runtime backends.
#[derive(Debug, Clone)]
pub enum LLMError {
    MissingModel { runtime: &'static str },
    LaunchFailed { program: String, source: String },
    ProcessExit { code: i32 },
    UnsupportedOperation(&'static str),
    InvalidConfig(String),
}

pub type LLMResult<T> = Result<T, LLMError>;

/// The decimal text of a signed number, as `i32::to_string` writes it.
pub open spec fn signed_decimal(n: int) -> Seq<char> {
    if n < 0 {
        seq!['-'] + decimal((-n) as nat)
    } else {
        decimal(n as nat)
    }
}

/// The text that describes an error to the user.
pub open spec fn llm_error_message(e: LLMError) -> Seq<char> {
    match e {
        LLMError::MissingModel { runtime } => "Missing --model for "@ + runtime@
            + " runtime. Provide --model <path>"@,
        LLMError::LaunchFailed { program, source } => "Failed to start "@ + program@ + ": "@
            + source@,
        LLMError::ProcessExit { code } => "Process exited with status "@ + signed_decimal(
            code as int,
        ),
        LLMError::UnsupportedOperation(msg) => msg@,
        LLMError::InvalidConfig(msg) => msg@,
    }
}

impl LLMError {
    /// The text that describes this error to the user.
    pub fn message(&self) -> (r: String)
        ensures
            r@ == llm_error_message(*self),
    {
        match self {
            LLMError::MissingModel { runtime } => {
                concat3("Missing --model for ", *runtime, " runtime. Provide --model <path>")
            },
            LLMError::LaunchFailed { program, source } => {
                let mut s = concat3("Failed to start ", program.as_str(), ": ");
                s.append(source.as_str());
                s
            },
            LLMError::ProcessExit { code } => {
                let mut s = String::from_str("Process exited with status ");
                let c = *code;
                if c < 0 {
                    proof {
                        reveal_strlit("-");
                    }
                    s.append("-");
                    let m: u64 = (0i64 - (c as i64)) as u64;
                    push_decimal(&mut s, m);
                } else {
                    push_decimal(&mut s, c as u64);
                }
                assert(s@ =~= llm_error_message(*self));
                s
            },
            LLMError::UnsupportedOperation(msg) => String::from_str(*msg),
            LLMError::InvalidConfig(msg) => msg.clone(),
        }
    }
}

} // verus!
