//! Runtime profiles: a small `key = value` format, its validation and
//! normalization, and how a profile fills in a run configuration.
use vstd::prelude::*;

use crate::llm_backend::{RunConfig, RunConfigView};
use crate::text::{
    chars_of, concat2, decimal, ends_with, find_char, find_char_range, lowercase,
    parse_u32_range, parse_u32_spec, parse_u64_range, parse_u64_spec, push_char, push_decimal_wide,
    is_prefix_of, lemma_split_prefix, all_ascii, ascii_lower, is_ws, lemma_trim_idempotent,
    lemma_trim_of_trimmed,
    split, split_state, str_ends_with, str_eq, string_of, to_lowercase, trim, trim_range,
    trimmed,
};

verus! {

/// Defaults for a run, as a profile file gives them.
#[derive(Debug, Clone)]
pub struct Profile {
    pub runtime: Option<String>,
    pub model: Option<String>,
    pub warning_model: Option<String>,
    pub context_length: Option<u64>,
    pub max_tokens: Option<u32>,
    pub threads: Option<u32>,
    pub gpu_layers: Option<u32>,
    pub cache_type_k: Option<String>,
    pub cache_type_v: Option<String>,
    pub max_model_len: Option<u32>,
    pub max_num_seqs: Option<u32>,
    pub quantization: Option<String>,
    pub precision: Option<String>,
}

pub ghost struct ProfileView {
    pub runtime: Option<Seq<char>>,
    pub model: Option<Seq<char>>,
    pub warning_model: Option<Seq<char>>,
    pub context_length: Option<u64>,
    pub max_tokens: Option<u32>,
    pub threads: Option<u32>,
    pub gpu_layers: Option<u32>,
    pub cache_type_k: Option<Seq<char>>,
    pub cache_type_v: Option<Seq<char>>,
    pub max_model_len: Option<u32>,
    pub max_num_seqs: Option<u32>,
    pub quantization: Option<Seq<char>>,
    pub precision: Option<Seq<char>>,
}

pub open spec fn ostr(o: Option<String>) -> Option<Seq<char>> {
    match o {
        Some(s) => Some(s@),
        None => None,
    }
}

impl View for Profile {
    type V = ProfileView;

    open spec fn view(&self) -> ProfileView {
        ProfileView {
            runtime: ostr(self.runtime),
            model: ostr(self.model),
            warning_model: ostr(self.warning_model),
            context_length: self.context_length,
            max_tokens: self.max_tokens,
            threads: self.threads,
            gpu_layers: self.gpu_layers,
            cache_type_k: ostr(self.cache_type_k),
            cache_type_v: ostr(self.cache_type_v),
            max_model_len: self.max_model_len,
            max_num_seqs: self.max_num_seqs,
            quantization: ostr(self.quantization),
            precision: ostr(self.precision),
        }
    }
}

pub open spec fn empty_profile() -> ProfileView {
    ProfileView {
        runtime: None,
        model: None,
        warning_model: None,
        context_length: None,
        max_tokens: None,
        threads: None,
        gpu_layers: None,
        cache_type_k: None,
        cache_type_v: None,
        max_model_len: None,
        max_num_seqs: None,
        quantization: None,
        precision: None,
    }
}

impl Default for Profile {
    fn default() -> (r: Self)
        ensures
            r@ == empty_profile(),
    {
        Profile {
            runtime: None,
            model: None,
            warning_model: None,
            context_length: None,
            max_tokens: None,
            threads: None,
            gpu_layers: None,
            cache_type_k: None,
            cache_type_v: None,
            max_model_len: None,
            max_num_seqs: None,
            quantization: None,
            precision: None,
        }
    }
}

/// The runtime names a profile may give.
pub open spec fn valid_runtime(r: Seq<char>) -> bool {
    ||| r == "llama.cpp"@
    ||| r == "llama"@
    ||| r == "ollama"@
    ||| r == "mlc"@
    ||| r == "mlc-llm"@
    ||| r == "vllm"@
}

/// The canonical name of a runtime: `llama` is `llama.cpp`, `mlc-llm` is `mlc`.
pub open spec fn normalized_runtime(r: Seq<char>) -> Seq<char> {
    if r == "llama"@ {
        "llama.cpp"@
    } else if r == "mlc-llm"@ {
        "mlc"@
    } else {
        r
    }
}

/// The precisions a profile may give.
pub open spec fn valid_precision(p: Seq<char>) -> bool {
    ||| p == "fp16"@
    ||| p == "fp32"@
    ||| p == "int8"@
}

pub fn is_valid_runtime(runtime: &str) -> (r: bool)
    ensures
        r == valid_runtime(runtime@),
{
    str_eq(runtime, "llama.cpp") || str_eq(runtime, "llama") || str_eq(runtime, "ollama")
        || str_eq(runtime, "mlc") || str_eq(runtime, "mlc-llm") || str_eq(runtime, "vllm")
}

pub fn normalize_runtime(runtime: &str) -> (r: String)
    ensures
        r@ == normalized_runtime(runtime@),
{
    if str_eq(runtime, "llama") {
        String::from_str("llama.cpp")
    } else if str_eq(runtime, "mlc-llm") {
        String::from_str("mlc")
    } else {
        String::from_str(runtime)
    }
}

pub fn is_valid_precision(precision: &str) -> (r: bool)
    ensures
        r == valid_precision(precision@),
{
    str_eq(precision, "fp16") || str_eq(precision, "fp32") || str_eq(precision, "int8")
}

/// The profile after the runtime check of validation: blank is cleared, a known name
/// is lower-cased and made canonical, anything else is refused.
pub open spec fn validate_runtime(p: ProfileView) -> Result<ProfileView, Seq<char>> {
    match p.runtime {
        None => Ok(p),
        Some(r) => {
            let norm = lowercase(trim(r));
            if norm.len() == 0 {
                Ok(ProfileView { runtime: None, ..p })
            } else if !valid_runtime(norm) {
                Err("Unsupported runtime in profile: "@ + r)
            } else {
                Ok(ProfileView { runtime: Some(normalized_runtime(norm)), ..p })
            }
        },
    }
}

/// The profile after the model check: blank is cleared, otherwise trimmed.
pub open spec fn validate_model(p: ProfileView) -> ProfileView {
    match p.model {
        None => p,
        Some(m) => if trim(m).len() == 0 {
            ProfileView { model: None, ..p }
        } else {
            ProfileView { model: Some(trim(m)), ..p }
        },
    }
}

/// The precision check: blank is cleared, a known precision is lower-cased,
/// anything else is refused.
pub open spec fn validate_precision(p: ProfileView) -> Result<ProfileView, Seq<char>> {
    match p.precision {
        None => Ok(p),
        Some(x) => {
            let norm = lowercase(trim(x));
            if norm.len() == 0 {
                Ok(ProfileView { precision: None, ..p })
            } else if !valid_precision(norm) {
                Err("Unsupported precision in profile: "@ + x)
            } else {
                Ok(ProfileView { precision: Some(norm), ..p })
            }
        },
    }
}

/// What validation leaves of the profile, and its verdict. The checks run in order
/// (runtime, model, context length, max tokens, threads, precision); the first
/// failure ends validation, with the earlier normalizations already made.
pub open spec fn validate_spec(p: ProfileView) -> (ProfileView, Result<(), Seq<char>>) {
    match validate_runtime(p) {
        Err(e) => (p, Err(e)),
        Ok(p1) => {
            let p2 = validate_model(p1);
            if p2.context_length == Some(0u64) {
                (p2, Err("context_length must be > 0"@))
            } else if p2.max_tokens == Some(0u32) {
                (p2, Err("max_tokens must be > 0"@))
            } else if p2.threads == Some(0u32) {
                (p2, Err("threads must be > 0"@))
            } else {
                match validate_precision(p2) {
                    Err(e) => (p2, Err(e)),
                    Ok(p3) => (p3, Ok(())),
                }
            }
        },
    }
}

pub open spec fn result_view(r: Result<(), String>) -> Result<(), Seq<char>> {
    match r {
        Ok(()) => Ok(()),
        Err(e) => Err(e@),
    }
}

/// What filling a run configuration from a profile gives: each setting the
/// configuration lacks is taken from the profile (a blank model is not taken; the
/// warning model is not a run setting and is not taken); a
/// context length too large for the configuration is refused after the runtime and
/// model are filled in.
pub open spec fn apply_spec(p: ProfileView, c: RunConfigView) -> (RunConfigView, Result<(), Seq<char>>) {
    let c1 = if c.runtime.len() == 0 && p.runtime is Some {
        RunConfigView { runtime: p.runtime.unwrap(), ..c }
    } else {
        c
    };
    let c2 = if c1.model is None && p.model is Some && p.model.unwrap().len() > 0 {
        RunConfigView { model: p.model, ..c1 }
    } else {
        c1
    };
    if c2.context_length is None && p.context_length is Some && p.context_length.unwrap()
        > u32::MAX {
        (c2, Err("context_length is too large for u32"@))
    } else {
        let c3 = if c2.context_length is None && p.context_length is Some {
            RunConfigView { context_length: Some(p.context_length.unwrap() as u32), ..c2 }
        } else {
            c2
        };
        let c4 = RunConfigView {
            max_tokens: if c3.max_tokens is None {
                p.max_tokens
            } else {
                c3.max_tokens
            },
            threads: if c3.threads is None {
                p.threads
            } else {
                c3.threads
            },
            gpu_layers: if c3.gpu_layers is None {
                p.gpu_layers
            } else {
                c3.gpu_layers
            },
            cache_type_k: if c3.cache_type_k is None {
                p.cache_type_k
            } else {
                c3.cache_type_k
            },
            cache_type_v: if c3.cache_type_v is None {
                p.cache_type_v
            } else {
                c3.cache_type_v
            },
            max_model_len: if c3.max_model_len is None {
                p.max_model_len
            } else {
                c3.max_model_len
            },
            max_num_seqs: if c3.max_num_seqs is None {
                p.max_num_seqs
            } else {
                c3.max_num_seqs
            },
            quantization: if c3.quantization is None {
                p.quantization
            } else {
                c3.quantization
            },
            ..c3
        };
        (c4, Ok(()))
    }
}

impl Profile {
    pub fn apply_to_run_config(&self, config: &mut RunConfig) -> (r: Result<(), String>)
        ensures
            (final(config)@, result_view(r)) == apply_spec(self@, old(config)@),
    {
        if config.runtime.as_str().unicode_len() == 0 {
            if let Some(runtime) = &self.runtime {
                config.runtime = runtime.clone();
            }
        }
        if config.model.is_none() {
            if let Some(model) = &self.model {
                if model.as_str().unicode_len() > 0 {
                    config.model = Some(model.clone());
                }
            }
        }
        if config.context_length.is_none() {
            if let Some(context_length) = self.context_length {
                if context_length > 0xffff_ffffu64 {
                    return Err(String::from_str("context_length is too large for u32"));
                }
                config.context_length = Some(context_length as u32);
            }
        }
        if config.max_tokens.is_none() {
            config.max_tokens = self.max_tokens;
        }
        if config.threads.is_none() {
            config.threads = self.threads;
        }
        if config.gpu_layers.is_none() {
            config.gpu_layers = self.gpu_layers;
        }
        if config.cache_type_k.is_none() {
            config.cache_type_k = crate::llm_backend::copy_opt_string(&self.cache_type_k);
        }
        if config.cache_type_v.is_none() {
            config.cache_type_v = crate::llm_backend::copy_opt_string(&self.cache_type_v);
        }
        if config.max_model_len.is_none() {
            config.max_model_len = self.max_model_len;
        }
        if config.max_num_seqs.is_none() {
            config.max_num_seqs = self.max_num_seqs;
        }
        if config.quantization.is_none() {
            config.quantization = crate::llm_backend::copy_opt_string(&self.quantization);
        }
        Ok(())
    }

    /// Checks the profile and normalizes its text values; see [`validate_spec`].
    pub fn validate(&mut self) -> (r: Result<(), String>)
        ensures
            (final(self)@, result_view(r)) == validate_spec(old(self)@),
    {
        if let Some(runtime) = &self.runtime {
            let t = trimmed(runtime.as_str());
            let norm = to_lowercase(t.as_str());
            if norm.as_str().unicode_len() == 0 {
                self.runtime = None;
            } else if !is_valid_runtime(norm.as_str()) {
                return Err(concat2("Unsupported runtime in profile: ", runtime.as_str()));
            } else {
                self.runtime = Some(normalize_runtime(norm.as_str()));
            }
        }
        if let Some(model) = &self.model {
            let t = trimmed(model.as_str());
            if t.as_str().unicode_len() == 0 {
                self.model = None;
            } else {
                self.model = Some(t);
            }
        }
        if let Some(context_length) = self.context_length {
            if context_length == 0 {
                return Err(String::from_str("context_length must be > 0"));
            }
        }
        if let Some(max_tokens) = self.max_tokens {
            if max_tokens == 0 {
                return Err(String::from_str("max_tokens must be > 0"));
            }
        }
        if let Some(threads) = self.threads {
            if threads == 0 {
                return Err(String::from_str("threads must be > 0"));
            }
        }
        if let Some(precision) = &self.precision {
            let t = trimmed(precision.as_str());
            let norm = to_lowercase(t.as_str());
            if norm.as_str().unicode_len() == 0 {
                self.precision = None;
            } else if !is_valid_precision(norm.as_str()) {
                return Err(concat2("Unsupported precision in profile: ", precision.as_str()));
            } else {
                self.precision = Some(norm);
            }
        }
        Ok(())
    }
}

/// The text before the first `#`.
pub open spec fn strip_comments_spec(line: Seq<char>) -> Seq<char> {
    line.subrange(0, find_char(line, '#'))
}

/// `line` without its comment.
pub fn strip_comments(line: &str) -> (r: String)
    ensures
        r@ == strip_comments_spec(line@),
{
    let v = chars_of(line);
    let e = find_char_range(&v, 0, v.len(), '#');
    assert(v@.subrange(0, v@.len() as int) =~= v@);
    string_of(&v, 0, e)
}

/// What a backslash escape stands for: `\n`, `\r`, `\t`, `\"` and `\\` stand for the
/// character; any other escaped character keeps its backslash.
pub open spec fn escape_char(c: char) -> Seq<char> {
    if c == 'n' {
        seq!['\n']
    } else if c == 'r' {
        seq!['\r']
    } else if c == 't' {
        seq!['\t']
    } else if c == '"' {
        seq!['"']
    } else if c == '\\' {
        seq!['\\']
    } else {
        seq!['\\', c]
    }
}

/// `s` with its backslash escapes replaced; a lone trailing backslash is kept.
pub open spec fn unescape(s: Seq<char>) -> Seq<char>
    decreases s.len(),
{
    if s.len() == 0 {
        Seq::empty()
    } else if s[0] == '\\' {
        if s.len() == 1 {
            seq!['\\']
        } else {
            escape_char(s[1]) + unescape(s.subrange(2, s.len() as int))
        }
    } else {
        seq![s[0]] + unescape(s.drop_first())
    }
}

fn push_escape(out: &mut String, c: char)
    ensures
        final(out)@ == old(out)@ + escape_char(c),
{
    if c == 'n' {
        push_char(out, '\n');
    } else if c == 'r' {
        push_char(out, '\r');
    } else if c == 't' {
        push_char(out, '\t');
    } else if c == '"' {
        push_char(out, '"');
    } else if c == '\\' {
        push_char(out, '\\');
    } else {
        push_char(out, '\\');
        push_char(out, c);
    }
    assert(out@ =~= old(out)@ + escape_char(c));
}

/// Replaces the backslash escapes of `v[from..to]`.
pub fn unescape_range(v: &Vec<char>, from: usize, to: usize) -> (r: String)
    requires
        from <= to <= v@.len(),
    ensures
        r@ == unescape(v@.subrange(from as int, to as int)),
{
    let mut out = String::new();
    let mut i = from;
    while i < to
        invariant
            from <= i <= to,
            to <= v@.len(),
            unescape(v@.subrange(from as int, to as int)) == out@ + unescape(
                v@.subrange(i as int, to as int),
            ),
        decreases to - i,
    {
        let ghost rest = v@.subrange(i as int, to as int);
        let c = v[i];
        if c == '\\' {
            if i + 1 < to {
                push_escape(&mut out, v[i + 1]);
                assert(rest.subrange(2, rest.len() as int) =~= v@.subrange(i + 2, to as int));
                i = i + 2;
            } else {
                push_char(&mut out, '\\');
                i = i + 1;
                assert(v@.subrange(i as int, to as int) =~= Seq::<char>::empty());
            }
        } else {
            push_char(&mut out, c);
            assert(rest.drop_first() =~= v@.subrange(i + 1, to as int));
            i = i + 1;
        }
        assert(unescape(v@.subrange(from as int, to as int)) =~= out@ + unescape(
            v@.subrange(i as int, to as int),
        ));
    }
    assert(v@.subrange(to as int, to as int) =~= Seq::<char>::empty());
    out
}

/// `unescape` on a string.
pub fn unescape_string(input: &str) -> (r: String)
    ensures
        r@ == unescape(input@),
{
    let v = chars_of(input);
    assert(v@.subrange(0, v@.len() as int) =~= v@);
    unescape_range(&v, 0, v.len())
}

/// A profile string value: trimmed, and when it is wrapped in double quotes, the
/// text inside with its escapes replaced.
pub open spec fn parse_string_spec(input: Seq<char>) -> Seq<char> {
    let t = trim(input);
    if t.len() >= 2 && t[0] == '"' && t.last() == '"' {
        unescape(t.subrange(1, t.len() - 1))
    } else {
        t
    }
}

fn parse_string_range(v: &Vec<char>, from: usize, to: usize) -> (r: String)
    requires
        from <= to <= v@.len(),
    ensures
        r@ == parse_string_spec(v@.subrange(from as int, to as int)),
{
    let (a, b) = trim_range(v, from, to);
    let ghost t = v@.subrange(a as int, b as int);
    if b - a >= 2 && v[a] == '"' && v[b - 1] == '"' {
        assert(t.subrange(1, t.len() - 1) =~= v@.subrange(a + 1, b - 1));
        unescape_range(v, a + 1, b - 1)
    } else {
        string_of(v, a, b)
    }
}

/// Parses a profile string value; see [`parse_string_spec`].
pub fn parse_string(input: &str) -> (r: Result<String, String>)
    ensures
        r matches Ok(s) && s@ == parse_string_spec(input@),
{
    let v = chars_of(input);
    assert(v@.subrange(0, v@.len() as int) =~= v@);
    Ok(parse_string_range(&v, 0, v.len()))
}

/// A profile number: the trimmed value as a `u64`, or the error naming the value.
pub fn parse_u64(value: &str) -> (r: Result<u64, String>)
    ensures
        match parse_u64_spec(trim(value@)) {
            Some(n) => r == Ok::<u64, String>(n),
            None => r matches Err(e) && e@ == "Invalid numeric value: "@ + value@,
        },
{
    let v = chars_of(value);
    let (a, b) = trim_range(&v, 0, v.len());
    assert(v@.subrange(0, v@.len() as int) =~= v@);
    match parse_u64_range(&v, a, b) {
        Some(n) => Ok(n),
        None => Err(concat2("Invalid numeric value: ", value)),
    }
}

/// A profile number: the trimmed value as a `u32`, or the error naming the value.
pub fn parse_u32(value: &str) -> (r: Result<u32, String>)
    ensures
        match parse_u32_spec(trim(value@)) {
            Some(n) => r == Ok::<u32, String>(n),
            None => r matches Err(e) && e@ == "Invalid numeric value: "@ + value@,
        },
{
    let v = chars_of(value);
    let (a, b) = trim_range(&v, 0, v.len());
    assert(v@.subrange(0, v@.len() as int) =~= v@);
    match parse_u32_range(&v, a, b) {
        Some(n) => Ok(n),
        None => Err(concat2("Invalid numeric value: ", value)),
    }
}

/// The effect of profile line number `n`: comments (from `#`) and blank lines are
/// skipped; other lines must be `key = value`. Known keys set their field (a blank
/// model clears it); numeric values must parse; unknown keys are ignored.
pub open spec fn profile_line(p: ProfileView, raw: Seq<char>, n: nat) -> Result<ProfileView, Seq<char>> {
    let line = trim(strip_comments_spec(raw));
    if line.len() == 0 {
        Ok(p)
    } else {
        let e = find_char(line, '=');
        if e == line.len() {
            Err("Invalid profile line "@ + decimal(n) + ": "@ + line)
        } else {
            let key = trim(line.subrange(0, e));
            let value = trim(line.subrange(e + 1, line.len() as int));
            if key == "runtime"@ {
                Ok(ProfileView { runtime: Some(parse_string_spec(value)), ..p })
            } else if key == "model"@ {
                let m = parse_string_spec(value);
                Ok(ProfileView { model: if m.len() == 0 { None } else { Some(m) }, ..p })
            } else if key == "context_length"@ {
                match parse_u64_spec(trim(value)) {
                    Some(x) => Ok(ProfileView { context_length: Some(x), ..p }),
                    None => Err("Invalid numeric value: "@ + value),
                }
            } else if key == "max_tokens"@ {
                match parse_u32_spec(trim(value)) {
                    Some(x) => Ok(ProfileView { max_tokens: Some(x), ..p }),
                    None => Err("Invalid numeric value: "@ + value),
                }
            } else if key == "threads"@ {
                match parse_u32_spec(trim(value)) {
                    Some(x) => Ok(ProfileView { threads: Some(x), ..p }),
                    None => Err("Invalid numeric value: "@ + value),
                }
            } else if key == "gpu_layers"@ {
                match parse_u32_spec(trim(value)) {
                    Some(x) => Ok(ProfileView { gpu_layers: Some(x), ..p }),
                    None => Err("Invalid numeric value: "@ + value),
                }
            } else if key == "precision"@ {
                Ok(ProfileView { precision: Some(parse_string_spec(value)), ..p })
            } else if key == "warning_model"@ {
                let m = parse_string_spec(value);
                Ok(ProfileView { warning_model: if m.len() == 0 { None } else { Some(m) }, ..p })
            } else if key == "cache_type_k"@ {
                Ok(ProfileView { cache_type_k: Some(parse_string_spec(value)), ..p })
            } else if key == "cache_type_v"@ {
                Ok(ProfileView { cache_type_v: Some(parse_string_spec(value)), ..p })
            } else if key == "quantization"@ {
                Ok(ProfileView { quantization: Some(parse_string_spec(value)), ..p })
            } else if key == "max_model_len"@ {
                match parse_u32_spec(trim(value)) {
                    Some(x) => Ok(ProfileView { max_model_len: Some(x), ..p }),
                    None => Err("Invalid numeric value: "@ + value),
                }
            } else if key == "max_num_seqs"@ {
                match parse_u32_spec(trim(value)) {
                    Some(x) => Ok(ProfileView { max_num_seqs: Some(x), ..p }),
                    None => Err("Invalid numeric value: "@ + value),
                }
            } else {
                Ok(p)
            }
        }
    }
}

/// The profile that lines give, numbering them from one; the first bad line ends
/// parsing with its error.
pub open spec fn profile_lines(lines: Seq<Seq<char>>) -> Result<ProfileView, Seq<char>>
    decreases lines.len(),
{
    if lines.len() == 0 {
        Ok(empty_profile())
    } else {
        match profile_lines(lines.drop_last()) {
            Err(e) => Err(e),
            Ok(p) => profile_line(p, lines.last(), lines.len()),
        }
    }
}

/// The profile that a file's text gives.
pub open spec fn parse_profile_spec(contents: Seq<char>) -> Result<ProfileView, Seq<char>> {
    profile_lines(split(contents, '\n'))
}

pub open spec fn profile_result_view(r: Result<Profile, String>) -> Result<ProfileView, Seq<char>> {
    match r {
        Ok(p) => Ok(p@),
        Err(e) => Err(e@),
    }
}

proof fn lemma_profile_error_persists(a: Seq<Seq<char>>, b: Seq<Seq<char>>)
    requires
        is_prefix_of(a, b),
        profile_lines(a) is Err,
    ensures
        profile_lines(b) == profile_lines(a),
    decreases b.len(),
{
    if b.len() == a.len() {
        assert(b =~= a);
    } else {
        assert(b.drop_last().subrange(0, a.len() as int) =~= b.subrange(0, a.len() as int));
        lemma_profile_error_persists(a, b.drop_last());
    }
}

fn profile_step(p: &mut Profile, v: &Vec<char>, from: usize, to: usize, n: u128) -> (r: Result<
    (),
    String,
>)
    requires
        from <= to <= v@.len(),
    ensures
        match profile_line(old(p)@, v@.subrange(from as int, to as int), n as nat) {
            Ok(q) => r is Ok && final(p)@ == q,
            Err(e) => r matches Err(m) && m@ == e,
        },
{
    let ghost raw = v@.subrange(from as int, to as int);
    let h = find_char_range(v, from, to, '#');
    assert(v@.subrange(from as int, h as int) =~= strip_comments_spec(raw));
    let (a, b) = trim_range(v, from, h);
    let ghost line = v@.subrange(a as int, b as int);
    if a == b {
        return Ok(());
    }
    let e = find_char_range(v, a, b, '=');
    if e == b {
        let mut msg = String::from_str("Invalid profile line ");
        push_decimal_wide(&mut msg, n);
        msg.append(": ");
        let text = string_of(v, a, b);
        msg.append(text.as_str());
        return Err(msg);
    }
    assert(line.subrange(0, e - a) =~= v@.subrange(a as int, e as int));
    assert(line.subrange(e - a + 1, line.len() as int) =~= v@.subrange(e + 1, b as int));
    let (k0, k1) = trim_range(v, a, e);
    let (v0, v1) = trim_range(v, e + 1, b);
    let value = string_of(v, v0, v1);
    let (w0, w1) = trim_range(v, v0, v1);
    if range_key(v, k0, k1, "runtime") {
        p.runtime = Some(parse_string_range(v, v0, v1));
    } else if range_key(v, k0, k1, "model") {
        let m = parse_string_range(v, v0, v1);
        if m.as_str().unicode_len() == 0 {
            p.model = None;
        } else {
            p.model = Some(m);
        }
    } else if range_key(v, k0, k1, "context_length") {
        match parse_u64_range(v, w0, w1) {
            Some(x) => {
                p.context_length = Some(x);
            },
            None => {
                return Err(concat2("Invalid numeric value: ", value.as_str()));
            },
        }
    } else if range_key(v, k0, k1, "max_tokens") {
        match parse_u32_range(v, w0, w1) {
            Some(x) => {
                p.max_tokens = Some(x);
            },
            None => {
                return Err(concat2("Invalid numeric value: ", value.as_str()));
            },
        }
    } else if range_key(v, k0, k1, "threads") {
        match parse_u32_range(v, w0, w1) {
            Some(x) => {
                p.threads = Some(x);
            },
            None => {
                return Err(concat2("Invalid numeric value: ", value.as_str()));
            },
        }
    } else if range_key(v, k0, k1, "gpu_layers") {
        match parse_u32_range(v, w0, w1) {
            Some(x) => {
                p.gpu_layers = Some(x);
            },
            None => {
                return Err(concat2("Invalid numeric value: ", value.as_str()));
            },
        }
    } else if range_key(v, k0, k1, "precision") {
        p.precision = Some(parse_string_range(v, v0, v1));
    } else if range_key(v, k0, k1, "warning_model") {
        let m = parse_string_range(v, v0, v1);
        if m.as_str().unicode_len() == 0 {
            p.warning_model = None;
        } else {
            p.warning_model = Some(m);
        }
    } else if range_key(v, k0, k1, "cache_type_k") {
        p.cache_type_k = Some(parse_string_range(v, v0, v1));
    } else if range_key(v, k0, k1, "cache_type_v") {
        p.cache_type_v = Some(parse_string_range(v, v0, v1));
    } else if range_key(v, k0, k1, "quantization") {
        p.quantization = Some(parse_string_range(v, v0, v1));
    } else if range_key(v, k0, k1, "max_model_len") {
        match parse_u32_range(v, w0, w1) {
            Some(x) => {
                p.max_model_len = Some(x);
            },
            None => {
                return Err(concat2("Invalid numeric value: ", value.as_str()));
            },
        }
    } else if range_key(v, k0, k1, "max_num_seqs") {
        match parse_u32_range(v, w0, w1) {
            Some(x) => {
                p.max_num_seqs = Some(x);
            },
            None => {
                return Err(concat2("Invalid numeric value: ", value.as_str()));
            },
        }
    }
    Ok(())
}

fn range_key(v: &Vec<char>, from: usize, to: usize, key: &str) -> (r: bool)
    requires
        from <= to <= v@.len(),
    ensures
        r == (v@.subrange(from as int, to as int) == key@),
{
    crate::text::range_eq(v, from, to, key)
}

/// Parses the text of a profile file; see [`parse_profile_spec`].
pub fn parse_profile(contents: &str) -> (r: Result<Profile, String>)
    ensures
        profile_result_view(r) == parse_profile_spec(contents@),
{
    let v = chars_of(contents);
    let mut p = Profile::default();
    let ghost s = v@;
    let mut start: usize = 0;
    let mut i: usize = 0;
    let mut count: usize = 0;
    while i < v.len()
        invariant
            s == v@,
            s == contents@,
            start <= i <= v@.len(),
            count == split_state(s.subrange(0, i as int), '\n').0.len(),
            count <= i,
            v@.subrange(start as int, i as int) == split_state(s.subrange(0, i as int), '\n').1,
            profile_lines(split_state(s.subrange(0, i as int), '\n').0) == Ok::<
                ProfileView,
                Seq<char>,
            >(p@),
        decreases v@.len() - i,
    {
        let ghost prev = s.subrange(0, i as int);
        let ghost next = s.subrange(0, i + 1);
        assert(next.drop_last() =~= prev);
        if v[i] == '\n' {
            let ghost d = split_state(prev, '\n').0;
            assert(d.push(split_state(prev, '\n').1).drop_last() =~= d);
            let ghost p_before = p@;
            let ghost cur = split_state(prev, '\n').1;
            let step = profile_step(&mut p, &v, start, i, count as u128 + 1);
            assert(split_state(next, '\n').0 == d.push(cur));
            if let Err(msg) = step {
                proof {
                    assert(profile_lines(d.push(cur)) == profile_line(p_before, cur, (count + 1) as nat));
                    assert(cur == v@.subrange(start as int, i as int));
                    assert(profile_line(p_before, cur, (count + 1) as nat) == Err::<ProfileView, Seq<char>>(msg@));
                    assert(profile_lines(split_state(next, '\n').0) == Err::<ProfileView, Seq<char>>(msg@));
                    lemma_split_prefix(s, '\n', i + 1);
                    lemma_profile_error_persists(split_state(next, '\n').0, split(s, '\n'));
                    assert(parse_profile_spec(contents@) == Err::<ProfileView, Seq<char>>(msg@));
                }
                return Err(msg);
            }
            count = count + 1;
            i = i + 1;
            start = i;
            assert(v@.subrange(start as int, i as int) =~= Seq::<char>::empty());
        } else {
            i = i + 1;
            assert(v@.subrange(start as int, i as int) =~= v@.subrange(
                start as int,
                (i - 1) as int,
            ).push(v@[i - 1]));
        }
    }
    proof {
        assert(s.subrange(0, s.len() as int) =~= s);
        let d = split_state(s, '\n').0;
        assert(d.push(split_state(s, '\n').1).drop_last() =~= d);
    }
    let step = profile_step(&mut p, &v, start, v.len(), count as u128 + 1);
    if let Err(msg) = step {
        return Err(msg);
    }
    Ok(p)
}

/// What reading a profile gives: the parsed profile after validation.
pub open spec fn load_spec(contents: Seq<char>) -> Result<ProfileView, Seq<char>> {
    match parse_profile_spec(contents) {
        Err(e) => Err(e),
        Ok(p) => match validate_spec(p).1 {
            Ok(()) => Ok(validate_spec(p).0),
            Err(e) => Err(e),
        },
    }
}

/// Parses and validates the text of a profile file.
pub fn profile_from_contents(contents: &str) -> (r: Result<Profile, String>)
    ensures
        profile_result_view(r) == load_spec(contents@),
{
    let mut parsed = match parse_profile(contents) {
        Ok(p) => p,
        Err(e) => {
            return Err(e);
        },
    };
    match parsed.validate() {
        Ok(()) => Ok(parsed),
        Err(e) => Err(e),
    }
}

/// The file name a profile name refers to: the name itself when it ends in
/// `.toml`, else the name with `.toml` added.
pub fn profile_file_name(profile: &str) -> (r: String)
    ensures
        r@ == if ends_with(profile@, ".toml"@) {
            profile@
        } else {
            profile@ + ".toml"@
        },
{
    if str_ends_with(profile, ".toml") {
        String::from_str(profile)
    } else {
        concat2(profile, ".toml")
    }
}

proof fn lemma_canonical(s: Seq<char>)
    requires
        all_ascii(s),
        forall|i: int| 0 <= i < s.len() ==> 'a' <= #[trigger] s[i] <= 'z' || s[i] == '.' || s[i]
            == '-' || '0' <= s[i] <= '9',
    ensures
        trim(s) == s,
        lowercase(s) == s,
{
    if s.len() > 0 {
        assert(!is_ws(s[0]));
        assert(!is_ws(s.last()));
    }
    lemma_trim_of_trimmed(s);
    assert(ascii_lower(s) =~= s);
}

proof fn lemma_canonical_names()
    ensures
        trim("llama.cpp"@) == "llama.cpp"@ && lowercase("llama.cpp"@) == "llama.cpp"@,
        trim("ollama"@) == "ollama"@ && lowercase("ollama"@) == "ollama"@,
        trim("mlc"@) == "mlc"@ && lowercase("mlc"@) == "mlc"@,
        trim("vllm"@) == "vllm"@ && lowercase("vllm"@) == "vllm"@,
        trim("fp16"@) == "fp16"@ && lowercase("fp16"@) == "fp16"@,
        trim("fp32"@) == "fp32"@ && lowercase("fp32"@) == "fp32"@,
        trim("int8"@) == "int8"@ && lowercase("int8"@) == "int8"@,
        valid_runtime("llama.cpp"@) && valid_runtime("ollama"@) && valid_runtime("mlc"@)
            && valid_runtime("vllm"@),
        "llama.cpp"@ != "llama"@ && "llama.cpp"@ != "mlc-llm"@,
        "ollama"@ != "llama"@ && "ollama"@ != "mlc-llm"@,
        "mlc"@ != "llama"@ && "mlc"@ != "mlc-llm"@,
        "vllm"@ != "llama"@ && "vllm"@ != "mlc-llm"@,
        "llama.cpp"@.len() > 0 && "ollama"@.len() > 0 && "mlc"@.len() > 0 && "vllm"@.len() > 0,
        "fp16"@.len() > 0 && "fp32"@.len() > 0 && "int8"@.len() > 0,
{
    reveal_strlit("llama.cpp");
    reveal_strlit("llama");
    reveal_strlit("ollama");
    reveal_strlit("mlc");
    reveal_strlit("mlc-llm");
    reveal_strlit("vllm");
    reveal_strlit("fp16");
    reveal_strlit("fp32");
    reveal_strlit("int8");
    lemma_canonical("llama.cpp"@);
    lemma_canonical("ollama"@);
    lemma_canonical("mlc"@);
    lemma_canonical("vllm"@);
    lemma_canonical("fp16"@);
    lemma_canonical("fp32"@);
    lemma_canonical("int8"@);
    assert("llama.cpp"@.len() != "llama"@.len());
    assert("llama.cpp"@.len() != "mlc-llm"@.len());
    assert("ollama"@.len() != "llama"@.len() || "ollama"@[0] != "llama"@[0]);
    assert("ollama"@.len() != "mlc-llm"@.len());
    assert("mlc"@.len() != "llama"@.len());
    assert("mlc"@.len() != "mlc-llm"@.len());
    assert("vllm"@.len() != "llama"@.len());
    assert("vllm"@.len() != "mlc-llm"@.len());
}

/// Validation is idempotent: a profile that validation accepted, validated again,
/// is accepted and left unchanged.
pub proof fn law_validate_idempotent(p: ProfileView)
    requires
        validate_spec(p).1 is Ok,
    ensures
        validate_spec(validate_spec(p).0) == (validate_spec(p).0, Ok::<(), Seq<char>>(())),
{
    lemma_canonical_names();
    let q = validate_spec(p).0;
    match p.model {
        Some(m) => {
            lemma_trim_idempotent(m);
        },
        None => {},
    }
    assert(validate_runtime(q) == Ok::<ProfileView, Seq<char>>(q));
    assert(validate_model(q) == q);
    assert(validate_precision(q) == Ok::<ProfileView, Seq<char>>(q));
}

/// Settings already in the run configuration win over the profile's: filling from a
/// profile only sets what was unset.
pub proof fn law_config_values_win(p: ProfileView, c: RunConfigView)
    ensures
        ({
            let c2 = apply_spec(p, c).0;
            &&& c.runtime.len() > 0 ==> c2.runtime == c.runtime
            &&& c.model is Some ==> c2.model == c.model
            &&& c.context_length is Some ==> c2.context_length == c.context_length
            &&& c.max_tokens is Some ==> c2.max_tokens == c.max_tokens
            &&& c.threads is Some ==> c2.threads == c.threads
            &&& c.gpu_layers is Some ==> c2.gpu_layers == c.gpu_layers
            &&& c.cache_type_k is Some ==> c2.cache_type_k == c.cache_type_k
            &&& c.cache_type_v is Some ==> c2.cache_type_v == c.cache_type_v
            &&& c.max_model_len is Some ==> c2.max_model_len == c.max_model_len
            &&& c.max_num_seqs is Some ==> c2.max_num_seqs == c.max_num_seqs
            &&& c.quantization is Some ==> c2.quantization == c.quantization
            &&& c2.extra_args == c.extra_args
        }),
{
}

/// Filling from a profile sets every setting the run configuration lacks to the
/// profile's value: the runtime and a non-blank model always; the others when the
/// profile's context length (if it is needed) fits in the configuration, which is
/// the only case that fails, leaving those others unset.
pub proof fn law_profile_fills_unset(p: ProfileView, c: RunConfigView)
    ensures
        ({
            let (c2, r) = apply_spec(p, c);
            let too_long = c.context_length is None && p.context_length is Some
                && p.context_length.unwrap() > u32::MAX;
            &&& r is Err <==> too_long
            &&& too_long ==> r == Err::<(), Seq<char>>("context_length is too large for u32"@)
            &&& (c.runtime.len() == 0 && p.runtime is Some) ==> c2.runtime == p.runtime.unwrap()
            &&& (c.model is None && p.model is Some && p.model.unwrap().len() > 0) ==> c2.model
                == p.model
            &&& !too_long ==> {
                &&& (c.context_length is None && p.context_length is Some) ==> c2.context_length
                    == Some(p.context_length.unwrap() as u32)
                &&& c.max_tokens is None ==> c2.max_tokens == p.max_tokens
                &&& c.threads is None ==> c2.threads == p.threads
                &&& c.gpu_layers is None ==> c2.gpu_layers == p.gpu_layers
                &&& c.cache_type_k is None ==> c2.cache_type_k == p.cache_type_k
                &&& c.cache_type_v is None ==> c2.cache_type_v == p.cache_type_v
                &&& c.max_model_len is None ==> c2.max_model_len == p.max_model_len
                &&& c.max_num_seqs is None ==> c2.max_num_seqs == p.max_num_seqs
                &&& c.quantization is None ==> c2.quantization == p.quantization
            }
            &&& too_long ==> {
                &&& c2.context_length == c.context_length
                &&& c2.max_tokens == c.max_tokens
                &&& c2.threads == c.threads
                &&& c2.gpu_layers == c.gpu_layers
                &&& c2.cache_type_k == c.cache_type_k
                &&& c2.cache_type_v == c.cache_type_v
                &&& c2.max_model_len == c.max_model_len
                &&& c2.max_num_seqs == c.max_num_seqs
                &&& c2.quantization == c.quantization
            }
        }),
{
}

} // verus!
