//! KV-cache sizing for `kv-inspect`: the model's shape from its GGUF metadata, the
//! cache sizes, the layer listing, the chart data, and the JSON report.
use vstd::prelude::*;

use crate::gguf::{lookup, value_as_u64, GgufMetadata, GgufValue, GgufValueView};
use crate::json::{json_field, pop_trailing_comma, push_json_field};
use crate::llm_backend::{opt_str_view, strs_view};
use vstd::seq_lib::{lemma_append_last, lemma_concat_associative};
use crate::commands::kv_args::{KvInspectArgs, KvInspectArgsView};
use crate::profile::{Profile, ProfileView};
use crate::text::{concat2, decimal, lowercase, push_char, push_decimal, str_eq, to_lowercase, u64_to_string};

verus! {

/// The KV-cache sizes in bytes.
pub struct KvSizes {
    pub kv_per_token_per_layer: u64,
    pub per_layer_k: u64,
    pub per_layer_total: u64,
    pub per_token_total: u64,
    pub total_kv: u64,
}

/// The cache sizes for a model shape, or the first size that overflows 64 bits:
/// per token and layer `2 * hidden * bytes` (keys and values); one layer's keys over
/// the context `hidden * bytes * context`; one layer over the context; all layers
/// per token; and the whole cache.
pub open spec fn kv_sizes_spec(hidden: u64, layers: u64, context: u64, bytes: u64) -> Result<
    (int, int, int, int, int),
    Seq<char>,
> {
    let per_token_layer = 2 * hidden * bytes;
    let layer_k = hidden * bytes * context;
    if 2 * hidden > u64::MAX || per_token_layer > u64::MAX {
        Err("Overflow computing per-token KV size"@)
    } else if hidden * bytes > u64::MAX || layer_k > u64::MAX {
        Err("Overflow computing per-layer K size"@)
    } else if per_token_layer * context > u64::MAX {
        Err("Overflow computing per-layer total size"@)
    } else if layers * per_token_layer > u64::MAX {
        Err("Overflow computing per-token KV total"@)
    } else if layers * per_token_layer * context > u64::MAX {
        Err("Overflow computing total KV size"@)
    } else {
        Ok(
            (
                per_token_layer,
                layer_k,
                per_token_layer * context,
                layers * per_token_layer,
                layers * per_token_layer * context,
            ),
        )
    }
}

pub open spec fn sizes_tuple(s: KvSizes) -> (int, int, int, int, int) {
    (
        s.kv_per_token_per_layer as int,
        s.per_layer_k as int,
        s.per_layer_total as int,
        s.per_token_total as int,
        s.total_kv as int,
    )
}

pub fn compute_kv_sizes(hidden_size: u64, num_layers: u64, context_length: u64, bytes_per_element: u64) -> (r: Result<KvSizes, String>)
    ensures
        match kv_sizes_spec(hidden_size, num_layers, context_length, bytes_per_element) {
            Ok(t) => r matches Ok(s) && sizes_tuple(s) == t,
            Err(m) => r matches Err(e) && e@ == m,
        },
{
    let a = match 2u64.checked_mul(hidden_size) {
        Some(a) => a,
        None => {
            return Err(String::from_str("Overflow computing per-token KV size"));
        },
    };
    let kv_per_token_per_layer = match a.checked_mul(bytes_per_element) {
        Some(x) => x,
        None => {
            return Err(String::from_str("Overflow computing per-token KV size"));
        },
    };
    let hb = match hidden_size.checked_mul(bytes_per_element) {
        Some(x) => x,
        None => {
            return Err(String::from_str("Overflow computing per-layer K size"));
        },
    };
    let per_layer_k = match hb.checked_mul(context_length) {
        Some(x) => x,
        None => {
            return Err(String::from_str("Overflow computing per-layer K size"));
        },
    };
    let per_layer_total = match kv_per_token_per_layer.checked_mul(context_length) {
        Some(x) => x,
        None => {
            return Err(String::from_str("Overflow computing per-layer total size"));
        },
    };
    let per_token_total = match num_layers.checked_mul(kv_per_token_per_layer) {
        Some(x) => x,
        None => {
            return Err(String::from_str("Overflow computing per-token KV total"));
        },
    };
    let total_kv = match per_token_total.checked_mul(context_length) {
        Some(x) => x,
        None => {
            return Err(String::from_str("Overflow computing total KV size"));
        },
    };
    Ok(KvSizes { kv_per_token_per_layer, per_layer_k, per_layer_total, per_token_total, total_kv })
}

/// The sizes agree with each other: a layer's keys and values are equal halves of
/// it, a layer over the context is its per-token share times the context, and the
/// whole cache is every layer over the context as well as every token's share
/// times the context.
pub proof fn law_kv_sizes_consistent(hidden: u64, layers: u64, context: u64, bytes: u64)
    requires
        kv_sizes_spec(hidden, layers, context, bytes) is Ok,
    ensures
        ({
            let t = kv_sizes_spec(hidden, layers, context, bytes)->Ok_0;
            &&& t.2 == 2 * t.1
            &&& t.2 == t.0 * context
            &&& t.4 == layers * t.2
            &&& t.4 == t.3 * context
        }),
{
    let h = hidden as int;
    let n = layers as int;
    let c = context as int;
    let b = bytes as int;
    assert(2 * h * b * c == 2 * (h * b * c)) by (nonlinear_arith);
    assert(n * (2 * h * b) * c == n * ((2 * h * b) * c)) by (nonlinear_arith);
}

/// The bytes of one cache element at a precision.
pub open spec fn precision_bytes(precision: Seq<char>) -> Result<u64, Seq<char>> {
    if precision == "fp16"@ {
        Ok(2u64)
    } else if precision == "fp32"@ {
        Ok(4u64)
    } else if precision == "int8"@ {
        Ok(1u64)
    } else {
        Err("Unsupported precision: "@ + precision)
    }
}

pub fn bytes_per_element(precision: &str) -> (r: Result<u64, String>)
    ensures
        match precision_bytes(precision@) {
            Ok(n) => r == Ok::<u64, String>(n),
            Err(m) => r matches Err(e) && e@ == m,
        },
{
    if str_eq(precision, "fp16") {
        Ok(2)
    } else if str_eq(precision, "fp32") {
        Ok(4)
    } else if str_eq(precision, "int8") {
        Ok(1)
    } else {
        Err(concat2("Unsupported precision: ", precision))
    }
}

pub open spec fn keys_view(keys: Seq<&str>) -> Seq<Seq<char>> {
    keys.map_values(|k: &str| k@)
}

/// The first of the keys whose value is an unsigned number.
pub open spec fn find_u64_spec(entries: Seq<(Seq<char>, GgufValueView)>, keys: Seq<Seq<char>>) -> Option<u64>
    decreases keys.len(),
{
    if keys.len() == 0 {
        None
    } else {
        match lookup(entries, keys[0]) {
            Some(v) => match value_as_u64(v) {
                Some(n) => Some(n),
                None => find_u64_spec(entries, keys.drop_first()),
            },
            None => find_u64_spec(entries, keys.drop_first()),
        }
    }
}

/// The first of the keys whose value is a non-empty string.
pub open spec fn find_string_spec(entries: Seq<(Seq<char>, GgufValueView)>, keys: Seq<Seq<char>>) -> Option<Seq<char>>
    decreases keys.len(),
{
    if keys.len() == 0 {
        None
    } else {
        match lookup(entries, keys[0]) {
            Some(GgufValueView::Str(s)) => if s.len() > 0 {
                Some(s)
            } else {
                find_string_spec(entries, keys.drop_first())
            },
            _ => find_string_spec(entries, keys.drop_first()),
        }
    }
}

pub fn find_u64(metadata: &GgufMetadata, keys: &[&str]) -> (r: Option<u64>)
    ensures
        r == find_u64_spec(metadata@.entries, keys_view(keys@)),
{
    let ghost ks = keys_view(keys@);
    let mut i: usize = 0;
    assert(ks.subrange(0, ks.len() as int) =~= ks);
    while i < keys.len()
        invariant
            i <= keys@.len(),
            ks == keys_view(keys@),
            find_u64_spec(metadata@.entries, ks) == find_u64_spec(
                metadata@.entries,
                ks.subrange(i as int, ks.len() as int),
            ),
        decreases keys@.len() - i,
    {
        let ghost rest = ks.subrange(i as int, ks.len() as int);
        assert(rest.drop_first() =~= ks.subrange(i + 1, ks.len() as int));
        assert(rest[0] == keys@[i as int]@);
        if let Some(value) = metadata.get(keys[i]) {
            if let Some(parsed) = value.as_u64() {
                return Some(parsed);
            }
        }
        i = i + 1;
    }
    None
}

pub fn find_string(metadata: &GgufMetadata, keys: &[&str]) -> (r: Option<String>)
    ensures
        match r {
            Some(s) => find_string_spec(metadata@.entries, keys_view(keys@)) == Some(s@),
            None => find_string_spec(metadata@.entries, keys_view(keys@)) is None,
        },
{
    let ghost ks = keys_view(keys@);
    let mut i: usize = 0;
    assert(ks.subrange(0, ks.len() as int) =~= ks);
    while i < keys.len()
        invariant
            i <= keys@.len(),
            ks == keys_view(keys@),
            find_string_spec(metadata@.entries, ks) == find_string_spec(
                metadata@.entries,
                ks.subrange(i as int, ks.len() as int),
            ),
        decreases keys@.len() - i,
    {
        let ghost rest = ks.subrange(i as int, ks.len() as int);
        assert(rest.drop_first() =~= ks.subrange(i + 1, ks.len() as int));
        assert(rest[0] == keys@[i as int]@);
        if let Some(value) = metadata.get(keys[i]) {
            if let GgufValue::String(parsed) = value {
                if parsed.as_str().unicode_len() > 0 {
                    return Some(parsed.clone());
                }
            }
        }
        i = i + 1;
    }
    None
}

pub open spec fn architecture_keys() -> Seq<Seq<char>> {
    seq!["general.architecture"@, "llama.architecture"@, "model.architecture"@]
}

pub open spec fn hidden_size_keys() -> Seq<Seq<char>> {
    seq![
        "llama.embedding_length"@,
        "llama.hidden_size"@,
        "llama.n_embd"@,
        "general.embedding_length"@,
    ]
}

pub open spec fn layer_count_keys() -> Seq<Seq<char>> {
    seq!["llama.block_count"@, "llama.n_layer"@, "general.layer_count"@]
}

pub open spec fn head_count_keys() -> Seq<Seq<char>> {
    seq!["llama.attention.head_count"@, "llama.n_head"@, "general.head_count"@]
}

pub open spec fn head_count_kv_keys() -> Seq<Seq<char>> {
    seq!["llama.attention.head_count_kv"@, "llama.n_head_kv"@, "general.head_count_kv"@]
}

/// The shape of a model, as its metadata gives it.
pub struct ModelShape {
    pub architecture: Option<String>,
    pub hidden_size: u64,
    pub num_layers: u64,
    pub head_count: Option<u64>,
    pub head_count_kv: Option<u64>,
}

/// The shape read from metadata; the hidden size and the layer count are required.
pub fn model_shape(metadata: &GgufMetadata) -> (r: Result<ModelShape, String>)
    ensures
        ({
            let es = metadata@.entries;
            match (find_u64_spec(es, hidden_size_keys()), find_u64_spec(es, layer_count_keys())) {
                (None, _) => r matches Err(e) && e@ == "Missing hidden size in GGUF metadata"@,
                (Some(_), None) => r matches Err(e) && e@ == "Missing layer count in GGUF metadata"@,
                (Some(h), Some(n)) => r matches Ok(s) && s.hidden_size == h && s.num_layers == n
                    && s.head_count == find_u64_spec(es, head_count_keys()) && s.head_count_kv
                    == find_u64_spec(es, head_count_kv_keys()) && match s.architecture {
                    Some(a) => find_string_spec(es, architecture_keys()) == Some(a@),
                    None => find_string_spec(es, architecture_keys()) is None,
                },
            }
        }),
{
    let arch_keys: [&str; 3] = ["general.architecture", "llama.architecture", "model.architecture"];
    assert(keys_view(arch_keys@) =~= architecture_keys());
    let hidden_keys: [&str; 4] = [
        "llama.embedding_length",
        "llama.hidden_size",
        "llama.n_embd",
        "general.embedding_length",
    ];
    assert(keys_view(hidden_keys@) =~= hidden_size_keys());
    let layer_keys: [&str; 3] = ["llama.block_count", "llama.n_layer", "general.layer_count"];
    assert(keys_view(layer_keys@) =~= layer_count_keys());
    let head_keys: [&str; 3] = ["llama.attention.head_count", "llama.n_head", "general.head_count"];
    assert(keys_view(head_keys@) =~= head_count_keys());
    let head_kv_keys: [&str; 3] = [
        "llama.attention.head_count_kv",
        "llama.n_head_kv",
        "general.head_count_kv",
    ];
    assert(keys_view(head_kv_keys@) =~= head_count_kv_keys());
    let architecture = find_string(metadata, &arch_keys);
    let hidden_size = match find_u64(metadata, &hidden_keys) {
        Some(h) => h,
        None => {
            return Err(String::from_str("Missing hidden size in GGUF metadata"));
        },
    };
    let num_layers = match find_u64(metadata, &layer_keys) {
        Some(n) => n,
        None => {
            return Err(String::from_str("Missing layer count in GGUF metadata"));
        },
    };
    let head_count = find_u64(metadata, &head_keys);
    let head_count_kv = find_u64(metadata, &head_kv_keys);
    Ok(ModelShape { architecture, hidden_size, num_layers, head_count, head_count_kv })
}

/// The rows of a per-layer listing: every layer when there are at most 16, else the
/// first eight, a gap (`None`), and the last four.
pub open spec fn layer_view_spec(n: u64) -> Seq<Option<u64>> {
    if n <= 16 {
        Seq::new(n as nat, |i: int| Some((i + 1) as u64))
    } else {
        Seq::new(8, |i: int| Some((i + 1) as u64)) + seq![None] + Seq::new(
            4,
            |i: int| Some((n - 3 + i) as u64),
        )
    }
}

pub fn layer_view(num_layers: u64) -> (r: Vec<Option<u64>>)
    ensures
        r@ == layer_view_spec(num_layers),
{
    let mut view: Vec<Option<u64>> = Vec::new();
    if num_layers <= 16 {
        let mut i: u64 = 0;
        while i < num_layers
            invariant
                i <= num_layers <= 16,
                view@ == Seq::new(i as nat, |k: int| Some((k + 1) as u64)),
            decreases num_layers - i,
        {
            view.push(Some(i + 1));
            i = i + 1;
            assert(view@ =~= Seq::new(i as nat, |k: int| Some((k + 1) as u64)));
        }
        return view;
    }
    let mut i: u64 = 0;
    while i < 8
        invariant
            i <= 8,
            view@ == Seq::new(i as nat, |k: int| Some((k + 1) as u64)),
        decreases 8 - i,
    {
        view.push(Some(i + 1));
        i = i + 1;
        assert(view@ =~= Seq::new(i as nat, |k: int| Some((k + 1) as u64)));
    }
    view.push(None);
    let ghost head = view@;
    let mut j: u64 = 0;
    while j < 4
        invariant
            j <= 4,
            num_layers > 16,
            view@ == head + Seq::new(j as nat, |k: int| Some((num_layers - 3 + k) as u64)),
        decreases 4 - j,
    {
        view.push(Some(num_layers - 3 + j));
        j = j + 1;
        assert(view@ =~= head + Seq::new(j as nat, |k: int| Some((num_layers - 3 + k) as u64)));
    }
    assert(view@ =~= layer_view_spec(num_layers));
    view
}

/// How many layers a listing leaves out.
pub fn omitted_layers(num_layers: u64) -> (r: u64)
    ensures
        r == if num_layers <= 16 {
            0
        } else {
            num_layers - 12
        },
{
    if num_layers <= 16 {
        0
    } else {
        num_layers - 12
    }
}

/// `a * b`, or the largest `u64` when the product does not fit.
pub open spec fn sat_mul(a: u64, b: u64) -> u64 {
    if a * b > u64::MAX {
        u64::MAX
    } else {
        (a * b) as u64
    }
}

/// The context lengths `ctx, ctx + step, ...` up to `max`, each with the cache size
/// at that length.
pub open spec fn chart_points_from(ctx: int, max: int, step: int, per_token: u64) -> Seq<(u64, u64)>
    decreases max + step - ctx,
    when step > 0
{
    if ctx > max || ctx <= 0 {
        Seq::empty()
    } else {
        seq![(ctx as u64, sat_mul(per_token, ctx as u64))] + chart_points_from(
            ctx + step,
            max,
            step,
            per_token,
        )
    }
}

/// The step (at least one) and the largest context length (at least one) of a chart.
pub open spec fn chart_step(step: u64) -> int {
    if step >= 1 {
        step as int
    } else {
        1
    }
}

pub open spec fn chart_max(context_length: u64) -> int {
    if context_length >= 1 {
        context_length as int
    } else {
        1
    }
}

/// The points of the memory-by-context-length chart: every multiple of the step up
/// to the context length, with the cache size there.
pub open spec fn chart_points_spec(context_length: u64, per_token: u64, step: u64) -> Seq<(u64, u64)> {
    chart_points_from(chart_step(step), chart_max(context_length), chart_step(step), per_token)
}

fn sat_mul_exec(a: u64, b: u64) -> (r: u64)
    ensures
        r == sat_mul(a, b),
{
    match a.checked_mul(b) {
        Some(x) => x,
        None => u64::MAX,
    }
}

/// The chart's points. A context length of `u64::MAX` is left out: the chart would
/// never end.
pub fn context_chart_points(context_length: u64, per_token_total: u64, step: u64) -> (r: Vec<
    (u64, u64),
>)
    requires
        context_length < u64::MAX,
    ensures
        r@ == chart_points_spec(context_length, per_token_total, step),
{
    let step = if step >= 1 {
        step
    } else {
        1
    };
    let max_context = if context_length >= 1 {
        context_length
    } else {
        1
    };
    let mut out: Vec<(u64, u64)> = Vec::new();
    let mut ctx = step;
    while ctx <= max_context
        invariant
            1 <= step,
            1 <= ctx,
            max_context < u64::MAX,
            chart_points_from(step as int, max_context as int, step as int, per_token_total)
                == out@ + chart_points_from(ctx as int, max_context as int, step as int, per_token_total),
        decreases max_context + step - ctx,
    {
        let total = sat_mul_exec(per_token_total, ctx);
        let ghost before = out@;
        out.push((ctx, total));
        assert(chart_points_from(ctx as int, max_context as int, step as int, per_token_total)
            == seq![(ctx, total)] + chart_points_from(ctx + step, max_context as int, step as int, per_token_total));
        let saturated = ctx > u64::MAX - step;
        let next = if !saturated {
            ctx + step
        } else {
            u64::MAX
        };
        assert(out@ =~= before + seq![(ctx, total)]);
        if saturated {
            assert(chart_points_from(ctx + step, max_context as int, step as int, per_token_total)
                =~= Seq::<(u64, u64)>::empty());
            assert(chart_points_from(next as int, max_context as int, step as int, per_token_total)
                =~= Seq::<(u64, u64)>::empty());
        }
        assert(chart_points_from(step as int, max_context as int, step as int, per_token_total)
            =~= out@ + chart_points_from(next as int, max_context as int, step as int, per_token_total));
        ctx = next;
    }
    assert(out@ =~= out@ + chart_points_from(ctx as int, max_context as int, step as int, per_token_total));
    out
}

/// The first context length of a chart whose cache fills the available memory.
pub open spec fn context_limit_spec(points: Seq<(u64, u64)>, ram: u64) -> Option<u64>
    decreases points.len(),
{
    if points.len() == 0 {
        None
    } else if points[0].1 >= ram {
        Some(points[0].0)
    } else {
        context_limit_spec(points.drop_first(), ram)
    }
}

pub fn context_limit(points: &Vec<(u64, u64)>, ram: u64) -> (r: Option<u64>)
    ensures
        r == context_limit_spec(points@, ram),
{
    let mut i: usize = 0;
    assert(points@.subrange(0, points@.len() as int) =~= points@);
    while i < points.len()
        invariant
            i <= points@.len(),
            context_limit_spec(points@, ram) == context_limit_spec(
                points@.subrange(i as int, points@.len() as int),
                ram,
            ),
        decreases points@.len() - i,
    {
        let ghost rest = points@.subrange(i as int, points@.len() as int);
        assert(rest.drop_first() =~= points@.subrange(i + 1, points@.len() as int));
        let (ctx, total) = points[i];
        if total >= ram {
            return Some(ctx);
        }
        i = i + 1;
    }
    assert(points@.subrange(i as int, points@.len() as int) =~= Seq::<(u64, u64)>::empty());
    None
}

/// The points never pass the context length and are spaced by the step.
pub proof fn law_chart_points_bounded(context_length: u64, per_token: u64, step: u64, k: int)
    requires
        0 <= k < chart_points_spec(context_length, per_token, step).len(),
    ensures
        chart_points_spec(context_length, per_token, step)[k].0 <= chart_max(context_length),
        chart_points_spec(context_length, per_token, step)[k].0 == (k + 1) * chart_step(step),
{
    lemma_chart_points(chart_step(step), chart_max(context_length), chart_step(step), per_token, k);
    let st = chart_step(step);
    assert(st + k * st == (k + 1) * st) by (nonlinear_arith);
}

proof fn lemma_chart_points(ctx: int, max: int, step: int, per_token: u64, k: int)
    requires
        step > 0,
        ctx > 0,
        max <= u64::MAX,
        0 <= k < chart_points_from(ctx, max, step, per_token).len(),
    ensures
        chart_points_from(ctx, max, step, per_token)[k].0 <= max,
        chart_points_from(ctx, max, step, per_token)[k].0 == ctx + k * step,
    decreases max + step - ctx,
{
    if k > 0 {
        lemma_chart_points(ctx + step, max, step, per_token, k - 1);
        assert(ctx + k * step == (ctx + step) + (k - 1) * step) by (nonlinear_arith);
    }
}


/// The settings of a `kv-inspect` run after the profile's defaults are applied.
pub struct KvSettings {
    pub model: String,
    pub context_length: u64,
    pub precision: String,
}

pub open spec fn profile_view_of(profile: Option<&Profile>) -> Option<ProfileView> {
    match profile {
        Some(p) => Some(p@),
        None => None,
    }
}

/// The model: the flag's, else the profile's when it is not empty.
pub open spec fn kv_model_spec(args: KvInspectArgsView, profile: Option<ProfileView>) -> Option<Seq<char>> {
    match args.model {
        Some(m) => Some(m),
        None => match profile {
            Some(p) => match p.model {
                Some(m) => if m.len() > 0 {
                    Some(m)
                } else {
                    None
                },
                None => None,
            },
            None => None,
        },
    }
}

/// The context length: the flag's, else the profile's, else 2048.
pub open spec fn kv_context_spec(args: KvInspectArgsView, profile: Option<ProfileView>) -> u64 {
    match args.context_length {
        Some(c) => c,
        None => match profile {
            Some(p) => match p.context_length {
                Some(c) => c,
                None => 2048,
            },
            None => 2048,
        },
    }
}

/// The precision before it is lower-cased: the flag's, else the profile's, else `fp16`.
pub open spec fn kv_precision_spec(args: KvInspectArgsView, profile: Option<ProfileView>) -> Seq<char> {
    match args.precision {
        Some(c) => c,
        None => match profile {
            Some(p) => match p.precision {
                Some(c) => c,
                None => "fp16"@,
            },
            None => "fp16"@,
        },
    }
}

/// Applies the profile loaded for `--profile`, if any, and the defaults; a model is
/// required.
pub fn kv_settings(args: &KvInspectArgs, profile: Option<&Profile>) -> (r: Result<KvSettings, String>)
    ensures
        match kv_model_spec(args@, profile_view_of(profile)) {
            None => r matches Err(e) && e@ == "Missing --model for kv-inspect"@,
            Some(m) => r matches Ok(s) && s.model@ == m && s.context_length == kv_context_spec(
                args@,
                profile_view_of(profile),
            ) && s.precision@ == lowercase(kv_precision_spec(args@, profile_view_of(profile))),
        },
{
    let mut model: Option<String> = match &args.model {
        Some(m) => Some(m.clone()),
        None => None,
    };
    let mut context_length: Option<u64> = args.context_length;
    let mut precision: Option<String> = match &args.precision {
        Some(p) => Some(p.clone()),
        None => None,
    };
    if let Some(p) = profile {
        if model.is_none() {
            if let Some(pm) = &p.model {
                if pm.as_str().unicode_len() > 0 {
                    model = Some(pm.clone());
                }
            }
        }
        if context_length.is_none() {
            context_length = p.context_length;
        }
        if precision.is_none() {
            precision = match &p.precision {
                Some(x) => Some(x.clone()),
                None => None,
            };
        }
    }
    let model = match model {
        Some(m) => m,
        None => {
            return Err(String::from_str("Missing --model for kv-inspect"));
        },
    };
    let context_length = match context_length {
        Some(c) => c,
        None => 2048,
    };
    let precision = match &precision {
        Some(p) => to_lowercase(p.as_str()),
        None => to_lowercase("fp16"),
    };
    Ok(KvSettings { model, context_length, precision })
}

/// What a `kv-inspect` report shows.
pub struct KvReport {
    pub model: String,
    pub shape: ModelShape,
    pub context_length: u64,
    pub precision: String,
    pub bytes_per_element: u64,
    pub sizes: KvSizes,
}

/// The report for a model's metadata, or the first error: a missing hidden size or
/// layer count, an unknown precision, or a size that overflows.
pub fn kv_report(settings: KvSettings, metadata: &GgufMetadata) -> (r: Result<KvReport, String>)
    ensures
        ({
            let es = metadata@.entries;
            match (find_u64_spec(es, hidden_size_keys()), find_u64_spec(es, layer_count_keys())) {
                (None, _) => r matches Err(e) && e@ == "Missing hidden size in GGUF metadata"@,
                (Some(_), None) => r matches Err(e) && e@ == "Missing layer count in GGUF metadata"@,
                (Some(h), Some(n)) => match precision_bytes(settings.precision@) {
                    Err(m) => r matches Err(e) && e@ == m,
                    Ok(b) => match kv_sizes_spec(h, n, settings.context_length, b) {
                        Err(m) => r matches Err(e) && e@ == m,
                        Ok(t) => r matches Ok(rep) && rep.model@ == settings.model@
                            && rep.shape.hidden_size == h && rep.shape.num_layers == n
                            && rep.shape.head_count == find_u64_spec(es, head_count_keys())
                            && rep.shape.head_count_kv == find_u64_spec(es, head_count_kv_keys())
                            && opt_str_view(rep.shape.architecture) == find_string_spec(
                            es,
                            architecture_keys(),
                        ) && rep.context_length == settings.context_length && rep.precision@
                            == settings.precision@ && rep.bytes_per_element == b
                            && sizes_tuple(rep.sizes) == t,
                    },
                },
            }
        }),
{
    let shape = model_shape(metadata)?;
    let bytes = bytes_per_element(settings.precision.as_str())?;
    let sizes = compute_kv_sizes(shape.hidden_size, shape.num_layers, settings.context_length, bytes)?;
    Ok(
        KvReport {
            model: settings.model,
            shape,
            context_length: settings.context_length,
            precision: settings.precision,
            bytes_per_element: bytes,
            sizes,
        },
    )
}


/// One entry of the layer chart.
pub open spec fn layer_entry_json(layer: nat, total: u64) -> Seq<char> {
    "{\"layer\":"@ + decimal(layer) + ",\"total_kv_bytes\":"@ + decimal(total as nat) + seq!['}']
}

/// The entries for layers 1 to `n`, comma-separated.
pub open spec fn layer_entries_json(n: nat, total: u64) -> Seq<char>
    decreases n,
{
    if n == 0 {
        Seq::empty()
    } else if n == 1 {
        layer_entry_json(1, total)
    } else {
        layer_entries_json((n - 1) as nat, total) + seq![','] + layer_entry_json(n, total)
    }
}

/// `"layer_chart":[...],`: every layer with its cache size.
pub open spec fn layer_chart_json(num_layers: u64, total: u64) -> Seq<char> {
    "\"layer_chart\":["@ + layer_entries_json(num_layers as nat, total) + seq![']', ',']
}

fn push_layer_chart(out: &mut String, num_layers: u64, per_layer_total: u64)
    ensures
        final(out)@ == old(out)@ + layer_chart_json(num_layers, per_layer_total),
{
    out.append("\"layer_chart\":[");
    let mut layer: u64 = 0;
    while layer < num_layers
        invariant
            layer <= num_layers,
            out@ == old(out)@ + "\"layer_chart\":["@ + layer_entries_json(layer as nat, per_layer_total),
        decreases num_layers - layer,
    {
        let ghost before = out@;
        if layer > 0 {
            push_char(out, ',');
        }
        layer = layer + 1;
        out.append("{\"layer\":");
        push_decimal(out, layer);
        out.append(",\"total_kv_bytes\":");
        push_decimal(out, per_layer_total);
        push_char(out, '}');
        if layer == 1 {
            assert(out@ =~= before + layer_entry_json(1, per_layer_total));
        } else {
            assert(out@ =~= before + seq![','] + layer_entry_json(layer as nat, per_layer_total));
        }
    }
    push_char(out, ']');
    push_char(out, ',');
    assert(out@ =~= old(out)@ + layer_chart_json(num_layers, per_layer_total));
}

/// One entry of the context chart, with the share of the available memory when
/// there is one.
pub open spec fn context_entry_json(point: (u64, u64), ratio: Option<Seq<char>>) -> Seq<char> {
    "{\"context_length\":"@ + decimal(point.0 as nat) + ",\"total_kv_bytes\":"@ + decimal(
        point.1 as nat,
    ) + match ratio {
        Some(r) => ",\"ratio\":"@ + r,
        None => Seq::empty(),
    } + seq!['}']
}

pub open spec fn ratio_at(ratios: Option<Seq<Seq<char>>>, i: int) -> Option<Seq<char>> {
    match ratios {
        Some(rs) => Some(rs[i]),
        None => None,
    }
}

/// The first `n` entries of the context chart, comma-separated.
pub open spec fn context_entries_json(points: Seq<(u64, u64)>, ratios: Option<Seq<Seq<char>>>, n: nat) -> Seq<char>
    decreases n,
{
    if n == 0 {
        Seq::empty()
    } else if n == 1 {
        context_entry_json(points[0], ratio_at(ratios, 0))
    } else {
        context_entries_json(points, ratios, (n - 1) as nat) + seq![','] + context_entry_json(
            points[n - 1],
            ratio_at(ratios, n - 1),
        )
    }
}

/// `"context_chart":[...],`: the chart's points, each with its ratio when given.
pub open spec fn context_chart_json(points: Seq<(u64, u64)>, ratios: Option<Seq<Seq<char>>>) -> Seq<char> {
    "\"context_chart\":["@ + context_entries_json(points, ratios, points.len()) + seq![']', ',']
}

fn push_context_entry(out: &mut String, point: (u64, u64), ratio: Option<&String>)
    ensures
        final(out)@ == old(out)@ + context_entry_json(
            point,
            match ratio {
                Some(r) => Some(r@),
                None => None,
            },
        ),
{
    out.append("{\"context_length\":");
    push_decimal(out, point.0);
    out.append(",\"total_kv_bytes\":");
    push_decimal(out, point.1);
    let ghost mid = out@;
    if let Some(r) = ratio {
        out.append(",\"ratio\":");
        out.append(r.as_str());
        assert(out@ =~= mid + ",\"ratio\":"@ + r@);
    }
    push_char(out, '}');
    assert(out@ =~= old(out)@ + context_entry_json(
        point,
        match ratio {
            Some(r) => Some(r@),
            None => None,
        },
    ));
}

fn push_context_chart(out: &mut String, points: &Vec<(u64, u64)>, ratios: Option<&Vec<String>>)
    requires
        ratios matches Some(rs) ==> rs@.len() == points@.len(),
    ensures
        final(out)@ == old(out)@ + context_chart_json(
            points@,
            match ratios {
                Some(rs) => Some(strs_view(rs@)),
                None => None,
            },
        ),
{
    let ghost rv: Option<Seq<Seq<char>>> = match ratios {
        Some(rs) => Some(strs_view(rs@)),
        None => None,
    };
    out.append("\"context_chart\":[");
    let mut i: usize = 0;
    while i < points.len()
        invariant
            i <= points@.len(),
            ratios matches Some(rs) ==> rs@.len() == points@.len(),
            rv == match ratios {
                Some(rs) => Some(strs_view(rs@)),
                None => None,
            },
            out@ == old(out)@ + "\"context_chart\":["@ + context_entries_json(points@, rv, i as nat),
        decreases points@.len() - i,
    {
        let ghost before = out@;
        if i > 0 {
            push_char(out, ',');
        }
        let ratio: Option<&String> = match ratios {
            Some(rs) => Some(&rs[i]),
            None => None,
        };
        push_context_entry(out, points[i], ratio);
        assert(ratio_at(rv, i as int) == match ratio {
            Some(r) => Some(r@),
            None => None::<Seq<char>>,
        });
        if i == 0 {
            assert(out@ =~= before + context_entry_json(points@[0], ratio_at(rv, 0)));
        } else {
            assert(out@ =~= before + seq![','] + context_entry_json(
                points@[i as int],
                ratio_at(rv, i as int),
            ));
        }
        i = i + 1;
    }
    push_char(out, ']');
    push_char(out, ',');
    assert(out@ =~= old(out)@ + context_chart_json(points@, rv));
}

/// A `"key":n,` field when there is a number.
pub open spec fn opt_u64_field(key: Seq<char>, v: Option<u64>) -> Seq<char> {
    match v {
        Some(n) => json_field(key, decimal(n as nat), false),
        None => Seq::empty(),
    }
}

/// A `"key":"text",` field when there is a text.
pub open spec fn opt_str_field(key: Seq<char>, v: Option<Seq<char>>) -> Seq<char> {
    match v {
        Some(t) => json_field(key, t, true),
        None => Seq::empty(),
    }
}

pub open spec fn u64_field(key: Seq<char>, n: u64) -> Seq<char> {
    json_field(key, decimal(n as nat), false)
}

/// The model's fields: its name and shape, the context length and the precision.
pub open spec fn kv_model_fields(rep: KvReport) -> Seq<char> {
    json_field("model"@, rep.model@, true) + opt_str_field(
        "architecture"@,
        opt_str_view(rep.shape.architecture),
    ) + u64_field("hidden_size"@, rep.shape.hidden_size) + opt_u64_field(
        "head_count"@,
        rep.shape.head_count,
    ) + opt_u64_field("head_count_kv"@, rep.shape.head_count_kv) + u64_field(
        "num_layers"@,
        rep.shape.num_layers,
    ) + u64_field("context_length"@, rep.context_length) + json_field(
        "precision"@,
        rep.precision@,
        true,
    ) + u64_field("bytes_per_element"@, rep.bytes_per_element)
}

/// The size fields.
pub open spec fn kv_size_fields(rep: KvReport) -> Seq<char> {
    u64_field("layer_k_bytes"@, rep.sizes.per_layer_k) + u64_field(
        "layer_v_bytes"@,
        rep.sizes.per_layer_k,
    ) + u64_field("layer_total_bytes"@, rep.sizes.per_layer_total) + u64_field(
        "kv_per_token_per_layer"@,
        rep.sizes.kv_per_token_per_layer,
    ) + u64_field("kv_per_token_total"@, rep.sizes.per_token_total) + u64_field(
        "total_kv_bytes"@,
        rep.sizes.total_kv,
    )
}

/// The available memory and how many tokens' cache it holds.
pub open spec fn kv_ram_fields(rep: KvReport, ram: Option<u64>) -> Seq<char> {
    match ram {
        Some(r) => u64_field("available_ram_bytes"@, r) + u64_field(
            "max_tokens_estimate"@,
            (r / rep.sizes.per_token_total) as u64,
        ),
        None => Seq::empty(),
    }
}

/// The context chart when a step is given; its entries carry the ratios only when
/// there is an available memory.
pub open spec fn kv_context_chart_field(
    rep: KvReport,
    ram: Option<u64>,
    step: Option<u64>,
    ratios: Option<Seq<Seq<char>>>,
) -> Seq<char> {
    match step {
        Some(st) => context_chart_json(
            chart_points_spec(rep.context_length, rep.sizes.per_token_total, st),
            if ram is Some {
                ratios
            } else {
                None
            },
        ),
        None => Seq::empty(),
    }
}

pub open spec fn kv_layer_chart_field(rep: KvReport, layer_chart: bool) -> Seq<char> {
    if layer_chart {
        layer_chart_json(rep.shape.num_layers, rep.sizes.per_layer_total)
    } else {
        Seq::empty()
    }
}

/// The fields of the JSON report, each with its trailing comma.
pub open spec fn kv_json_fields(
    rep: KvReport,
    ram: Option<u64>,
    step: Option<u64>,
    ratios: Option<Seq<Seq<char>>>,
    layer_chart: bool,
) -> Seq<char> {
    kv_model_fields(rep) + kv_size_fields(rep) + kv_ram_fields(rep, ram) + kv_context_chart_field(
        rep,
        ram,
        step,
        ratios,
    ) + kv_layer_chart_field(rep, layer_chart)
}

/// The JSON report: the fields between braces, without the last comma.
pub open spec fn kv_json_spec(
    rep: KvReport,
    ram: Option<u64>,
    step: Option<u64>,
    ratios: Option<Seq<Seq<char>>>,
    layer_chart: bool,
) -> Seq<char> {
    seq!['{'] + kv_json_fields(rep, ram, step, ratios, layer_chart).drop_last() + seq!['}']
}

fn push_u64_field(out: &mut String, key: &str, n: u64)
    ensures
        final(out)@ == old(out)@ + u64_field(key@, n),
{
    let v = u64_to_string(n);
    push_json_field(out, key, v.as_str(), false);
}

fn push_model_fields(out: &mut String, report: &KvReport)
    ensures
        final(out)@ == old(out)@ + kv_model_fields(*report),
{
    let ghost o = out@;
    push_json_field(out, "model", report.model.as_str(), true);
    let ghost acc = json_field("model"@, report.model@, true);
    let ghost piece = opt_str_field("architecture"@, opt_str_view(report.shape.architecture));
    if let Some(a) = &report.shape.architecture {
        push_json_field(out, "architecture", a.as_str(), true);
    } else {
        assert(out@ =~= out@ + piece);
    }
    proof {
        lemma_concat_associative(o, acc, piece);
        acc = acc + piece;
    }
    let ghost piece = u64_field("hidden_size"@, report.shape.hidden_size);
    push_u64_field(out, "hidden_size", report.shape.hidden_size);
    proof {
        lemma_concat_associative(o, acc, piece);
        acc = acc + piece;
    }
    let ghost piece = opt_u64_field("head_count"@, report.shape.head_count);
    if let Some(h) = report.shape.head_count {
        push_u64_field(out, "head_count", h);
    } else {
        assert(out@ =~= out@ + piece);
    }
    proof {
        lemma_concat_associative(o, acc, piece);
        acc = acc + piece;
    }
    let ghost piece = opt_u64_field("head_count_kv"@, report.shape.head_count_kv);
    if let Some(h) = report.shape.head_count_kv {
        push_u64_field(out, "head_count_kv", h);
    } else {
        assert(out@ =~= out@ + piece);
    }
    proof {
        lemma_concat_associative(o, acc, piece);
        acc = acc + piece;
    }
    let ghost piece = u64_field("num_layers"@, report.shape.num_layers);
    push_u64_field(out, "num_layers", report.shape.num_layers);
    proof {
        lemma_concat_associative(o, acc, piece);
        acc = acc + piece;
    }
    let ghost piece = u64_field("context_length"@, report.context_length);
    push_u64_field(out, "context_length", report.context_length);
    proof {
        lemma_concat_associative(o, acc, piece);
        acc = acc + piece;
    }
    let ghost piece = json_field("precision"@, report.precision@, true);
    push_json_field(out, "precision", report.precision.as_str(), true);
    proof {
        lemma_concat_associative(o, acc, piece);
        acc = acc + piece;
    }
    let ghost piece = u64_field("bytes_per_element"@, report.bytes_per_element);
    push_u64_field(out, "bytes_per_element", report.bytes_per_element);
    proof {
        lemma_concat_associative(o, acc, piece);
        acc = acc + piece;
    }
    assert(acc == kv_model_fields(*report));
}

fn push_size_fields(out: &mut String, report: &KvReport)
    ensures
        final(out)@ == old(out)@ + kv_size_fields(*report),
        kv_size_fields(*report).len() > 0,
        kv_size_fields(*report).last() == ',',
{
    push_u64_field(out, "layer_k_bytes", report.sizes.per_layer_k);
    push_u64_field(out, "layer_v_bytes", report.sizes.per_layer_k);
    push_u64_field(out, "layer_total_bytes", report.sizes.per_layer_total);
    push_u64_field(out, "kv_per_token_per_layer", report.sizes.kv_per_token_per_layer);
    push_u64_field(out, "kv_per_token_total", report.sizes.per_token_total);
    push_u64_field(out, "total_kv_bytes", report.sizes.total_kv);
    assert(out@ =~= old(out)@ + kv_size_fields(*report));
    proof {
        lemma_field_ends_with_comma("total_kv_bytes"@, decimal(report.sizes.total_kv as nat), false);
        lemma_append_last(
            u64_field("layer_k_bytes"@, report.sizes.per_layer_k) + u64_field(
                "layer_v_bytes"@,
                report.sizes.per_layer_k,
            ) + u64_field("layer_total_bytes"@, report.sizes.per_layer_total) + u64_field(
                "kv_per_token_per_layer"@,
                report.sizes.kv_per_token_per_layer,
            ) + u64_field("kv_per_token_total"@, report.sizes.per_token_total),
            u64_field("total_kv_bytes"@, report.sizes.total_kv),
        );
    }
}

proof fn lemma_field_ends_with_comma(key: Seq<char>, value: Seq<char>, quoted: bool)
    ensures
        json_field(key, value, quoted).len() > 0,
        json_field(key, value, quoted).last() == ',',
{
    let f = json_field(key, value, quoted);
    assert(f == f.subrange(0, f.len() - 1) + seq![',']);
    lemma_append_last(f.subrange(0, f.len() - 1), seq![',']);
}

proof fn lemma_chart_ends_with_comma(head: Seq<char>, body: Seq<char>)
    ensures
        (head + body + seq![']', ',']).len() > 0,
        (head + body + seq![']', ',']).last() == ',',
{
    lemma_append_last(head + body, seq![']', ',']);
}

/// Appending pieces that are empty or end with a comma keeps a text ending with one.
proof fn lemma_comma_kept(a: Seq<char>, b: Seq<char>)
    requires
        a.len() > 0,
        a.last() == ',',
        b.len() == 0 || b.last() == ',',
    ensures
        (a + b).len() > 0,
        (a + b).last() == ',',
{
    if b.len() == 0 {
        assert(a + b =~= a);
    } else {
        lemma_append_last(a, b);
    }
}

/// The report's fields end with a comma.
proof fn lemma_fields_end_with_comma(
    rep: KvReport,
    ram: Option<u64>,
    step: Option<u64>,
    ratios: Option<Seq<Seq<char>>>,
    layer_chart: bool,
)
    requires
        kv_size_fields(rep).len() > 0,
        kv_size_fields(rep).last() == ',',
    ensures
        kv_json_fields(rep, ram, step, ratios, layer_chart).len() > 0,
        kv_json_fields(rep, ram, step, ratios, layer_chart).last() == ',',
{
    let m = kv_model_fields(rep);
    let sz = kv_size_fields(rep);
    let r = kv_ram_fields(rep, ram);
    let c = kv_context_chart_field(rep, ram, step, ratios);
    let l = kv_layer_chart_field(rep, layer_chart);
    lemma_append_last(m, sz);
    if let Some(x) = ram {
        lemma_field_ends_with_comma("max_tokens_estimate"@, decimal((x / rep.sizes.per_token_total) as u64 as nat), false);
        lemma_append_last(
            u64_field("available_ram_bytes"@, x),
            u64_field("max_tokens_estimate"@, (x / rep.sizes.per_token_total) as u64),
        );
    }
    lemma_comma_kept(m + sz, r);
    if let Some(st) = step {
        let pts = chart_points_spec(rep.context_length, rep.sizes.per_token_total, st);
        let rs = if ram is Some {
            ratios
        } else {
            None
        };
        lemma_chart_ends_with_comma("\"context_chart\":["@, context_entries_json(pts, rs, pts.len()));
    }
    lemma_comma_kept(m + sz + r, c);
    if layer_chart {
        lemma_chart_ends_with_comma(
            "\"layer_chart\":["@,
            layer_entries_json(rep.shape.num_layers as nat, rep.sizes.per_layer_total),
        );
    }
    lemma_comma_kept(m + sz + r + c, l);
}

fn push_ram_fields(out: &mut String, report: &KvReport, available_ram: Option<u64>)
    requires
        available_ram is Some ==> report.sizes.per_token_total > 0,
    ensures
        final(out)@ == old(out)@ + kv_ram_fields(*report, available_ram),
{
    if let Some(ram) = available_ram {
        push_u64_field(out, "available_ram_bytes", ram);
        let max_tokens = ram / report.sizes.per_token_total;
        push_u64_field(out, "max_tokens_estimate", max_tokens);
    }
    assert(out@ =~= old(out)@ + kv_ram_fields(*report, available_ram));
}

fn push_context_chart_field(
    out: &mut String,
    report: &KvReport,
    available_ram: Option<u64>,
    context_step: Option<u64>,
    ratios: Option<&Vec<String>>,
)
    requires
        context_step is Some ==> report.context_length < u64::MAX,
        available_ram is Some ==> match context_step {
            Some(st) => ratios matches Some(rs) && rs@.len() == chart_points_spec(
                report.context_length,
                report.sizes.per_token_total,
                st,
            ).len(),
            None => true,
        },
    ensures
        final(out)@ == old(out)@ + kv_context_chart_field(
            *report,
            available_ram,
            context_step,
            match ratios {
                Some(rs) => Some(strs_view(rs@)),
                None => None,
            },
        ),
{
    if let Some(step) = context_step {
        let points = context_chart_points(report.context_length, report.sizes.per_token_total, step);
        if available_ram.is_some() {
            push_context_chart(out, &points, ratios);
        } else {
            push_context_chart(out, &points, None);
        }
    } else {
        assert(out@ =~= out@ + Seq::<char>::empty());
    }
}

fn push_layer_chart_field(out: &mut String, report: &KvReport, layer_chart: bool)
    ensures
        final(out)@ == old(out)@ + kv_layer_chart_field(*report, layer_chart),
{
    if layer_chart {
        push_layer_chart(out, report.shape.num_layers, report.sizes.per_layer_total);
    } else {
        assert(out@ =~= out@ + Seq::<char>::empty());
    }
}

/// The whole object once the fields are written: `{` and the fields but their last
/// comma, then `}`.
proof fn lemma_close_object(start: Seq<char>, fields: Seq<char>)
    requires
        start == seq!['{'],
        fields.len() > 0,
    ensures
        (start + fields).drop_last() + seq!['}'] == seq!['{'] + fields.drop_last() + seq!['}'],
{
    assert((start + fields).drop_last() =~= start + fields.drop_last());
}

/// Writes the report as one JSON object. `available_ram` adds the memory estimate,
/// `context_step` the context chart (whose ratios, one per point, are given when
/// there is an available memory), `layer_chart` the layer chart.
pub fn kv_json(
    report: &KvReport,
    available_ram: Option<u64>,
    context_step: Option<u64>,
    ratios: Option<&Vec<String>>,
    layer_chart: bool,
) -> (r: String)
    requires
        available_ram is Some ==> report.sizes.per_token_total > 0,
        context_step is Some ==> report.context_length < u64::MAX,
        available_ram is Some ==> match context_step {
            Some(st) => ratios matches Some(rs) && rs@.len() == chart_points_spec(
                report.context_length,
                report.sizes.per_token_total,
                st,
            ).len(),
            None => true,
        },
    ensures
        r@ == kv_json_spec(
            *report,
            available_ram,
            context_step,
            match ratios {
                Some(rs) => Some(strs_view(rs@)),
                None => None,
            },
            layer_chart,
        ),
{
    let ghost rv: Option<Seq<Seq<char>>> = match ratios {
        Some(rs) => Some(strs_view(rs@)),
        None => None,
    };
    let ghost m = kv_model_fields(*report);
    let ghost sz = kv_size_fields(*report);
    let ghost ram = kv_ram_fields(*report, available_ram);
    let ghost chart = kv_context_chart_field(*report, available_ram, context_step, rv);
    let ghost layers = kv_layer_chart_field(*report, layer_chart);
    let mut out = String::new();
    push_char(&mut out, '{');
    let ghost start = out@;
    push_model_fields(&mut out, report);
    push_size_fields(&mut out, report);
    proof {
        lemma_concat_associative(start, m, sz);
    }
    push_ram_fields(&mut out, report, available_ram);
    proof {
        lemma_concat_associative(start, m + sz, ram);
    }
    push_context_chart_field(&mut out, report, available_ram, context_step, ratios);
    proof {
        lemma_concat_associative(start, m + sz + ram, chart);
    }
    push_layer_chart_field(&mut out, report, layer_chart);
    proof {
        lemma_concat_associative(start, m + sz + ram + chart, layers);
        lemma_fields_end_with_comma(*report, available_ram, context_step, rv, layer_chart);
        lemma_append_last(start, m + sz + ram + chart + layers);
    }
    let ghost fields = kv_json_fields(*report, available_ram, context_step, rv, layer_chart);
    assert(out@ == start + fields);
    pop_trailing_comma(&mut out);
    push_char(&mut out, '}');
    proof {
        lemma_close_object(start, fields);
    }
    out
}

} // verus!
