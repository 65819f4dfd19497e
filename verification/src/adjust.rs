//! How a supervised run reacts to memory pressure: on warning it lowers settings
//! (context length, max tokens, threads, GPU layers, or the model) and restarts;
//! on normal it restores the configuration it started from; on critical it may abort.
use vstd::prelude::*;

use crate::llm_backend::{RunConfig, RunConfigView, opt_str_view};
use crate::memory_monitor::MemoryPressureLevel;

verus! {

/// What the supervisor has changed so far, and the configuration to go back to.
pub struct AdjustmentState {
    pub warning_applied: bool,
    pub critical_triggered: bool,
    pub adjusted: bool,
    pub baseline_config: Option<RunConfig>,
}

pub ghost struct AdjustmentStateView {
    pub warning_applied: bool,
    pub critical_triggered: bool,
    pub adjusted: bool,
    pub baseline: Option<RunConfigView>,
}

impl View for AdjustmentState {
    type V = AdjustmentStateView;

    open spec fn view(&self) -> AdjustmentStateView {
        AdjustmentStateView {
            warning_applied: self.warning_applied,
            critical_triggered: self.critical_triggered,
            adjusted: self.adjusted,
            baseline: match self.baseline_config {
                Some(c) => Some(c@),
                None => None,
            },
        }
    }
}

/// The state's invariant: a baseline is held exactly while an adjustment is in
/// effect, and a warning adjustment is always an adjustment.
pub open spec fn state_wf(s: AdjustmentStateView) -> bool {
    &&& s.adjusted == (s.baseline is Some)
    &&& s.warning_applied ==> s.adjusted
}

/// The state before any pressure event.
pub open spec fn clean_state() -> AdjustmentStateView {
    AdjustmentStateView {
        warning_applied: false,
        critical_triggered: false,
        adjusted: false,
        baseline: None,
    }
}

/// The state after a warning adjustment made while the configuration was `cfg`.
pub open spec fn adjusted_state(st: AdjustmentStateView, cfg: RunConfigView) -> AdjustmentStateView {
    AdjustmentStateView {
        warning_applied: true,
        critical_triggered: st.critical_triggered,
        adjusted: true,
        baseline: if st.baseline is Some {
            st.baseline
        } else {
            Some(cfg)
        },
    }
}

impl AdjustmentState {
    pub fn new() -> (r: Self)
        ensures
            r@ == clean_state(),
    {
        AdjustmentState {
            warning_applied: false,
            critical_triggered: false,
            adjusted: false,
            baseline_config: None,
        }
    }

    pub fn record_warning(&mut self)
        ensures
            final(self)@ == (AdjustmentStateView { warning_applied: true, ..old(self)@ }),
    {
        self.warning_applied = true;
    }

    pub fn record_critical(&mut self)
        ensures
            final(self)@ == (AdjustmentStateView { critical_triggered: true, ..old(self)@ }),
    {
        self.critical_triggered = true;
    }

    /// Remembers `config` as the configuration to restore, unless one is held already.
    pub fn record_baseline(&mut self, config: &RunConfig)
        ensures
            final(self)@ == (AdjustmentStateView {
                baseline: if old(self)@.baseline is Some {
                    old(self)@.baseline
                } else {
                    Some(config@)
                },
                ..old(self)@
            }),
    {
        if self.baseline_config.is_none() {
            self.baseline_config = Some(config.copy());
        }
    }

    pub fn mark_adjusted(&mut self)
        ensures
            final(self)@ == (AdjustmentStateView { adjusted: true, ..old(self)@ }),
    {
        self.adjusted = true;
    }

    /// When an adjustment is in effect: clears all flags and hands back the baseline.
    /// Otherwise changes nothing and returns `None`.
    pub fn take_restore_config(&mut self) -> (r: Option<RunConfig>)
        ensures
            !old(self)@.adjusted ==> r is None && final(self)@ == old(self)@,
            old(self)@.adjusted ==> final(self)@ == clean_state() && match r {
                Some(c) => old(self)@.baseline == Some(c@),
                None => old(self)@.baseline is None,
            },
    {
        if !self.adjusted {
            return None;
        }
        self.adjusted = false;
        self.warning_applied = false;
        self.critical_triggered = false;
        self.baseline_config.take()
    }

    /// Whether a warning may lower a setting: always when repeats are allowed,
    /// otherwise only before the first warning adjustment.
    pub fn can_reduce_on_warning(&self, allow_repeat: bool) -> (r: bool)
        ensures
            r == (allow_repeat || !self.warning_applied),
    {
        allow_repeat || !self.warning_applied
    }

    fn apply_adjustment(&mut self, config: &RunConfig)
        ensures
            final(self)@ == adjusted_state(old(self)@, config@),
    {
        self.record_baseline(config);
        self.record_warning();
        self.mark_adjusted();
    }
}

/// What to lower on warning, and whether to abort on critical pressure.
pub struct PressurePolicy {
    pub abort_on_critical: bool,
    pub warning_context_length: Option<u32>,
    pub warning_context_step: Option<u32>,
    pub warning_context_min: Option<u32>,
    pub warning_max_tokens: Option<u32>,
    pub warning_threads: Option<u32>,
    pub warning_gpu_layers: Option<u32>,
    pub warning_model: Option<String>,
}

pub ghost struct PressurePolicyView {
    pub abort_on_critical: bool,
    pub warning_context_length: Option<u32>,
    pub warning_context_step: Option<u32>,
    pub warning_context_min: Option<u32>,
    pub warning_max_tokens: Option<u32>,
    pub warning_threads: Option<u32>,
    pub warning_gpu_layers: Option<u32>,
    pub warning_model: Option<Seq<char>>,
}

impl View for PressurePolicy {
    type V = PressurePolicyView;

    open spec fn view(&self) -> PressurePolicyView {
        PressurePolicyView {
            abort_on_critical: self.abort_on_critical,
            warning_context_length: self.warning_context_length,
            warning_context_step: self.warning_context_step,
            warning_context_min: self.warning_context_min,
            warning_max_tokens: self.warning_max_tokens,
            warning_threads: self.warning_threads,
            warning_gpu_layers: self.warning_gpu_layers,
            warning_model: opt_str_view(self.warning_model),
        }
    }
}

/// What the supervisor must do after a pressure event.
#[derive(Debug, Clone, Copy, PartialEq, Eq, Structural)]
pub enum PressureResponse {
    /// Keep the running process.
    Unchanged,
    /// Stop the process and start it again with the (changed) configuration.
    Restart,
    /// Stop the process and give up.
    Abort,
}

/// The smallest context length that stepping down may reach.
pub open spec fn step_floor(p: PressurePolicyView) -> u32 {
    let m = match p.warning_context_min {
        Some(m) => m,
        None => 1u32,
    };
    if m >= 1 {
        m
    } else {
        1u32
    }
}

/// The context length after one step down from `cur`.
pub open spec fn step_target(cur: u32, step: u32, floor: u32) -> u32 {
    let lowered: int = if cur >= step {
        cur - step
    } else {
        0
    };
    if lowered >= floor {
        lowered as u32
    } else {
        floor
    }
}

/// The model a configuration names, or the empty text when it names none.
pub open spec fn model_text(cfg: RunConfigView) -> Seq<char> {
    match cfg.model {
        Some(m) => m,
        None => Seq::empty(),
    }
}

/// Warning adjustments that set a value directly (max tokens, threads, GPU layers,
/// model). Once one applies, the others are skipped: each checks that no warning
/// adjustment is in effect.
pub open spec fn warning_fixed_steps(
    p: PressurePolicyView,
    st: AdjustmentStateView,
    cfg: RunConfigView,
) -> (AdjustmentStateView, RunConfigView, bool) {
    let (st1, cfg1, r1) = if !st.warning_applied && p.warning_max_tokens is Some
        && p.warning_max_tokens.unwrap() > 0 && cfg.max_tokens != p.warning_max_tokens {
        (adjusted_state(st, cfg), RunConfigView { max_tokens: p.warning_max_tokens, ..cfg }, true)
    } else {
        (st, cfg, false)
    };
    let (st2, cfg2, r2) = if !st1.warning_applied && p.warning_threads is Some
        && p.warning_threads.unwrap() > 0 && cfg1.threads != p.warning_threads {
        (adjusted_state(st1, cfg1), RunConfigView { threads: p.warning_threads, ..cfg1 }, true)
    } else {
        (st1, cfg1, false)
    };
    let (st3, cfg3, r3) = if !st2.warning_applied && p.warning_gpu_layers is Some
        && p.warning_gpu_layers.unwrap() > 0 && cfg2.gpu_layers != p.warning_gpu_layers {
        (adjusted_state(st2, cfg2), RunConfigView { gpu_layers: p.warning_gpu_layers, ..cfg2 }, true)
    } else {
        (st2, cfg2, false)
    };
    let (st4, cfg4, r4) = if !st3.warning_applied && p.warning_model is Some
        && p.warning_model.unwrap().len() > 0 && model_text(cfg3) != p.warning_model.unwrap() {
        (adjusted_state(st3, cfg3), RunConfigView { model: p.warning_model, ..cfg3 }, true)
    } else {
        (st3, cfg3, false)
    };
    (st4, cfg4, r1 || r2 || r3 || r4)
}

/// The response to a warning: first a fixed context length (once), else one step
/// down in context length (repeatable, never below the floor), else the fixed-value
/// adjustments.
pub open spec fn warning_step(
    p: PressurePolicyView,
    st: AdjustmentStateView,
    cfg: RunConfigView,
) -> (AdjustmentStateView, RunConfigView, PressureResponse) {
    if !st.warning_applied && p.warning_context_length is Some
        && p.warning_context_length.unwrap() > 0 && cfg.context_length
        != p.warning_context_length {
        (
            adjusted_state(st, cfg),
            RunConfigView { context_length: p.warning_context_length, ..cfg },
            PressureResponse::Restart,
        )
    } else if p.warning_context_step is Some && p.warning_context_step.unwrap() > 0
        && cfg.context_length is Some && cfg.context_length.unwrap() > step_floor(p)
        && step_target(cfg.context_length.unwrap(), p.warning_context_step.unwrap(), step_floor(p))
        != cfg.context_length.unwrap() {
        (
            adjusted_state(st, cfg),
            RunConfigView {
                context_length: Some(
                    step_target(
                        cfg.context_length.unwrap(),
                        p.warning_context_step.unwrap(),
                        step_floor(p),
                    ),
                ),
                ..cfg
            },
            PressureResponse::Restart,
        )
    } else {
        let (st2, cfg2, r) = warning_fixed_steps(p, st, cfg);
        (st2, cfg2, if r {
            PressureResponse::Restart
        } else {
            PressureResponse::Unchanged
        })
    }
}

/// The state, configuration and response after one pressure event.
pub open spec fn pressure_step(
    level: MemoryPressureLevel,
    p: PressurePolicyView,
    st: AdjustmentStateView,
    cfg: RunConfigView,
) -> (AdjustmentStateView, RunConfigView, PressureResponse) {
    if p.abort_on_critical && level == MemoryPressureLevel::Critical {
        (AdjustmentStateView { critical_triggered: true, ..st }, cfg, PressureResponse::Abort)
    } else if level == MemoryPressureLevel::Normal {
        if st.adjusted {
            match st.baseline {
                Some(b) => (clean_state(), b, PressureResponse::Restart),
                None => (clean_state(), cfg, PressureResponse::Unchanged),
            }
        } else {
            (st, cfg, PressureResponse::Unchanged)
        }
    } else if level == MemoryPressureLevel::Warning {
        warning_step(p, st, cfg)
    } else {
        (st, cfg, PressureResponse::Unchanged)
    }
}

fn reduce_fixed_max_tokens(
    policy: &PressurePolicy,
    state: &mut AdjustmentState,
    config: &mut RunConfig,
) -> (r: bool)
    ensures
        ({
            let st = old(state)@;
            let cfg = old(config)@;
            let p = policy@;
            if !st.warning_applied && p.warning_max_tokens is Some && p.warning_max_tokens.unwrap()
                > 0 && cfg.max_tokens != p.warning_max_tokens {
                final(state)@ == adjusted_state(st, cfg) && final(config)@ == (RunConfigView {
                    max_tokens: p.warning_max_tokens,
                    ..cfg
                }) && r
            } else {
                final(state)@ == st && final(config)@ == cfg && !r
            }
        }),
{
    if state.can_reduce_on_warning(false) {
        if let Some(n) = policy.warning_max_tokens {
            let differs = match config.max_tokens {
                Some(c) => c != n,
                None => true,
            };
            if n > 0 && differs {
                state.apply_adjustment(config);
                config.max_tokens = Some(n);
                return true;
            }
        }
    }
    false
}

fn reduce_fixed_threads(
    policy: &PressurePolicy,
    state: &mut AdjustmentState,
    config: &mut RunConfig,
) -> (r: bool)
    ensures
        ({
            let st = old(state)@;
            let cfg = old(config)@;
            let p = policy@;
            if !st.warning_applied && p.warning_threads is Some && p.warning_threads.unwrap() > 0
                && cfg.threads != p.warning_threads {
                final(state)@ == adjusted_state(st, cfg) && final(config)@ == (RunConfigView {
                    threads: p.warning_threads,
                    ..cfg
                }) && r
            } else {
                final(state)@ == st && final(config)@ == cfg && !r
            }
        }),
{
    if state.can_reduce_on_warning(false) {
        if let Some(n) = policy.warning_threads {
            let differs = match config.threads {
                Some(c) => c != n,
                None => true,
            };
            if n > 0 && differs {
                state.apply_adjustment(config);
                config.threads = Some(n);
                return true;
            }
        }
    }
    false
}

fn reduce_fixed_gpu_layers(
    policy: &PressurePolicy,
    state: &mut AdjustmentState,
    config: &mut RunConfig,
) -> (r: bool)
    ensures
        ({
            let st = old(state)@;
            let cfg = old(config)@;
            let p = policy@;
            if !st.warning_applied && p.warning_gpu_layers is Some && p.warning_gpu_layers.unwrap()
                > 0 && cfg.gpu_layers != p.warning_gpu_layers {
                final(state)@ == adjusted_state(st, cfg) && final(config)@ == (RunConfigView {
                    gpu_layers: p.warning_gpu_layers,
                    ..cfg
                }) && r
            } else {
                final(state)@ == st && final(config)@ == cfg && !r
            }
        }),
{
    if state.can_reduce_on_warning(false) {
        if let Some(n) = policy.warning_gpu_layers {
            let differs = match config.gpu_layers {
                Some(c) => c != n,
                None => true,
            };
            if n > 0 && differs {
                state.apply_adjustment(config);
                config.gpu_layers = Some(n);
                return true;
            }
        }
    }
    false
}

fn switch_model(policy: &PressurePolicy, state: &mut AdjustmentState, config: &mut RunConfig) -> (r:
    bool)
    ensures
        ({
            let st = old(state)@;
            let cfg = old(config)@;
            let p = policy@;
            if !st.warning_applied && p.warning_model is Some && p.warning_model.unwrap().len() > 0
                && model_text(cfg) != p.warning_model.unwrap() {
                final(state)@ == adjusted_state(st, cfg) && final(config)@ == (RunConfigView {
                    model: p.warning_model,
                    ..cfg
                }) && r
            } else {
                final(state)@ == st && final(config)@ == cfg && !r
            }
        }),
{
    if state.can_reduce_on_warning(false) {
        if let Some(new_model) = &policy.warning_model {
            if new_model.as_str().unicode_len() > 0 {
                let current = match &config.model {
                    Some(m) => m.clone(),
                    None => String::new(),
                };
                assert(current@ == model_text(config@));
                if !(current == *new_model) {
                    state.apply_adjustment(config);
                    config.model = Some(new_model.clone());
                    return true;
                }
            }
        }
    }
    false
}

/// Updates the adjustment state and the active configuration for one pressure event.
/// `Ok(Restart)` asks the caller to restart the process with the updated
/// configuration; `Err` asks it to stop the process and fail with the message.
pub fn handle_pressure_level(
    level: MemoryPressureLevel,
    policy: &PressurePolicy,
    state: &mut AdjustmentState,
    config: &mut RunConfig,
) -> (r: Result<PressureResponse, String>)
    ensures
        ({
            let (st2, cfg2, resp) = pressure_step(level, policy@, old(state)@, old(config)@);
            &&& final(state)@ == st2
            &&& final(config)@ == cfg2
            &&& resp == PressureResponse::Abort ==> r is Err && r->Err_0@
                == "Aborted on critical memory pressure"@
            &&& resp != PressureResponse::Abort ==> r == Ok::<PressureResponse, String>(resp)
        }),
{
    if policy.abort_on_critical && level == MemoryPressureLevel::Critical {
        state.record_critical();
        return Err(String::from_str("Aborted on critical memory pressure"));
    }
    if level == MemoryPressureLevel::Normal {
        if let Some(baseline) = state.take_restore_config() {
            *config = baseline;
            return Ok(PressureResponse::Restart);
        }
        return Ok(PressureResponse::Unchanged);
    }
    if level != MemoryPressureLevel::Warning {
        return Ok(PressureResponse::Unchanged);
    }
    if state.can_reduce_on_warning(false) {
        if let Some(n) = policy.warning_context_length {
            let differs = match config.context_length {
                Some(c) => c != n,
                None => true,
            };
            if n > 0 && differs {
                state.apply_adjustment(config);
                config.context_length = Some(n);
                return Ok(PressureResponse::Restart);
            }
        }
    }
    if let Some(step) = policy.warning_context_step {
        let min_raw = match policy.warning_context_min {
            Some(m) => m,
            None => 1,
        };
        let min = if min_raw >= 1 {
            min_raw
        } else {
            1
        };
        if step > 0 {
            if let Some(current) = config.context_length {
                if current > min {
                    let lowered = current.saturating_sub(step);
                    let target = if lowered >= min {
                        lowered
                    } else {
                        min
                    };
                    if target != current {
                        state.apply_adjustment(config);
                        config.context_length = Some(target);
                        return Ok(PressureResponse::Restart);
                    }
                }
            }
        }
    }
    let r1 = reduce_fixed_max_tokens(policy, state, config);
    let r2 = reduce_fixed_threads(policy, state, config);
    let r3 = reduce_fixed_gpu_layers(policy, state, config);
    let r4 = switch_model(policy, state, config);
    if r1 || r2 || r3 || r4 {
        Ok(PressureResponse::Restart)
    } else {
        Ok(PressureResponse::Unchanged)
    }
}

/// The state and configuration after a sequence of pressure events.
pub open spec fn run_levels(
    p: PressurePolicyView,
    st: AdjustmentStateView,
    cfg: RunConfigView,
    levels: Seq<MemoryPressureLevel>,
) -> (AdjustmentStateView, RunConfigView)
    decreases levels.len(),
{
    if levels.len() == 0 {
        (st, cfg)
    } else {
        let (st1, cfg1, _) = pressure_step(levels[0], p, st, cfg);
        run_levels(p, st1, cfg1, levels.drop_first())
    }
}

/// What holds between the starting configuration `cfg0` and any later state:
/// while an adjustment is in effect the baseline is `cfg0`, otherwise the
/// configuration is `cfg0`.
pub open spec fn tracks_baseline(
    st: AdjustmentStateView,
    cfg: RunConfigView,
    cfg0: RunConfigView,
) -> bool {
    &&& state_wf(st)
    &&& st.adjusted ==> st.baseline == Some(cfg0)
    &&& !st.adjusted ==> cfg == cfg0
}

proof fn lemma_fixed_steps_track(
    p: PressurePolicyView,
    st: AdjustmentStateView,
    cfg: RunConfigView,
    cfg0: RunConfigView,
)
    requires
        tracks_baseline(st, cfg, cfg0),
    ensures
        ({
            let (st2, cfg2, _) = warning_fixed_steps(p, st, cfg);
            tracks_baseline(st2, cfg2, cfg0)
        }),
{
}

/// One pressure event keeps the relation between state, configuration and the
/// starting configuration.
pub proof fn law_step_tracks_baseline(
    level: MemoryPressureLevel,
    p: PressurePolicyView,
    st: AdjustmentStateView,
    cfg: RunConfigView,
    cfg0: RunConfigView,
)
    requires
        tracks_baseline(st, cfg, cfg0),
    ensures
        ({
            let (st2, cfg2, _) = pressure_step(level, p, st, cfg);
            tracks_baseline(st2, cfg2, cfg0)
        }),
{
    lemma_fixed_steps_track(p, st, cfg, cfg0);
}

proof fn lemma_run_tracks_baseline(
    p: PressurePolicyView,
    st: AdjustmentStateView,
    cfg: RunConfigView,
    cfg0: RunConfigView,
    levels: Seq<MemoryPressureLevel>,
)
    requires
        tracks_baseline(st, cfg, cfg0),
    ensures
        ({
            let (st2, cfg2) = run_levels(p, st, cfg, levels);
            tracks_baseline(st2, cfg2, cfg0)
        }),
    decreases levels.len(),
{
    if levels.len() > 0 {
        law_step_tracks_baseline(levels[0], p, st, cfg, cfg0);
        let (st1, cfg1, _) = pressure_step(levels[0], p, st, cfg);
        lemma_run_tracks_baseline(p, st1, cfg1, cfg0, levels.drop_first());
    }
}

/// Normal pressure restores the starting configuration: from a state with no
/// adjustment in effect, whatever pressure events come, a following normal event
/// leaves the configuration the run started with and no adjustment in effect.
pub proof fn law_normal_restores_baseline(
    p: PressurePolicyView,
    st: AdjustmentStateView,
    cfg: RunConfigView,
    levels: Seq<MemoryPressureLevel>,
)
    requires
        state_wf(st),
        !st.adjusted,
    ensures
        ({
            let (st1, cfg1) = run_levels(p, st, cfg, levels);
            let (st2, cfg2, _) = pressure_step(MemoryPressureLevel::Normal, p, st1, cfg1);
            &&& cfg2 == cfg
            &&& !st2.adjusted
            &&& !st2.warning_applied
            &&& st2.baseline is None
        }),
{
    lemma_run_tracks_baseline(p, st, cfg, cfg, levels);
}

/// Every pressure event keeps the state's invariant.
pub proof fn law_state_wf_preserved(
    level: MemoryPressureLevel,
    p: PressurePolicyView,
    st: AdjustmentStateView,
    cfg: RunConfigView,
)
    requires
        state_wf(st),
    ensures
        state_wf(pressure_step(level, p, st, cfg).0),
{
    let cfg0 = match st.baseline {
        Some(b) => b,
        None => cfg,
    };
    law_step_tracks_baseline(level, p, st, cfg, cfg0);
}

/// Critical pressure with aborting enabled aborts and changes no setting; without
/// it, critical pressure changes nothing at all.
pub proof fn law_critical(p: PressurePolicyView, st: AdjustmentStateView, cfg: RunConfigView)
    ensures
        p.abort_on_critical ==> pressure_step(MemoryPressureLevel::Critical, p, st, cfg).2
            == PressureResponse::Abort && pressure_step(MemoryPressureLevel::Critical, p, st, cfg).1
            == cfg && pressure_step(MemoryPressureLevel::Critical, p, st, cfg).0.critical_triggered,
        !p.abort_on_critical ==> pressure_step(MemoryPressureLevel::Critical, p, st, cfg) == (
        st,
        cfg,
        PressureResponse::Unchanged,
        ),
{
}

/// Stepping the context length down on warning never goes below the floor
/// (the configured minimum, at least one) and always lowers it.
pub proof fn law_context_step_floor(p: PressurePolicyView, st: AdjustmentStateView, cfg: RunConfigView)
    requires
        p.warning_context_length is None,
    ensures
        ({
            let cfg2 = pressure_step(MemoryPressureLevel::Warning, p, st, cfg).1;
            cfg2.context_length == cfg.context_length || (cfg2.context_length is Some
                && cfg.context_length is Some && step_floor(p) <= cfg2.context_length.unwrap()
                < cfg.context_length.unwrap())
        }),
{
}

/// The fixed warning values apply once: while a warning adjustment is in effect and
/// no context step is configured, further warnings change nothing.
pub proof fn law_fixed_warning_applies_once(
    p: PressurePolicyView,
    st: AdjustmentStateView,
    cfg: RunConfigView,
)
    requires
        st.warning_applied,
        p.warning_context_step is None,
    ensures
        pressure_step(MemoryPressureLevel::Warning, p, st, cfg) == (
            st,
            cfg,
            PressureResponse::Unchanged,
        ),
{
}

/// A warning adjusts only the context length, the token limit, the thread count,
/// the GPU layers and the model: the runtime, the cache types, the vLLM settings
/// and the extra arguments are kept.
pub proof fn law_warning_keeps_other_settings(
    p: PressurePolicyView,
    st: AdjustmentStateView,
    cfg: RunConfigView,
)
    ensures
        ({
            let c2 = pressure_step(MemoryPressureLevel::Warning, p, st, cfg).1;
            &&& c2.runtime == cfg.runtime
            &&& c2.cache_type_k == cfg.cache_type_k
            &&& c2.cache_type_v == cfg.cache_type_v
            &&& c2.max_model_len == cfg.max_model_len
            &&& c2.max_num_seqs == cfg.max_num_seqs
            &&& c2.quantization == cfg.quantization
            &&& c2.extra_args == cfg.extra_args
        }),
{
}

/// A warning with no adjustment in effect sets a configured context length that
/// differs from the current one, and restarts; the configuration before is kept as
/// the baseline (unless one is held already).
pub proof fn law_warning_context_length_applied(
    p: PressurePolicyView,
    st: AdjustmentStateView,
    cfg: RunConfigView,
    n: u32,
)
    requires
        !st.warning_applied,
        p.warning_context_length == Some(n),
        n > 0,
        cfg.context_length != Some(n),
    ensures
        ({
            let (st2, cfg2, resp) = pressure_step(MemoryPressureLevel::Warning, p, st, cfg);
            &&& resp == PressureResponse::Restart
            &&& cfg2 == (RunConfigView { context_length: Some(n), ..cfg })
            &&& st2.warning_applied
            &&& st2.adjusted
            &&& st2.critical_triggered == st.critical_triggered
            &&& st2.baseline == if st.baseline is Some {
                st.baseline
            } else {
                Some(cfg)
            }
        }),
{
}

/// A warning with no adjustment in effect and no context change to make sets a
/// configured positive token limit that differs from the current one, and restarts.
pub proof fn law_warning_max_tokens_applied(
    p: PressurePolicyView,
    st: AdjustmentStateView,
    cfg: RunConfigView,
    n: u32,
)
    requires
        !st.warning_applied,
        p.warning_context_length is None || p.warning_context_length == Some(0u32)
            || cfg.context_length == p.warning_context_length,
        p.warning_context_step is None || p.warning_context_step == Some(0u32)
            || cfg.context_length is None,
        p.warning_max_tokens == Some(n),
        n > 0,
        cfg.max_tokens != Some(n),
    ensures
        ({
            let (st2, cfg2, resp) = pressure_step(MemoryPressureLevel::Warning, p, st, cfg);
            &&& resp == PressureResponse::Restart
            &&& cfg2 == (RunConfigView { max_tokens: Some(n), ..cfg })
            &&& st2.warning_applied
            &&& st2.adjusted
            &&& st2.critical_triggered == st.critical_triggered
            &&& st2.baseline == if st.baseline is Some {
                st.baseline
            } else {
                Some(cfg)
            }
        }),
{
}

/// A warning with no adjustment in effect, no context change to make and no token
/// limit to set, sets a configured positive thread count that differs from the
/// current one, and restarts.
pub proof fn law_warning_threads_applied(
    p: PressurePolicyView,
    st: AdjustmentStateView,
    cfg: RunConfigView,
    n: u32,
)
    requires
        !st.warning_applied,
        p.warning_context_length is None || p.warning_context_length == Some(0u32)
            || cfg.context_length == p.warning_context_length,
        p.warning_context_step is None || p.warning_context_step == Some(0u32)
            || cfg.context_length is None,
        p.warning_max_tokens is None || p.warning_max_tokens == Some(0u32) || cfg.max_tokens
            == p.warning_max_tokens,
        p.warning_threads == Some(n),
        n > 0,
        cfg.threads != Some(n),
    ensures
        ({
            let (st2, cfg2, resp) = pressure_step(MemoryPressureLevel::Warning, p, st, cfg);
            &&& resp == PressureResponse::Restart
            &&& cfg2 == (RunConfigView { threads: Some(n), ..cfg })
            &&& st2.warning_applied
            &&& st2.adjusted
            &&& st2.critical_triggered == st.critical_triggered
            &&& st2.baseline == if st.baseline is Some {
                st.baseline
            } else {
                Some(cfg)
            }
        }),
{
}

/// A warning with no adjustment in effect, no context change to make and no token
/// limit or thread count to set, sets a configured positive GPU-layer count that
/// differs from the current one, and restarts.
pub proof fn law_warning_gpu_layers_applied(
    p: PressurePolicyView,
    st: AdjustmentStateView,
    cfg: RunConfigView,
    n: u32,
)
    requires
        !st.warning_applied,
        p.warning_context_length is None || p.warning_context_length == Some(0u32)
            || cfg.context_length == p.warning_context_length,
        p.warning_context_step is None || p.warning_context_step == Some(0u32)
            || cfg.context_length is None,
        p.warning_max_tokens is None || p.warning_max_tokens == Some(0u32) || cfg.max_tokens
            == p.warning_max_tokens,
        p.warning_threads is None || p.warning_threads == Some(0u32) || cfg.threads
            == p.warning_threads,
        p.warning_gpu_layers == Some(n),
        n > 0,
        cfg.gpu_layers != Some(n),
    ensures
        ({
            let (st2, cfg2, resp) = pressure_step(MemoryPressureLevel::Warning, p, st, cfg);
            &&& resp == PressureResponse::Restart
            &&& cfg2 == (RunConfigView { gpu_layers: Some(n), ..cfg })
            &&& st2.warning_applied
            &&& st2.adjusted
            &&& st2.critical_triggered == st.critical_triggered
            &&& st2.baseline == if st.baseline is Some {
                st.baseline
            } else {
                Some(cfg)
            }
        }),
{
}

/// A warning with no adjustment in effect and no other setting to lower switches to
/// a configured (non-empty) model other than the current one, and restarts.
pub proof fn law_warning_model_applied(
    p: PressurePolicyView,
    st: AdjustmentStateView,
    cfg: RunConfigView,
    m: Seq<char>,
)
    requires
        !st.warning_applied,
        p.warning_context_length is None || p.warning_context_length == Some(0u32)
            || cfg.context_length == p.warning_context_length,
        p.warning_context_step is None || p.warning_context_step == Some(0u32)
            || cfg.context_length is None,
        p.warning_max_tokens is None || p.warning_max_tokens == Some(0u32) || cfg.max_tokens
            == p.warning_max_tokens,
        p.warning_threads is None || p.warning_threads == Some(0u32) || cfg.threads
            == p.warning_threads,
        p.warning_gpu_layers is None || p.warning_gpu_layers == Some(0u32) || cfg.gpu_layers
            == p.warning_gpu_layers,
        p.warning_model == Some(m),
        m.len() > 0,
        cfg.model != Some(m),
    ensures
        ({
            let (st2, cfg2, resp) = pressure_step(MemoryPressureLevel::Warning, p, st, cfg);
            &&& resp == PressureResponse::Restart
            &&& cfg2 == (RunConfigView { model: Some(m), ..cfg })
            &&& st2.warning_applied
            &&& st2.adjusted
            &&& st2.critical_triggered == st.critical_triggered
            &&& st2.baseline == if st.baseline is Some {
                st.baseline
            } else {
                Some(cfg)
            }
        }),
{
}

} // verus!
