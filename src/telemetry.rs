//! Token telemetry: how much of the model's context window a turn used.
use vstd::prelude::*;

verus! {

/// Tokens held back from every context window for the system prompt and tools.
pub const BASELINE_TOKENS: u64 = 12000;

/// Token counts that the agent reports for its last turn.
#[derive(Clone, Copy, Debug, PartialEq, Eq)]
pub struct TokenUsage {
    pub input_tokens: u64,
    pub cached_input_tokens: u64,
    pub output_tokens: u64,
    pub reasoning_output_tokens: u64,
    pub total_tokens: u64,
}

/// How much of the usable context window the last turn took.
#[derive(Clone, Copy, Debug, PartialEq, Eq)]
pub struct ContextUsage {
    pub effective_window: u64,
    pub used_tokens: u64,
    pub remaining_tokens: u64,
}

pub open spec fn sub_floor(a: int, b: int) -> int {
    if a >= b { a - b } else { 0 }
}

pub open spec fn min_int(a: int, b: int) -> int {
    if a <= b { a } else { b }
}

/// The part of a window left once the baseline is reserved.
pub open spec fn effective_window_of(window: int) -> int {
    sub_floor(window, BASELINE_TOKENS as int)
}

/// Tokens of the turn that occupy the window beyond the baseline, at most the whole window.
pub open spec fn used_tokens_of(total: int, reasoning: int, window: int) -> int {
    min_int(sub_floor(sub_floor(total, reasoning), BASELINE_TOKENS as int), effective_window_of(window))
}

impl ContextUsage {
    /// Percentages are only meaningful over a non-empty effective window.
    pub open spec fn spec_has_percentages(&self) -> bool {
        self.effective_window > 0
    }

    pub fn has_percentages(&self) -> (r: bool)
        ensures
            r == self.spec_has_percentages(),
    {
        self.effective_window > 0
    }
}

/// Splits a context window into the part that the last turn used and the part left.
pub fn compute_context_usage(usage: &TokenUsage, context_window: u64) -> (r: ContextUsage)
    ensures
        r.effective_window == effective_window_of(context_window as int),
        r.used_tokens == used_tokens_of(
            usage.total_tokens as int,
            usage.reasoning_output_tokens as int,
            context_window as int,
        ),
        r.remaining_tokens == r.effective_window - r.used_tokens,
        r.used_tokens <= r.effective_window,
{
    if context_window <= BASELINE_TOKENS {
        return ContextUsage { effective_window: 0, used_tokens: 0, remaining_tokens: 0 };
    }
    let effective_window = context_window - BASELINE_TOKENS;
    let tokens_in_context = usage.total_tokens.saturating_sub(usage.reasoning_output_tokens);
    let over_baseline = tokens_in_context.saturating_sub(BASELINE_TOKENS);
    let used_tokens = if over_baseline <= effective_window {
        over_baseline
    } else {
        effective_window
    };
    ContextUsage { effective_window, used_tokens, remaining_tokens: effective_window - used_tokens }
}

/// Input tokens of a turn, cached ones included; saturates at the largest `u64`.
pub fn tokens_in(usage: &TokenUsage) -> (r: u64)
    ensures
        r == min_int(usage.input_tokens + usage.cached_input_tokens, u64::MAX as int),
{
    usage.input_tokens.saturating_add(usage.cached_input_tokens)
}

/// Output tokens of a turn, reasoning included; saturates at the largest `u64`.
pub fn tokens_out(usage: &TokenUsage) -> (r: u64)
    ensures
        r == min_int(usage.output_tokens + usage.reasoning_output_tokens, u64::MAX as int),
{
    usage.output_tokens.saturating_add(usage.reasoning_output_tokens)
}

} // verus!
