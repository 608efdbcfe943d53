use banshee::telemetry::{compute_context_usage, tokens_in, tokens_out, TokenUsage};

fn usage(total: u64, reasoning: u64) -> TokenUsage {
    TokenUsage {
        input_tokens: 10,
        cached_input_tokens: 5,
        output_tokens: 7,
        reasoning_output_tokens: reasoning,
        total_tokens: total,
    }
}

#[test]
fn context_usage_example() {
    let u = compute_context_usage(&usage(15000, 1000), 20000);
    assert_eq!(u.effective_window, 8000);
    assert_eq!(u.used_tokens, 2000);
    assert_eq!(u.remaining_tokens, 6000);
    assert!(u.has_percentages());
    let remaining_pct = u.remaining_tokens as f64 / u.effective_window as f64 * 100.0;
    assert_eq!(remaining_pct, 75.0);
    assert_eq!(100.0 - remaining_pct, 25.0);
}

#[test]
fn context_usage_small_window() {
    let u = compute_context_usage(&usage(15000, 1000), 12000);
    assert_eq!((u.effective_window, u.used_tokens, u.remaining_tokens), (0, 0, 0));
    assert!(!u.has_percentages());
    let u = compute_context_usage(&usage(15000, 1000), 500);
    assert_eq!((u.effective_window, u.used_tokens, u.remaining_tokens), (0, 0, 0));
}

#[test]
fn context_usage_clamps() {
    let u = compute_context_usage(&usage(100000, 0), 20000);
    assert_eq!((u.effective_window, u.used_tokens, u.remaining_tokens), (8000, 8000, 0));
    let u = compute_context_usage(&usage(5000, 9000), 20000);
    assert_eq!((u.effective_window, u.used_tokens, u.remaining_tokens), (8000, 0, 8000));
}

#[test]
fn token_sums_saturate() {
    let u = usage(1, 3);
    assert_eq!(tokens_in(&u), 15);
    assert_eq!(tokens_out(&u), 10);
    let big = TokenUsage { input_tokens: u64::MAX, cached_input_tokens: 1, output_tokens: u64::MAX, reasoning_output_tokens: 2, total_tokens: 0 };
    assert_eq!(tokens_in(&big), u64::MAX);
    assert_eq!(tokens_out(&big), u64::MAX);
}
