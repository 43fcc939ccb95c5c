use jup_sdk::retry::{RetryConfig, RetryExecutor, RetryStep};
use jup_sdk::types::JupiterError;

/// Drives an executor over a scripted operation; returns the result, the
/// number of attempts made and the sleeps asked for.
fn run_script(
    config: RetryConfig,
    mut script: Vec<Result<u32, JupiterError>>,
) -> (Result<u32, JupiterError>, usize, Vec<u64>) {
    script.reverse();
    let mut executor = RetryExecutor::new(config);
    let mut attempts = 0;
    let mut sleeps = Vec::new();
    loop {
        let outcome = script.pop().expect("the script ran out of outcomes");
        attempts += 1;
        match executor.on_outcome(outcome) {
            RetryStep::Finished(result) => return (result, attempts, sleeps),
            RetryStep::Retry(next, delay_ms) => {
                sleeps.push(delay_ms);
                executor = next;
            }
        }
    }
}

#[test]
fn network_errors_are_retried_with_backoff_until_success() {
    let config = RetryConfig {
        max_retries: 3,
        initial_delay_ms: 500,
        max_delay_ms: 5_000,
        backoff_multiplier_permille: 2_000,
    };
    let script = vec![
        Err(JupiterError::NetworkError("connection reset".to_string())),
        Err(JupiterError::NetworkError("connection reset".to_string())),
        Ok(7),
    ];
    let (result, attempts, sleeps) = run_script(config, script);
    assert!(matches!(result, Ok(7)));
    assert_eq!(attempts, 3);
    assert_eq!(sleeps, vec![500, 1_000]);
}

fn default_like() -> RetryConfig {
    RetryConfig {
        max_retries: 3,
        initial_delay_ms: 500,
        max_delay_ms: 5_000,
        backoff_multiplier_permille: 2_000,
    }
}

#[test]
fn default_retry_config_doubles_from_half_a_second() {
    let config = RetryConfig::default();
    assert_eq!(config.max_retries, 3);
    assert_eq!(config.initial_delay_ms, 500);
    assert_eq!(config.max_delay_ms, 5_000);
    assert_eq!(config.backoff_multiplier_permille, 2_000);
    assert!(config.is_well_formed());
}

#[test]
fn multiplier_of_one_or_less_is_not_well_formed() {
    let mut config = default_like();
    config.backoff_multiplier_permille = 1_000;
    assert!(!config.is_well_formed());
    config.backoff_multiplier_permille = 1_001;
    assert!(config.is_well_formed());
}

#[test]
fn fatal_error_returns_after_exactly_one_attempt() {
    let script = vec![
        Err(JupiterError::InvalidInput("bad mint".to_string())),
        Ok(1),
    ];
    let (result, attempts, sleeps) = run_script(default_like(), script);
    assert!(matches!(result, Err(JupiterError::InvalidInput(reason)) if reason == "bad mint"));
    assert_eq!(attempts, 1);
    assert!(sleeps.is_empty());
}

#[test]
fn every_fatal_kind_ends_the_run_at_once() {
    let fatal = vec![
        JupiterError::InvalidInput("x".to_string()),
        JupiterError::ParseError("x".to_string()),
        JupiterError::ValidationError("x".to_string()),
        JupiterError::TransactionFailed("x".to_string()),
        JupiterError::Error("x".to_string()),
        JupiterError::RequestFailed { status: 404, message: "x".to_string() },
    ];
    for error in fatal {
        let (result, attempts, sleeps) = run_script(default_like(), vec![Err(error), Ok(1)]);
        assert!(result.is_err());
        assert_eq!(attempts, 1);
        assert!(sleeps.is_empty());
    }
}

#[test]
fn exhausted_budget_returns_most_recent_error() {
    let script = vec![
        Err(JupiterError::NetworkError("first".to_string())),
        Err(JupiterError::RateLimitExceeded("second".to_string())),
        Err(JupiterError::RequestFailed { status: 503, message: "third".to_string() }),
        Err(JupiterError::NetworkError("fourth".to_string())),
        Ok(1),
    ];
    let (result, attempts, sleeps) = run_script(default_like(), script);
    assert!(matches!(result, Err(JupiterError::NetworkError(reason)) if reason == "fourth"));
    assert_eq!(attempts, 4);
    assert_eq!(sleeps, vec![500, 1_000, 2_000]);
}

#[test]
fn retriable_then_fatal_returns_the_fatal_error() {
    let script = vec![
        Err(JupiterError::NetworkError("first".to_string())),
        Err(JupiterError::ParseError("garbled".to_string())),
        Ok(1),
    ];
    let (result, attempts, sleeps) = run_script(default_like(), script);
    assert!(matches!(result, Err(JupiterError::ParseError(reason)) if reason == "garbled"));
    assert_eq!(attempts, 2);
    assert_eq!(sleeps, vec![500]);
}

#[test]
fn zero_retries_means_a_single_attempt() {
    let mut config = default_like();
    config.max_retries = 0;
    let script = vec![Err(JupiterError::NetworkError("down".to_string())), Ok(1)];
    let (result, attempts, sleeps) = run_script(config, script);
    assert!(matches!(result, Err(JupiterError::NetworkError(_))));
    assert_eq!(attempts, 1);
    assert!(sleeps.is_empty());
}

#[test]
fn success_on_first_attempt_needs_no_sleep() {
    let (result, attempts, sleeps) = run_script(default_like(), vec![Ok(5)]);
    assert!(matches!(result, Ok(5)));
    assert_eq!(attempts, 1);
    assert!(sleeps.is_empty());
}

#[test]
fn attempts_never_exceed_budget_plus_one() {
    for max_retries in 0..6u32 {
        let mut config = default_like();
        config.max_retries = max_retries;
        let script: Vec<Result<u32, JupiterError>> =
            (0..20).map(|_| Err(JupiterError::NetworkError("down".to_string()))).collect();
        let (result, attempts, sleeps) = run_script(config, script);
        assert!(result.is_err());
        assert_eq!(attempts, max_retries as usize + 1);
        assert_eq!(sleeps.len(), max_retries as usize);
    }
}

#[test]
fn delays_double_and_stop_at_the_cap() {
    let config = default_like();
    let delays: Vec<u64> = (0..7).map(|attempt| config.cal_delay(attempt)).collect();
    assert_eq!(delays, vec![500, 1_000, 2_000, 4_000, 5_000, 5_000, 5_000]);
}

#[test]
fn delays_are_nondecreasing_and_bounded() {
    let configs = vec![
        default_like(),
        RetryConfig { max_retries: 9, initial_delay_ms: 1, max_delay_ms: 1_000_000, backoff_multiplier_permille: 1_500 },
        RetryConfig { max_retries: 9, initial_delay_ms: 7, max_delay_ms: 90, backoff_multiplier_permille: 1_001 },
        RetryConfig { max_retries: 9, initial_delay_ms: 900, max_delay_ms: 100, backoff_multiplier_permille: 3_000 },
        RetryConfig { max_retries: 9, initial_delay_ms: u64::MAX, max_delay_ms: u64::MAX, backoff_multiplier_permille: u32::MAX },
    ];
    for config in configs {
        let mut previous = 0;
        for attempt in 0..64 {
            let delay = config.cal_delay(attempt);
            assert!(delay >= previous);
            assert!(delay <= config.max_delay_ms);
            previous = delay;
        }
    }
}

#[test]
fn fractional_multiplier_rounds_down_once_at_the_end() {
    let config = RetryConfig {
        max_retries: 5,
        initial_delay_ms: 500,
        max_delay_ms: 5_000,
        backoff_multiplier_permille: 1_500,
    };
    let delays: Vec<u64> = (0..8).map(|attempt| config.cal_delay(attempt)).collect();
    assert_eq!(delays, vec![500, 750, 1_125, 1_687, 2_531, 3_796, 5_000, 5_000]);
}

#[test]
fn delay_is_the_exact_power_rounded_down() {
    let configs = vec![
        (1u64, 1_500u32),
        (500, 1_500),
        (7, 1_001),
        (3, 1_999),
        (1_000, 500),
        (999, 999),
        (12_345, 2_750),
        (1, 4_000),
        (10, 1_000),
        (10, 0),
    ];
    for (initial, permille) in configs {
        let config = RetryConfig {
            max_retries: 9,
            initial_delay_ms: initial,
            max_delay_ms: 1_000_000_000,
            backoff_multiplier_permille: permille,
        };
        let mut numerator = initial as u128;
        let mut denominator = 1u128;
        for attempt in 0..7 {
            let exact = (numerator / denominator).min(1_000_000_000) as u64;
            assert_eq!(config.cal_delay(attempt), exact);
            numerator *= permille as u128;
            denominator *= 1_000;
        }
    }
}

#[test]
fn initial_delay_beyond_cap_is_capped() {
    let config = RetryConfig {
        max_retries: 5,
        initial_delay_ms: 9_000,
        max_delay_ms: 5_000,
        backoff_multiplier_permille: 2_000,
    };
    assert_eq!(config.cal_delay(0), 5_000);
    assert_eq!(config.cal_delay(3), 5_000);
}

#[test]
fn small_delay_grows_with_the_power_and_reaches_the_cap() {
    let config = RetryConfig {
        max_retries: 5,
        initial_delay_ms: 1,
        max_delay_ms: 5_000,
        backoff_multiplier_permille: 1_500,
    };
    let delays: Vec<u64> = (0..13).map(|attempt| config.cal_delay(attempt)).collect();
    assert_eq!(delays, vec![1, 1, 2, 3, 5, 7, 11, 17, 25, 38, 57, 86, 129]);
    assert_eq!(config.cal_delay(21), 4_987);
    assert_eq!(config.cal_delay(22), 5_000);
    assert_eq!(config.cal_delay(u32::MAX), 5_000);
}

#[test]
fn zero_initial_delay_stays_zero() {
    let silent = RetryConfig {
        max_retries: 5,
        initial_delay_ms: 0,
        max_delay_ms: 5_000,
        backoff_multiplier_permille: 2_000,
    };
    assert_eq!(silent.cal_delay(0), 0);
    assert_eq!(silent.cal_delay(u32::MAX), 0);
}

#[test]
fn multiplier_of_one_keeps_the_initial_delay() {
    let steady = RetryConfig {
        max_retries: 5,
        initial_delay_ms: 300,
        max_delay_ms: 5_000,
        backoff_multiplier_permille: 1_000,
    };
    assert_eq!(steady.cal_delay(0), 300);
    assert_eq!(steady.cal_delay(u32::MAX), 300);
}

#[test]
fn multiplier_below_one_shrinks_the_delay_to_nothing() {
    let halving = RetryConfig {
        max_retries: 5,
        initial_delay_ms: 1_000,
        max_delay_ms: 600,
        backoff_multiplier_permille: 500,
    };
    let delays: Vec<u64> = (0..12).map(|attempt| halving.cal_delay(attempt)).collect();
    assert_eq!(delays, vec![600, 500, 250, 125, 62, 31, 15, 7, 3, 1, 0, 0]);
    assert_eq!(halving.cal_delay(u32::MAX), 0);
    let none = RetryConfig {
        max_retries: 5,
        initial_delay_ms: 1_000,
        max_delay_ms: 5_000,
        backoff_multiplier_permille: 0,
    };
    assert_eq!(none.cal_delay(0), 1_000);
    assert_eq!(none.cal_delay(1), 0);
    assert_eq!(none.cal_delay(u32::MAX), 0);
}

#[test]
fn slow_growth_reaches_a_distant_cap() {
    let config = RetryConfig {
        max_retries: 5,
        initial_delay_ms: 1,
        max_delay_ms: u64::MAX,
        backoff_multiplier_permille: 1_010,
    };
    assert_eq!(config.cal_delay(100), 2);
    assert_eq!(config.cal_delay(1_000), 20_959);
    assert_eq!(config.cal_delay(u32::MAX), u64::MAX);
}

#[test]
fn executor_counts_failed_attempts() {
    let executor = RetryExecutor::new(default_like());
    assert_eq!(executor.attempt(), 0);
    let outcome: Result<u32, JupiterError> = Err(JupiterError::NetworkError("down".to_string()));
    match executor.on_outcome(outcome) {
        RetryStep::Retry(next, delay_ms) => {
            assert_eq!(next.attempt(), 1);
            assert_eq!(delay_ms, 500);
        }
        RetryStep::Finished(_) => panic!("a network error is retried"),
    }
}
