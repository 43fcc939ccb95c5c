use jup_sdk::retry::{ErrorCategory, LinearBackoff, LinearStep, RetryConfig, RetryStrategy};
use jup_sdk::types::JupiterError;

fn network() -> JupiterError {
    JupiterError::NetworkError("down".to_string())
}

#[test]
fn categories_split_into_retriable_and_fatal() {
    assert!(ErrorCategory::Network.is_retriable());
    assert!(ErrorCategory::Server.is_retriable());
    assert!(ErrorCategory::RateLimit.is_retriable());
    assert!(!ErrorCategory::Client.is_retriable());
    assert!(!ErrorCategory::Transaction.is_retriable());
    assert!(!ErrorCategory::Unknown.is_retriable());
}

#[test]
fn every_error_has_its_category() {
    let text = || "detail".to_string();
    assert_eq!(JupiterError::NetworkError(text()).category(), ErrorCategory::Network);
    assert_eq!(JupiterError::RateLimitExceeded(text()).category(), ErrorCategory::RateLimit);
    assert_eq!(JupiterError::InvalidInput(text()).category(), ErrorCategory::Client);
    assert_eq!(JupiterError::ParseError(text()).category(), ErrorCategory::Client);
    assert_eq!(JupiterError::ValidationError(text()).category(), ErrorCategory::Client);
    assert_eq!(JupiterError::TransactionFailed(text()).category(), ErrorCategory::Transaction);
    assert_eq!(JupiterError::Error(text()).category(), ErrorCategory::Unknown);
}

#[test]
fn failed_request_is_classified_by_status_class() {
    let failed = |status| JupiterError::RequestFailed { status, message: "500".to_string() };
    assert_eq!(failed(500).category(), ErrorCategory::Server);
    assert_eq!(failed(502).category(), ErrorCategory::Server);
    assert_eq!(failed(504).category(), ErrorCategory::Server);
    assert_eq!(failed(599).category(), ErrorCategory::Server);
    assert_eq!(failed(499).category(), ErrorCategory::Client);
    assert_eq!(failed(600).category(), ErrorCategory::Client);
    assert_eq!(failed(404).category(), ErrorCategory::Client);
    assert_eq!(failed(429).category(), ErrorCategory::RateLimit);
    assert!(failed(429).is_retriable());
    assert_eq!(failed(428).category(), ErrorCategory::Client);
    assert_eq!(failed(0).category(), ErrorCategory::Client);
    assert!(failed(503).is_retriable());
    assert!(!failed(400).is_retriable());
}

#[test]
fn retriable_errors_are_network_server_and_rate_limit() {
    let text = || "detail".to_string();
    assert!(JupiterError::NetworkError(text()).is_retriable());
    assert!(JupiterError::RateLimitExceeded(text()).is_retriable());
    assert!(!JupiterError::InvalidInput(text()).is_retriable());
    assert!(!JupiterError::ParseError(text()).is_retriable());
    assert!(!JupiterError::ValidationError(text()).is_retriable());
    assert!(!JupiterError::TransactionFailed(text()).is_retriable());
    assert!(!JupiterError::Error(text()).is_retriable());
}

#[test]
fn error_text_names_the_kind_and_the_detail() {
    let text = || "detail".to_string();
    assert_eq!(
        JupiterError::RequestFailed { status: 500, message: text() }.message(),
        "Request failed: detail"
    );
    assert_eq!(JupiterError::InvalidInput(text()).message(), "Invalid input: detail");
    assert_eq!(JupiterError::NetworkError(text()).message(), "Network error: detail");
    assert_eq!(JupiterError::ParseError(text()).message(), "Parse error: detail");
    assert_eq!(JupiterError::Error(text()).message(), "Parse error: detail");
    assert_eq!(JupiterError::ValidationError(text()).message(), "Parse error: detail");
    assert_eq!(JupiterError::RateLimitExceeded(text()).message(), "Parse error: detail");
    assert_eq!(JupiterError::TransactionFailed(text()).message(), "Parse error: detail");
    assert_eq!(JupiterError::InvalidInput(String::new()).message(), "Invalid input: ");
}

#[test]
fn exponential_strategy_counts_attempts_from_one() {
    let config = RetryConfig {
        max_retries: 3,
        initial_delay_ms: 500,
        max_delay_ms: 5_000,
        backoff_multiplier_permille: 2_000,
    };
    assert!(config.should_retry(&network(), 1));
    assert!(config.should_retry(&network(), 3));
    assert!(!config.should_retry(&network(), 4));
    assert!(!config.should_retry(&JupiterError::ParseError("bad".to_string()), 1));
    assert_eq!(config.get_delay(1), 500);
    assert_eq!(config.get_delay(2), 1_000);
    assert_eq!(config.get_delay(4), 4_000);
    assert_eq!(config.get_delay(5), 5_000);
    assert_eq!(config.get_delay(0), 500);
}

#[test]
fn quote_strategy_waits_two_hundred_milliseconds_more_each_time() {
    let strategy = LinearBackoff::for_quotes(2);
    assert_eq!(strategy.max_retries, 2);
    assert_eq!(strategy.step_ms, 200);
    assert_eq!(strategy.get_delay(1), 200);
    assert_eq!(strategy.get_delay(2), 400);
    assert_eq!(strategy.get_delay(3), 600);
    assert!(strategy.should_retry(&network(), 1));
    assert!(strategy.should_retry(&network(), 2));
    assert!(!strategy.should_retry(&network(), 3));
    assert!(!strategy.should_retry(&JupiterError::InvalidInput("bad".to_string()), 1));
    let wide = LinearBackoff { max_retries: u32::MAX, step_ms: u32::MAX };
    assert_eq!(wide.get_delay(u32::MAX), u32::MAX as u64 * u32::MAX as u64);
}

/// Drives a linear schedule over a scripted operation; returns the result,
/// the number of attempts made and the sleeps asked for.
fn run_linear(
    schedule: LinearBackoff,
    mut script: Vec<Result<u32, JupiterError>>,
) -> (Result<u32, JupiterError>, u32, Vec<u64>) {
    script.reverse();
    let mut attempt = 1;
    let mut sleeps = Vec::new();
    loop {
        let outcome = script.pop().expect("the script ran out of outcomes");
        match schedule.on_outcome(attempt, outcome) {
            LinearStep::Finished(result) => return (result, attempt, sleeps),
            LinearStep::Retry(next, delay_ms) => {
                sleeps.push(delay_ms);
                attempt = next;
            }
        }
    }
}

#[test]
fn linear_schedule_retries_retriable_failures_within_budget() {
    let script = vec![Err(network()), Err(network()), Ok(4)];
    let (result, attempts, sleeps) = run_linear(LinearBackoff::for_quotes(3), script);
    assert!(matches!(result, Ok(4)));
    assert_eq!(attempts, 3);
    assert_eq!(sleeps, vec![200, 400]);
}

#[test]
fn linear_schedule_gives_up_when_budget_is_used_up() {
    let script = vec![
        Err(network()),
        Err(network()),
        Err(JupiterError::NetworkError("last".to_string())),
        Ok(4),
    ];
    let (result, attempts, sleeps) = run_linear(LinearBackoff::for_quotes(2), script);
    assert!(matches!(result, Err(JupiterError::NetworkError(reason)) if reason == "last"));
    assert_eq!(attempts, 3);
    assert_eq!(sleeps, vec![200, 400]);
    let (result, attempts, sleeps) = run_linear(LinearBackoff::for_quotes(0), vec![Err(network())]);
    assert!(result.is_err());
    assert_eq!(attempts, 1);
    assert!(sleeps.is_empty());
}

#[test]
fn linear_schedule_never_retries_a_fatal_error() {
    let script = vec![Err(JupiterError::InvalidInput("bad".to_string())), Ok(4)];
    let (result, attempts, sleeps) = run_linear(LinearBackoff::for_quotes(5), script);
    assert!(matches!(result, Err(JupiterError::InvalidInput(_))));
    assert_eq!(attempts, 1);
    assert!(sleeps.is_empty());
}

#[test]
fn linear_schedule_stops_at_the_last_attempt_number() {
    let schedule = LinearBackoff { max_retries: u32::MAX, step_ms: 1 };
    let outcome: Result<u32, JupiterError> = Err(network());
    assert!(matches!(schedule.on_outcome(u32::MAX, outcome), LinearStep::Finished(Err(_))));
    let outcome: Result<u32, JupiterError> = Err(network());
    assert!(matches!(
        schedule.on_outcome(u32::MAX - 1, outcome),
        LinearStep::Retry(u32::MAX, delay) if delay == (u32::MAX - 1) as u64
    ));
}
