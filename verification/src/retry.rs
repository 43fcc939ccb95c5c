//! Error categories and the retry executor.

use crate::types::JupiterError;
use crate::wide::Wide;
use vstd::arithmetic::div_mod::{
    lemma_basic_div, lemma_div_by_multiple, lemma_div_is_ordered,
    lemma_div_multiples_vanish_quotient, lemma_fundamental_div_mod_converse,
};
use vstd::arithmetic::power::{lemma_pow0, lemma_pow_positive, pow};
use vstd::prelude::*;

verus! {

/// Categorizes errors for appropriate handling.
#[derive(Debug, Clone, Copy, PartialEq, Eq, Structural)]
pub enum ErrorCategory {
    /// Network connectivity issues
    Network,
    /// Server errors (5xx status codes)
    Server,
    /// Rate limiting exceeded
    RateLimit,
    /// Client errors (4xx status codes, malformed input, unparsable bodies)
    Client,
    /// Transaction-related errors
    Transaction,
    /// Unknown or unclassified errors
    Unknown,
}

impl ErrorCategory {
    /// The categories whose failures are worth another attempt.
    pub open spec fn retriable(self) -> bool {
        self is Network || self is Server || self is RateLimit
    }

    /// Whether a failure of this category may be retried.
    pub fn is_retriable(&self) -> (r: bool)
        ensures
            r == self.retriable(),
    {
        match self {
            ErrorCategory::Network => true,
            ErrorCategory::Server => true,
            ErrorCategory::RateLimit => true,
            ErrorCategory::Client => false,
            ErrorCategory::Transaction => false,
            ErrorCategory::Unknown => false,
        }
    }
}


/// Configuration for retry behavior.
///
/// Durations are whole milliseconds.  The backoff multiplier is given in
/// thousandths, so that 2000 doubles the delay and 1500 grows it by half.
#[derive(Debug, Clone, Copy)]
pub struct RetryConfig {
    pub max_retries: u32,
    pub initial_delay_ms: u64,
    pub max_delay_ms: u64,
    pub backoff_multiplier_permille: u32,
}

impl Default for RetryConfig {
    fn default() -> (config: Self)
        ensures
            config.max_retries == 3,
            config.initial_delay_ms == 500,
            config.max_delay_ms == 5_000,
            config.backoff_multiplier_permille == 2_000,
            config.well_formed(),
    {
        RetryConfig {
            max_retries: 3,
            initial_delay_ms: 500,
            max_delay_ms: 5_000,
            backoff_multiplier_permille: 2_000,
        }
    }
}

impl RetryConfig {
    /// A configuration whose multiplier exceeds one, so that delays grow.
    pub open spec fn well_formed(self) -> bool {
        self.backoff_multiplier_permille > 1000
    }

    /// Checks [`Self::well_formed`].
    pub fn is_well_formed(&self) -> (b: bool)
        ensures
            b == self.well_formed(),
    {
        self.backoff_multiplier_permille > 1000
    }

    /// The initial delay times the multiplier to the power `attempt`,
    /// rounded down to whole milliseconds.  The multiplier is
    /// `backoff_multiplier_permille / 1000`, so the product is
    /// `initial * permille^attempt / 1000^attempt`.
    pub open spec fn scaled_delay(self, attempt: nat) -> nat {
        (self.initial_delay_ms as int * pow(self.backoff_multiplier_permille as int, attempt)
            / pow(1000, attempt)) as nat
    }

    /// The delay before the retry that follows the failed attempt number
    /// `attempt`, counted from zero:
    /// `min(initial_delay * multiplier^attempt, max_delay)`.
    pub open spec fn delay_spec(self, attempt: nat) -> nat {
        let scaled = self.scaled_delay(attempt);
        if scaled <= self.max_delay_ms {
            scaled
        } else {
            self.max_delay_ms as nat
        }
    }

    /// Calculate backoff delay
    ///
    /// The product is computed exactly, in numbers of any size, so that the
    /// only rounding is the one at the end.  It is followed round by round
    /// until it settles at the cap or below one millisecond, which takes
    /// the longer the closer the multiplier is to one.
    pub fn cal_delay(&self, attempt: u32) -> (delay: u64)
        ensures
            delay == self.delay_spec(attempt as nat),
            delay <= self.max_delay_ms,
    {
        let initial = self.initial_delay_ms;
        let cap = self.max_delay_ms;
        let permille = self.backoff_multiplier_permille;
        proof {
            lemma_pow_positive(1000, attempt as nat);
        }
        if initial == 0 {
            proof {
                let scale = pow(1000, attempt as nat);
                assert(0 * pow(permille as int, attempt as nat) == 0) by (nonlinear_arith);
                lemma_basic_div(0, scale);
            }
            return 0;
        }
        if permille == 1000 {
            proof {
                lemma_div_by_multiple(initial as int, pow(1000, attempt as nat));
            }
            return if initial <= cap {
                initial
            } else {
                cap
            };
        }
        let mut numerator = Wide::from_u64(initial);
        let mut denominator = Wide::one();
        let mut round: u32 = 0;
        proof {
            lemma_pow0(permille as int);
            lemma_pow0(1000);
            assert(initial as int * 1 == initial) by (nonlinear_arith);
        }
        while round < attempt
            invariant
                round <= attempt,
                initial == self.initial_delay_ms,
                cap == self.max_delay_ms,
                permille == self.backoff_multiplier_permille,
                permille != 1000,
                numerator@ == initial as int * pow(permille as int, round as nat),
                denominator@ == pow(1000, round as nat),
            decreases attempt - round,
        {
            if permille > 1000 {
                if numerator.at_least(&denominator.times(cap)) {
                    proof {
                        assert(cap as int * pow(1000, round as nat) == denominator@ * cap)
                            by (nonlinear_arith)
                            requires
                                denominator@ == pow(1000, round as nat),
                        ;
                        lemma_stays_capped(*self, round as nat, attempt as nat);
                    }
                    return cap;
                }
            } else {
                if !numerator.at_least(&denominator) {
                    proof {
                        lemma_stays_below_one(*self, round as nat, attempt as nat);
                    }
                    return 0;
                }
            }
            proof {
                lemma_pow_next(permille as int, round as nat);
                lemma_pow_next(1000, round as nat);
                let power = pow(permille as int, round as nat);
                assert(initial as int * power * permille == initial as int * (permille * power))
                    by (nonlinear_arith);
                assert(pow(1000, round as nat) * 1000 == 1000 * pow(1000, round as nat))
                    by (nonlinear_arith);
            }
            numerator = numerator.times(permille as u64);
            denominator = denominator.times(1000);
            round += 1;
        }
        let ghost product = numerator@ as int;
        let ghost scale = denominator@ as int;
        if numerator.at_least(&denominator.times(cap)) {
            proof {
                assert(cap as int * scale == scale * cap) by (nonlinear_arith);
                lemma_div_by_multiple(cap as int, scale);
                lemma_div_is_ordered(cap as int * scale, product, scale);
            }
            return cap;
        }
        assert(cap > 0 && product < cap * scale) by (nonlinear_arith)
            requires
                product < scale * cap,
                product >= 0,
                scale > 0,
                cap >= 0,
        ;
        let mut low: u64 = 0;
        let mut high: u64 = cap;
        assert(low * scale <= product) by (nonlinear_arith)
            requires
                low == 0,
                product >= 0,
        ;
        while high - low > 1
            invariant
                low < high <= cap,
                product == numerator@,
                scale == denominator@,
                scale > 0,
                low * scale <= product < high * scale,
            decreases high - low,
        {
            let middle = low + (high - low) / 2;
            if numerator.at_least(&denominator.times(middle)) {
                assert(middle * scale == scale * middle) by (nonlinear_arith);
                low = middle;
            } else {
                assert(middle * scale == scale * middle) by (nonlinear_arith);
                high = middle;
            }
        }
        proof {
            let rest = product - low * scale;
            assert(product < low * scale + scale) by (nonlinear_arith)
                requires
                    product < high * scale,
                    high == low + 1,
            ;
            lemma_fundamental_div_mod_converse(product, scale, low as int, rest);
        }
        low
    }
}

/// Each further power is the base times the one before.
proof fn lemma_pow_next(b: int, e: nat)
    ensures
        pow(b, e + 1) == b * pow(b, e),
{
    reveal(pow);
}

/// With a multiplier of at least one, a product that has reached the
/// maximum delay stays there: every later delay is the maximum delay.
proof fn lemma_stays_capped(config: RetryConfig, reached: nat, later: nat)
    requires
        config.backoff_multiplier_permille >= 1000,
        reached <= later,
        config.initial_delay_ms as int * pow(config.backoff_multiplier_permille as int, reached)
            >= config.max_delay_ms as int * pow(1000, reached),
    ensures
        config.initial_delay_ms as int * pow(config.backoff_multiplier_permille as int, later)
            >= config.max_delay_ms as int * pow(1000, later),
        config.delay_spec(later) == config.max_delay_ms,
    decreases later,
{
    let initial = config.initial_delay_ms as int;
    let cap = config.max_delay_ms as int;
    let permille = config.backoff_multiplier_permille as int;
    if reached < later {
        let before = (later - 1) as nat;
        lemma_stays_capped(config, reached, before);
        lemma_pow_next(permille, before);
        lemma_pow_next(1000, before);
        lemma_pow_positive(1000, before);
        let product = initial * pow(permille, before);
        let scale = cap * pow(1000, before);
        assert(initial * (permille * pow(permille, before)) >= cap * (1000 * pow(1000, before)))
            by (nonlinear_arith)
            requires
                initial * pow(permille, before) >= cap * pow(1000, before),
                cap * pow(1000, before) >= 0,
                permille >= 1000,
        ;
    }
    let scale = pow(1000, later);
    lemma_pow_positive(1000, later);
    lemma_div_by_multiple(cap, scale);
    lemma_div_is_ordered(cap * scale, initial * pow(permille, later), scale);
}

/// With a multiplier below one, a product that has fallen below one
/// millisecond stays there: every later delay is zero.
proof fn lemma_stays_below_one(config: RetryConfig, reached: nat, later: nat)
    requires
        config.backoff_multiplier_permille < 1000,
        reached <= later,
        0 <= config.initial_delay_ms as int * pow(config.backoff_multiplier_permille as int, reached)
            < pow(1000, reached),
    ensures
        0 <= config.initial_delay_ms as int * pow(config.backoff_multiplier_permille as int, later)
            < pow(1000, later),
        config.delay_spec(later) == 0,
    decreases later,
{
    let initial = config.initial_delay_ms as int;
    let permille = config.backoff_multiplier_permille as int;
    if reached < later {
        let before = (later - 1) as nat;
        lemma_stays_below_one(config, reached, before);
        lemma_pow_next(permille, before);
        lemma_pow_next(1000, before);
        let product = initial * pow(permille, before);
        let scale = pow(1000, before);
        assert(0 <= initial * (permille * pow(permille, before)) < 1000 * pow(1000, before))
            by (nonlinear_arith)
            requires
                0 <= initial * pow(permille, before) < pow(1000, before),
                0 <= permille < 1000,
        ;
    }
    lemma_basic_div(initial * pow(permille, later), pow(1000, later));
}

/// No delay exceeds the maximum delay.
pub proof fn lemma_delay_bounded(config: RetryConfig, attempt: nat)
    ensures
        config.delay_spec(attempt) <= config.max_delay_ms,
{
}

/// With a multiplier of at least one, the delays `d(0), d(1), ...` never
/// decrease.
pub proof fn lemma_delay_nondecreasing(config: RetryConfig, earlier: nat, later: nat)
    requires
        config.backoff_multiplier_permille >= 1000,
        earlier <= later,
    ensures
        config.delay_spec(earlier) <= config.delay_spec(later),
    decreases later,
{
    if earlier < later {
        let before = (later - 1) as nat;
        lemma_delay_nondecreasing(config, earlier, before);
        let initial = config.initial_delay_ms as int;
        let permille = config.backoff_multiplier_permille as int;
        let product = initial * pow(permille, before);
        let scale = pow(1000, before);
        lemma_pow_next(permille, before);
        lemma_pow_next(1000, before);
        lemma_pow_positive(permille, before);
        lemma_pow_positive(1000, before);
        assert(product >= 0) by (nonlinear_arith)
            requires
                product == initial * pow(permille, before),
                initial >= 0,
                pow(permille, before) > 0,
        ;
        lemma_div_multiples_vanish_quotient(1000, product, scale);
        assert(1000 * product <= initial * (permille * pow(permille, before))) by (nonlinear_arith)
            requires
                product == initial * pow(permille, before),
                product >= 0,
                permille >= 1000,
        ;
        lemma_div_is_ordered(
            1000 * product,
            initial * (permille * pow(permille, before)),
            1000 * scale,
        );
    }
}

/// The delay before the first retry is the initial delay, capped.
pub proof fn lemma_first_delay(config: RetryConfig)
    ensures
        config.delay_spec(0) == if config.initial_delay_ms <= config.max_delay_ms {
            config.initial_delay_ms
        } else {
            config.max_delay_ms
        },
{
    lemma_pow0(config.backoff_multiplier_permille as int);
    lemma_pow0(1000);
    assert(config.initial_delay_ms as int * 1 / 1 == config.initial_delay_ms) by (nonlinear_arith);
}

/// With a whole multiplier `m`, the product needs no rounding: the delay
/// before retry `attempt` is `min(initial_delay * m^attempt, max_delay)`.
pub proof fn lemma_delay_of_whole_multiplier(config: RetryConfig, multiplier: nat, attempt: nat)
    requires
        config.backoff_multiplier_permille == multiplier * 1000,
    ensures
        config.scaled_delay(attempt) == config.initial_delay_ms * pow(multiplier as int, attempt),
    decreases attempt,
{
    let initial = config.initial_delay_ms as int;
    let m = multiplier as int;
    lemma_whole_power(m, attempt);
    lemma_pow_positive(1000, attempt);
    let scale = pow(1000, attempt);
    let whole = initial * pow(m, attempt);
    assert(initial * (pow(m, attempt) * scale) == whole * scale) by (nonlinear_arith)
        requires
            whole == initial * pow(m, attempt),
    ;
    if m == 0 {
        if attempt == 0 {
            lemma_pow0(0);
        } else {
            lemma_pow_next(0, (attempt - 1) as nat);
        }
        assert(whole >= 0) by (nonlinear_arith)
            requires
                whole == initial * pow(m, attempt),
                initial >= 0,
                pow(m, attempt) >= 0,
        ;
    } else {
        lemma_pow_positive(m, attempt);
        assert(whole >= 0) by (nonlinear_arith)
            requires
                whole == initial * pow(m, attempt),
                initial >= 0,
                pow(m, attempt) > 0,
        ;
    }
    lemma_div_by_multiple(whole, scale);
}

/// A power of a thousandfold base is the power of the base times the power
/// of a thousand.
proof fn lemma_whole_power(m: int, e: nat)
    ensures
        pow(m * 1000, e) == pow(m, e) * pow(1000, e),
    decreases e,
{
    if e == 0 {
        lemma_pow0(m * 1000);
        lemma_pow0(m);
        lemma_pow0(1000);
    } else {
        let before = (e - 1) as nat;
        lemma_whole_power(m, before);
        lemma_pow_next(m * 1000, before);
        lemma_pow_next(m, before);
        lemma_pow_next(1000, before);
        assert((m * 1000) * (pow(m, before) * pow(1000, before)) == (m * pow(m, before)) * (1000
            * pow(1000, before))) by (nonlinear_arith);
    }
}

/// A retry in progress, as a mathematical value: the configuration and the
/// number of attempts that have failed so far and were followed by a retry.
pub struct RetryState {
    pub config: RetryConfig,
    pub attempt: nat,
}

/// The outcome of one attempt, as the executor sees it.
pub enum RetryStepView<T> {
    /// The run is over, with this result.
    Finished(Result<T, JupiterError>),
    /// Sleep for the given number of milliseconds, then try again.
    Retry(RetryState, u64),
}

impl RetryState {
    /// The state before the first attempt.
    pub open spec fn initial(config: RetryConfig) -> Self {
        RetryState { config, attempt: 0 }
    }

    /// No more retries have been used than the budget holds.
    pub open spec fn within_budget(self) -> bool {
        self.attempt <= self.config.max_retries
    }

    /// Whether a failure with `error` is followed by another attempt: only
    /// if the retry budget is not used up and the error is retriable.
    pub open spec fn retries(self, error: JupiterError) -> bool {
        self.attempt < self.config.max_retries && error.retriable()
    }

    /// The transition function: success ends the run at once; a failure is
    /// either retried after the backoff delay or ends the run as its result.
    pub open spec fn next<T>(self, outcome: Result<T, JupiterError>) -> RetryStepView<T> {
        match outcome {
            Ok(value) => RetryStepView::Finished(Ok(value)),
            Err(error) => if self.retries(error) {
                RetryStepView::Retry(
                    RetryState { attempt: self.attempt + 1, ..self },
                    self.config.delay_spec(self.attempt) as u64,
                )
            } else {
                RetryStepView::Finished(Err(error))
            },
        }
    }
}

/// Runs a fallible operation with bounded, classified retries.
///
/// The executor does not call the operation.  The caller makes an attempt,
/// hands its outcome to [`RetryExecutor::on_outcome`], and either gets the
/// final result back or is told how long to sleep before the next attempt.
#[derive(Debug)]
pub struct RetryExecutor {
    config: RetryConfig,
    attempt: u32,
}

impl View for RetryExecutor {
    type V = RetryState;

    closed spec fn view(&self) -> RetryState {
        RetryState { config: self.config, attempt: self.attempt as nat }
    }
}

/// What the executor makes of one attempt.  A run that has finished leaves
/// no executor behind.
#[derive(Debug)]
pub enum RetryStep<T> {
    /// The run is over, with this result.
    Finished(Result<T, JupiterError>),
    /// Sleep for the given number of milliseconds, then try again.
    Retry(RetryExecutor, u64),
}

impl<T> View for RetryStep<T> {
    type V = RetryStepView<T>;

    open spec fn view(&self) -> RetryStepView<T> {
        match *self {
            RetryStep::Finished(result) => RetryStepView::Finished(result),
            RetryStep::Retry(executor, delay_ms) => RetryStepView::Retry(executor@, delay_ms),
        }
    }
}

impl RetryExecutor {
    #[verifier::type_invariant]
    spec fn budget_kept(self) -> bool {
        self.attempt <= self.config.max_retries
    }

    /// An executor that has made no attempt yet.
    pub fn new(config: RetryConfig) -> (executor: Self)
        ensures
            executor@ == RetryState::initial(config),
    {
        RetryExecutor { config, attempt: 0 }
    }

    /// The number of failed attempts so far.  It never exceeds the budget.
    pub fn attempt(&self) -> (n: u32)
        ensures
            n == self@.attempt,
            self@.within_budget(),
    {
        proof {
            use_type_invariant(self);
        }
        self.attempt
    }

    /// The configuration of this run.
    pub fn config(&self) -> (config: RetryConfig)
        ensures
            config == self@.config,
    {
        self.config
    }

    /// Takes the outcome of the latest attempt and decides how the run goes on.
    pub fn on_outcome<T>(self, outcome: Result<T, JupiterError>) -> (step: RetryStep<T>)
        ensures
            step@ == self@.next(outcome),
    {
        match outcome {
            Ok(value) => RetryStep::Finished(Ok(value)),
            Err(error) => {
                if self.attempt < self.config.max_retries && error.is_retriable() {
                    let delay_ms = self.config.cal_delay(self.attempt);
                    RetryStep::Retry(
                        RetryExecutor { config: self.config, attempt: self.attempt + 1 },
                        delay_ms,
                    )
                } else {
                    RetryStep::Finished(Err(error))
                }
            },
        }
    }
}

/// A whole run, seen from outside.
pub struct RetryRun<T> {
    /// How many times the operation was called.
    pub attempts: nat,
    /// The sleeps between the attempts, in order.
    pub delays: Seq<u64>,
    /// The result handed back; `None` if the run was cut short.
    pub result: Option<Result<T, JupiterError>>,
}

/// The run of an executor in `state` over an operation whose calls yield
/// `outcomes`, one after the other.  The run is cut short where the
/// operation has no outcome left to give.
pub open spec fn run<T>(state: RetryState, outcomes: Seq<Result<T, JupiterError>>) -> RetryRun<T>
    decreases outcomes.len(),
{
    if outcomes.len() == 0 {
        RetryRun { attempts: 0, delays: Seq::empty(), result: None }
    } else {
        match state.next(outcomes[0]) {
            RetryStepView::Finished(result) => RetryRun {
                attempts: 1,
                delays: Seq::empty(),
                result: Some(result),
            },
            RetryStepView::Retry(after, delay_ms) => {
                let rest = run(after, outcomes.drop_first());
                RetryRun {
                    attempts: rest.attempts + 1,
                    delays: seq![delay_ms] + rest.delays,
                    result: rest.result,
                }
            },
        }
    }
}

/// An executor that has used `state.attempt` of its retries makes at most
/// as many attempts as it has retries left, and one more.  It sleeps once
/// between two attempts: one time less than it makes attempts, unless the
/// run is cut short after a sleep.
pub proof fn lemma_attempts_from<T>(state: RetryState, outcomes: Seq<Result<T, JupiterError>>)
    requires
        state.within_budget(),
    ensures
        run(state, outcomes).attempts <= state.config.max_retries - state.attempt + 1,
        run(state, outcomes).attempts <= outcomes.len(),
        run(state, outcomes).result is Some ==> run(state, outcomes).delays.len() + 1 == run(
            state,
            outcomes,
        ).attempts,
        run(state, outcomes).result is None ==> run(state, outcomes).delays.len() == run(
            state,
            outcomes,
        ).attempts,
    decreases outcomes.len(),
{
    if outcomes.len() > 0 {
        match state.next(outcomes[0]) {
            RetryStepView::Finished(_) => {},
            RetryStepView::Retry(after, _) => {
                lemma_attempts_from(after, outcomes.drop_first());
            },
        }
    }
}

/// Whatever the operation does, a run never makes more than
/// `max_retries + 1` attempts.
pub proof fn lemma_attempts_bounded<T>(config: RetryConfig, outcomes: Seq<Result<T, JupiterError>>)
    ensures
        run(RetryState::initial(config), outcomes).attempts <= config.max_retries + 1,
{
    lemma_attempts_from(RetryState::initial(config), outcomes);
}

/// The sleeps of a run are the backoff delays in order: the sleep after
/// failed attempt `state.attempt + i` is `delay_spec(state.attempt + i)`.
pub proof fn lemma_delays_follow_schedule<T>(
    state: RetryState,
    outcomes: Seq<Result<T, JupiterError>>,
    i: int,
)
    requires
        0 <= i < run(state, outcomes).delays.len(),
    ensures
        run(state, outcomes).delays[i] == state.config.delay_spec(state.attempt + i as nat),
        run(state, outcomes).delays[i] <= state.config.max_delay_ms,
    decreases outcomes.len(),
{
    lemma_delay_bounded(state.config, state.attempt + i as nat);
    if outcomes.len() > 0 {
        match state.next(outcomes[0]) {
            RetryStepView::Finished(_) => {},
            RetryStepView::Retry(after, _) => {
                lemma_delay_bounded(state.config, state.attempt);
                if i > 0 {
                    lemma_delays_follow_schedule(after, outcomes.drop_first(), i - 1);
                }
            },
        }
    }
}

/// In every run of a well-formed configuration the sleeps never get
/// shorter from one retry to the next, and none exceeds the maximum delay.
pub proof fn lemma_sleeps_nondecreasing<T>(
    config: RetryConfig,
    outcomes: Seq<Result<T, JupiterError>>,
    i: int,
    j: int,
)
    requires
        config.well_formed(),
        0 <= i <= j < run(RetryState::initial(config), outcomes).delays.len(),
    ensures
        run(RetryState::initial(config), outcomes).delays[i] <= run(
            RetryState::initial(config),
            outcomes,
        ).delays[j],
        run(RetryState::initial(config), outcomes).delays[j] <= config.max_delay_ms,
{
    lemma_delays_follow_schedule(RetryState::initial(config), outcomes, i);
    lemma_delays_follow_schedule(RetryState::initial(config), outcomes, j);
    lemma_delay_nondecreasing(config, i as nat, j as nat);
}

/// A fatal error is never retried: where the first attempt fails with an
/// error that is not retriable, the run ends after exactly that attempt,
/// without a sleep, and hands the error back.
pub proof fn lemma_fatal_error_ends_run<T>(
    config: RetryConfig,
    outcomes: Seq<Result<T, JupiterError>>,
)
    requires
        outcomes.len() > 0,
        outcomes[0] is Err,
        !outcomes[0]->Err_0.retriable(),
    ensures
        run(RetryState::initial(config), outcomes).attempts == 1,
        run(RetryState::initial(config), outcomes).delays.len() == 0,
        run(RetryState::initial(config), outcomes).result == Some(outcomes[0]),
{
}

/// The result of a run is the outcome of its last attempt: the first
/// success, or the most recent failure.  Every attempt before the last
/// failed with a retriable error.
pub proof fn lemma_result_is_last_outcome<T>(
    state: RetryState,
    outcomes: Seq<Result<T, JupiterError>>,
)
    requires
        run(state, outcomes).result is Some,
    ensures
        1 <= run(state, outcomes).attempts <= outcomes.len(),
        run(state, outcomes).result == Some(outcomes[run(state, outcomes).attempts - 1]),
        forall|k: int|
            0 <= k < run(state, outcomes).attempts - 1 ==> (#[trigger] outcomes[k]) is Err
                && outcomes[k]->Err_0.retriable(),
    decreases outcomes.len(),
{
    if outcomes.len() > 0 {
        match state.next(outcomes[0]) {
            RetryStepView::Finished(_) => {},
            RetryStepView::Retry(after, _) => {
                let rest = outcomes.drop_first();
                lemma_result_is_last_outcome(after, rest);
                assert forall|k: int| 0 <= k < run(state, outcomes).attempts - 1 implies (
                #[trigger] outcomes[k]) is Err && outcomes[k]->Err_0.retriable() by {
                    if k > 0 {
                        assert(outcomes[k] == rest[k - 1]);
                    }
                }
            },
        }
    }
}

/// Trait defining retry strategy behavior.
pub trait RetryStrategy {
    /// Determines if a retry should be attempted based on the error and
    /// attempt count.  `attempt` is the number of the attempt that failed,
    /// counted from 1.
    fn should_retry(&self, error: &JupiterError, attempt: u32) -> bool;

    /// Calculates the delay, in milliseconds, before the retry that follows
    /// attempt number `attempt`, counted from 1.
    fn get_delay(&self, attempt: u32) -> u64;
}

/// The number of an attempt counted from zero, given its number counted
/// from one.
pub open spec fn zero_based(attempt: u32) -> nat {
    if attempt == 0 {
        0
    } else {
        (attempt - 1) as nat
    }
}

/// Exponential backoff: retriable errors are retried while the budget
/// lasts, after the delays of [`RetryConfig::delay_spec`].
impl RetryStrategy for RetryConfig {
    fn should_retry(&self, error: &JupiterError, attempt: u32) -> (retry: bool)
        ensures
            retry == (zero_based(attempt) < self.max_retries && error.retriable()),
    {
        let index = if attempt == 0 {
            0
        } else {
            attempt - 1
        };
        index < self.max_retries && error.is_retriable()
    }

    fn get_delay(&self, attempt: u32) -> (delay: u64)
        ensures
            delay == self.delay_spec(zero_based(attempt)),
    {
        let index = if attempt == 0 {
            0
        } else {
            attempt - 1
        };
        self.cal_delay(index)
    }
}

/// Linear backoff, as used for quote requests: retriable errors are retried
/// while the budget lasts, after `step_ms` times the number of the failed
/// attempt.
#[derive(Debug, Clone, Copy)]
pub struct LinearBackoff {
    pub max_retries: u32,
    pub step_ms: u32,
}

impl LinearBackoff {
    /// The schedule of quote requests: steps of 200 ms.
    pub fn for_quotes(max_retries: u32) -> (strategy: Self)
        ensures
            strategy.max_retries == max_retries,
            strategy.step_ms == 200,
    {
        LinearBackoff { max_retries, step_ms: 200 }
    }
}

/// What a linear schedule makes of one attempt.
#[derive(Debug)]
pub enum LinearStep<T> {
    /// The run is over, with this result.
    Finished(Result<T, JupiterError>),
    /// Sleep for the given number of milliseconds, then make the attempt
    /// with the given number.
    Retry(u32, u64),
}

impl LinearBackoff {
    /// Whether the failure of attempt number `attempt`, counted from one,
    /// with `error` is followed by another attempt: only if the retry
    /// budget is not used up and the error is retriable.
    pub open spec fn retries(self, attempt: u32, error: JupiterError) -> bool {
        attempt < u32::MAX && zero_based(attempt) < self.max_retries && error.retriable()
    }

    /// The transition function of a run under this schedule: success ends
    /// the run at once; a failure is either retried after `step_ms` times
    /// the number of the failed attempt, or ends the run as its result.
    pub open spec fn next<T>(self, attempt: u32, outcome: Result<T, JupiterError>) -> LinearStep<T> {
        match outcome {
            Ok(value) => LinearStep::Finished(Ok(value)),
            Err(error) => if self.retries(attempt, error) {
                LinearStep::Retry((attempt + 1) as u32, (self.step_ms * attempt) as u64)
            } else {
                LinearStep::Finished(Err(error))
            },
        }
    }

    /// Takes the outcome of attempt number `attempt`, counted from one, and
    /// decides how the run goes on.
    pub fn on_outcome<T>(&self, attempt: u32, outcome: Result<T, JupiterError>) -> (step:
        LinearStep<T>)
        ensures
            step == self.next(attempt, outcome),
    {
        match outcome {
            Ok(value) => LinearStep::Finished(Ok(value)),
            Err(error) => {
                if attempt < u32::MAX && self.should_retry(&error, attempt) {
                    LinearStep::Retry(attempt + 1, self.get_delay(attempt))
                } else {
                    LinearStep::Finished(Err(error))
                }
            },
        }
    }
}

/// Under a linear schedule a failure is followed by another attempt only
/// while fewer than `max_retries + 1` attempts have been made, and a fatal
/// error is never followed by one.
pub proof fn lemma_linear_attempts_bounded<T>(
    schedule: LinearBackoff,
    attempt: u32,
    outcome: Result<T, JupiterError>,
)
    requires
        attempt >= 1,
        schedule.next(attempt, outcome) is Retry,
    ensures
        attempt <= schedule.max_retries,
        outcome is Err,
        outcome->Err_0.retriable(),
        schedule.next(attempt, outcome)->Retry_0 == attempt + 1,
        schedule.next(attempt, outcome)->Retry_1 == schedule.step_ms * attempt,
{
    assert(schedule.step_ms * attempt <= u64::MAX) by (nonlinear_arith)
        requires
            schedule.step_ms <= u32::MAX,
            attempt <= u32::MAX,
    ;
}

impl RetryStrategy for LinearBackoff {
    fn should_retry(&self, error: &JupiterError, attempt: u32) -> (retry: bool)
        ensures
            retry == (zero_based(attempt) < self.max_retries && error.retriable()),
    {
        let index = if attempt == 0 {
            0
        } else {
            attempt - 1
        };
        index < self.max_retries && error.is_retriable()
    }

    fn get_delay(&self, attempt: u32) -> (delay: u64)
        ensures
            delay == self.step_ms * attempt,
    {
        assert(self.step_ms * attempt <= u64::MAX) by (nonlinear_arith)
            requires
                self.step_ms <= u32::MAX,
                attempt <= u32::MAX,
        ;
        self.step_ms as u64 * attempt as u64
    }
}

} // verus!
