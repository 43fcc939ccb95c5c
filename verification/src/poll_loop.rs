//! The polling state machine behind the monitor.
//!
//! One session runs like this: read the clock; if the deadline has passed,
//! give up with a timeout result; otherwise ask the node for the signature's
//! status.  A terminal status ends the session, after one attempt each to
//! fetch the log lines and the block time.  Where the node has no status
//! record, the full transaction is fetched instead and, if found, counts as
//! confirmed.  Anything inconclusive (a pending status, no record anywhere,
//! a query that failed in transit) leads to a sleep and the next round.
//! Only the deadline ends a session that the node never settles.  A caller
//! that wants out earlier cancels the session, which then ends as if the
//! deadline had passed.

use crate::monitor::{
    evaluate_status, fallback_result, status_result, timeout_result, CommitmentLevel,
    SignatureStatus, SignatureStatusView, TransactionDetails, TransactionDetailsView,
    TransactionMonitorConfig, TransactionMonitorResult, TransactionMonitorResultView,
    TransactionStatus,
};
use vstd::prelude::*;

verus! {

/// What the caller reports back to the loop.
#[derive(Debug)]
pub enum PollEvent {
    /// The clock was read: milliseconds elapsed since monitoring began.
    Elapsed(u64),
    /// The status probe answered, with `None` where the node has no record.
    Status(Option<SignatureStatus>),
    /// The transaction query answered, with `None` where nothing was found.
    Transaction(Option<TransactionDetails>),
    /// The block-time query answered.
    BlockTime(i64),
    /// The query failed in transit.
    Unavailable,
    /// The caller gives the session up.
    Cancelled,
}

/// [`PollEvent`] as a mathematical value.  Time is unbounded here.
pub enum PollEventView {
    Elapsed(nat),
    Status(Option<SignatureStatusView>),
    Transaction(Option<TransactionDetailsView>),
    BlockTime(i64),
    Unavailable,
    Cancelled,
}

impl View for PollEvent {
    type V = PollEventView;

    open spec fn view(&self) -> PollEventView {
        match *self {
            PollEvent::Elapsed(ms) => PollEventView::Elapsed(ms as nat),
            PollEvent::Status(Some(record)) => PollEventView::Status(Some(record@)),
            PollEvent::Status(None) => PollEventView::Status(None),
            PollEvent::Transaction(Some(details)) => PollEventView::Transaction(Some(details@)),
            PollEvent::Transaction(None) => PollEventView::Transaction(None),
            PollEvent::BlockTime(seconds) => PollEventView::BlockTime(seconds),
            PollEvent::Unavailable => PollEventView::Unavailable,
            PollEvent::Cancelled => PollEventView::Cancelled,
        }
    }
}

/// What the loop asks the caller to do next.
#[derive(Debug, Clone, Copy, PartialEq, Eq, Structural)]
pub enum PollAction {
    /// Ask the node for the signature's status.
    QueryStatus,
    /// Fetch the full transaction at the given commitment, as a fallback for
    /// a missing status record.
    FetchTransaction(CommitmentLevel),
    /// Fetch the full transaction for its log lines.
    FetchLogs,
    /// Ask the node for the block time of the given slot.
    QueryBlockTime(u64),
    /// Sleep for the given number of milliseconds, then read the clock.
    Sleep(u64),
}

/// Where in a round the loop stands, and with it the answer it waits for.
#[derive(Debug)]
pub enum PollPhase {
    /// Waiting for the elapsed time.
    AwaitClock,
    /// Waiting for the status probe.
    AwaitStatus,
    /// Waiting for the fallback transaction query.
    AwaitFallback,
    /// A terminal status was seen; waiting for the log lines.
    AwaitLogs(TransactionMonitorResult),
    /// Waiting for the block time, the last piece of the result.
    AwaitBlockTime(TransactionMonitorResult),
}

/// [`PollPhase`] as a mathematical value.
pub enum PollPhaseView {
    AwaitClock,
    AwaitStatus,
    AwaitFallback,
    AwaitLogs(TransactionMonitorResultView),
    AwaitBlockTime(TransactionMonitorResultView),
}

impl View for PollPhase {
    type V = PollPhaseView;

    open spec fn view(&self) -> PollPhaseView {
        match *self {
            PollPhase::AwaitClock => PollPhaseView::AwaitClock,
            PollPhase::AwaitStatus => PollPhaseView::AwaitStatus,
            PollPhase::AwaitFallback => PollPhaseView::AwaitFallback,
            PollPhase::AwaitLogs(result) => PollPhaseView::AwaitLogs(result@),
            PollPhase::AwaitBlockTime(result) => PollPhaseView::AwaitBlockTime(result@),
        }
    }
}

/// A monitoring session in progress.
#[derive(Debug)]
pub struct PollLoop {
    signature: String,
    config: TransactionMonitorConfig,
    phase: PollPhase,
}

/// [`PollLoop`] as a mathematical value.
pub struct PollLoopView {
    pub signature: Seq<char>,
    pub config: TransactionMonitorConfig,
    pub phase: PollPhaseView,
}

/// The outcome of one step: either the session goes on with a new request,
/// or it has ended with a result.  A session that has ended is gone: there
/// is no way back from a terminal state.
#[derive(Debug)]
pub enum PollStep {
    Continue(PollLoop, PollAction),
    Done(TransactionMonitorResult),
}

/// [`PollStep`] as a mathematical value.
pub enum PollStepView {
    Continue(PollLoopView, PollAction),
    Done(TransactionMonitorResultView),
}

impl View for PollStep {
    type V = PollStepView;

    open spec fn view(&self) -> PollStepView {
        match *self {
            PollStep::Continue(session, action) => PollStepView::Continue(session@, action),
            PollStep::Done(result) => PollStepView::Done(result@),
        }
    }
}

impl PollLoopView {
    /// A fresh session: it starts by reading the clock.
    pub open spec fn initial(signature: Seq<char>, config: TransactionMonitorConfig) -> Self {
        PollLoopView { signature, config, phase: PollPhaseView::AwaitClock }
    }

    /// A result is held only while it is being enriched, and then it is a
    /// terminal result for the signature of the session.
    pub open spec fn well_formed(self) -> bool {
        match self.phase {
            PollPhaseView::AwaitLogs(found) => found.status.terminal() && found.signature
                == self.signature,
            PollPhaseView::AwaitBlockTime(found) => found.status.terminal() && found.signature
                == self.signature,
            _ => true,
        }
    }

    /// The same session in another phase.
    pub open spec fn at(self, phase: PollPhaseView) -> Self {
        PollLoopView { phase, ..self }
    }

    /// The round is inconclusive: sleep, then look at the clock again.
    pub open spec fn pause(self) -> PollStepView {
        PollStepView::Continue(
            self.at(PollPhaseView::AwaitClock),
            PollAction::Sleep(self.config.poll_interval_ms),
        )
    }

    /// The transition function.  An answer that does not fit the request the
    /// loop is waiting on counts as no answer.  Cancelling counts as the
    /// deadline, unless a terminal state has been seen already: then the
    /// session ends with what it has.
    pub open spec fn next(self, event: PollEventView) -> PollStepView {
        match self.phase {
            PollPhaseView::AwaitClock => match event {
                PollEventView::Elapsed(elapsed) => if elapsed >= self.config.timeout_ms {
                    PollStepView::Done(timeout_result(self.signature))
                } else {
                    PollStepView::Continue(
                        self.at(PollPhaseView::AwaitStatus),
                        PollAction::QueryStatus,
                    )
                },
                PollEventView::Cancelled => PollStepView::Done(timeout_result(self.signature)),
                _ => self.pause(),
            },
            PollPhaseView::AwaitStatus => match event {
                PollEventView::Status(Some(record)) => {
                    let found = status_result(
                        self.signature,
                        record,
                        self.config.confirmations_required,
                    );
                    if found.status is Pending {
                        self.pause()
                    } else if record.slot > 0 {
                        PollStepView::Continue(
                            self.at(PollPhaseView::AwaitLogs(found)),
                            PollAction::FetchLogs,
                        )
                    } else {
                        PollStepView::Done(found)
                    }
                },
                PollEventView::Status(None) => PollStepView::Continue(
                    self.at(PollPhaseView::AwaitFallback),
                    PollAction::FetchTransaction(self.config.commitment),
                ),
                PollEventView::Cancelled => PollStepView::Done(timeout_result(self.signature)),
                _ => self.pause(),
            },
            PollPhaseView::AwaitFallback => match event {
                PollEventView::Transaction(Some(details)) => PollStepView::Done(
                    fallback_result(self.signature, details, self.config.confirmations_required),
                ),
                PollEventView::Cancelled => PollStepView::Done(timeout_result(self.signature)),
                _ => self.pause(),
            },
            PollPhaseView::AwaitLogs(found) => match event {
                PollEventView::Cancelled => PollStepView::Done(found),
                _ => {
                    let lines = match event {
                        PollEventView::Transaction(Some(details)) => match details.logs {
                            Some(lines) => lines,
                            None => found.logs,
                        },
                        _ => found.logs,
                    };
                    PollStepView::Continue(
                        self.at(
                            PollPhaseView::AwaitBlockTime(
                                TransactionMonitorResultView { logs: lines, ..found },
                            ),
                        ),
                        PollAction::QueryBlockTime(found.slot),
                    )
                },
            },
            PollPhaseView::AwaitBlockTime(found) => match event {
                PollEventView::BlockTime(seconds) => PollStepView::Done(
                    TransactionMonitorResultView { block_time: Some(seconds), ..found },
                ),
                _ => PollStepView::Done(found),
            },
        }
    }
}

impl View for PollLoop {
    type V = PollLoopView;

    closed spec fn view(&self) -> PollLoopView {
        PollLoopView { signature: self.signature@, config: self.config, phase: self.phase@ }
    }
}

/// Builds the result of a session that ran into its deadline.
fn timed_out(signature: String) -> (result: TransactionMonitorResult)
    ensures
        result@ == timeout_result(signature@),
{
    let logs: Vec<String> = Vec::new();
    assert(logs.deep_view() =~= Seq::<Seq<char>>::empty());
    TransactionMonitorResult {
        signature,
        status: TransactionStatus::Timeout,
        slot: 0,
        block_time: None,
        confirmations: None,
        logs,
        error: Some(String::from_str("monitoring timeout")),
    }
}

/// Builds the result that a status record stands for, before enrichment.
fn from_status(signature: String, record: SignatureStatus, confirmations_required: u8) -> (result:
    TransactionMonitorResult)
    ensures
        result@ == status_result(signature@, record@, confirmations_required),
{
    let status = evaluate_status(&record, confirmations_required);
    let logs: Vec<String> = Vec::new();
    assert(logs.deep_view() =~= Seq::<Seq<char>>::empty());
    TransactionMonitorResult {
        signature,
        status,
        slot: record.slot,
        block_time: if record.slot > 0 {
            None
        } else {
            Some(0)
        },
        confirmations: match record.confirmations {
            Some(count) => Some((count % 256) as u8),
            None => None,
        },
        logs,
        error: record.err,
    }
}

/// Builds the result for a transaction that only the fallback query found.
fn from_fallback(signature: String, details: TransactionDetails, confirmations_required: u8) -> (result:
    TransactionMonitorResult)
    ensures
        result@ == fallback_result(signature@, details@, confirmations_required),
{
    let logs: Vec<String> = match details.logs {
        Some(lines) => lines,
        None => {
            let none: Vec<String> = Vec::new();
            assert(none.deep_view() =~= Seq::<Seq<char>>::empty());
            none
        },
    };
    TransactionMonitorResult {
        signature,
        status: TransactionStatus::Confirmed,
        slot: details.slot,
        block_time: details.block_time,
        confirmations: Some(confirmations_required),
        logs,
        error: None,
    }
}

impl PollLoop {
    #[verifier::type_invariant]
    spec fn holds_terminal_results_only(self) -> bool {
        self@.well_formed()
    }

    /// Starts a session for a signature.  The first thing the loop wants to
    /// know is the elapsed time.
    pub fn new(signature: String, config: TransactionMonitorConfig) -> (session: PollLoop)
        ensures
            session@ == PollLoopView::initial(signature@, config),
    {
        PollLoop { signature, config, phase: PollPhase::AwaitClock }
    }

    /// The signature under watch.
    pub fn signature(&self) -> (s: &String)
        ensures
            s@ == self@.signature,
    {
        &self.signature
    }

    /// The configuration of this session.
    pub fn config(&self) -> (c: TransactionMonitorConfig)
        ensures
            c == self@.config,
    {
        self.config
    }

    /// The request that the loop is waiting on an answer to; `None` while it
    /// waits for the clock.
    pub fn awaited(&self) -> (a: Option<PollAction>)
        ensures
            a == match self@.phase {
                PollPhaseView::AwaitClock => None,
                PollPhaseView::AwaitStatus => Some(PollAction::QueryStatus),
                PollPhaseView::AwaitFallback => Some(
                    PollAction::FetchTransaction(self@.config.commitment),
                ),
                PollPhaseView::AwaitLogs(_) => Some(PollAction::FetchLogs),
                PollPhaseView::AwaitBlockTime(found) => Some(
                    PollAction::QueryBlockTime(found.slot),
                ),
            },
    {
        match &self.phase {
            PollPhase::AwaitClock => None,
            PollPhase::AwaitStatus => Some(PollAction::QueryStatus),
            PollPhase::AwaitFallback => Some(PollAction::FetchTransaction(self.config.commitment)),
            PollPhase::AwaitLogs(_) => Some(PollAction::FetchLogs),
            PollPhase::AwaitBlockTime(found) => Some(PollAction::QueryBlockTime(found.slot)),
        }
    }

    /// Takes the answer to the previous request and decides what comes next.
    /// A session that ends does so with a terminal result for its signature.
    pub fn step(self, event: PollEvent) -> (outcome: PollStep)
        ensures
            outcome@ == self@.next(event@),
            outcome matches PollStep::Done(result) ==> result.status.terminal() && result.signature@
                == self@.signature,
    {
        proof {
            use_type_invariant(&self);
            lemma_step_keeps_well_formed(self@, event@);
        }
        let PollLoop { signature, config, phase } = self;
        match phase {
            PollPhase::AwaitClock => match event {
                PollEvent::Elapsed(elapsed_ms) => {
                    if elapsed_ms >= config.timeout_ms {
                        PollStep::Done(timed_out(signature))
                    } else {
                        PollStep::Continue(
                            PollLoop { signature, config, phase: PollPhase::AwaitStatus },
                            PollAction::QueryStatus,
                        )
                    }
                },
                PollEvent::Cancelled => PollStep::Done(timed_out(signature)),
                _ => Self::pause(signature, config),
            },
            PollPhase::AwaitStatus => match event {
                PollEvent::Status(Some(record)) => {
                    let slot = record.slot;
                    let held = signature.clone();
                    let found = from_status(signature, record, config.confirmations_required);
                    if !found.status.is_terminal() {
                        Self::pause(held, config)
                    } else if slot > 0 {
                        PollStep::Continue(
                            PollLoop { signature: held, config, phase: PollPhase::AwaitLogs(found) },
                            PollAction::FetchLogs,
                        )
                    } else {
                        PollStep::Done(found)
                    }
                },
                PollEvent::Status(None) => PollStep::Continue(
                    PollLoop { signature, config, phase: PollPhase::AwaitFallback },
                    PollAction::FetchTransaction(config.commitment),
                ),
                PollEvent::Cancelled => PollStep::Done(timed_out(signature)),
                _ => Self::pause(signature, config),
            },
            PollPhase::AwaitFallback => match event {
                PollEvent::Transaction(Some(details)) => PollStep::Done(
                    from_fallback(signature, details, config.confirmations_required),
                ),
                PollEvent::Cancelled => PollStep::Done(timed_out(signature)),
                _ => Self::pause(signature, config),
            },
            PollPhase::AwaitLogs(found) => {
                let slot = found.slot;
                let enriched = match event {
                    PollEvent::Cancelled => {
                        return PollStep::Done(found);
                    },
                    PollEvent::Transaction(Some(details)) => match details.logs {
                        Some(lines) => TransactionMonitorResult { logs: lines, ..found },
                        None => found,
                    },
                    _ => found,
                };
                PollStep::Continue(
                    PollLoop { signature, config, phase: PollPhase::AwaitBlockTime(enriched) },
                    PollAction::QueryBlockTime(slot),
                )
            },
            PollPhase::AwaitBlockTime(found) => match event {
                PollEvent::BlockTime(seconds) => PollStep::Done(
                    TransactionMonitorResult { block_time: Some(seconds), ..found },
                ),
                _ => PollStep::Done(found),
            },
        }
    }

    /// Ends an inconclusive round.
    fn pause(signature: String, config: TransactionMonitorConfig) -> (outcome: PollStep)
        ensures
            outcome@ == PollLoopView::initial(signature@, config).pause(),
    {
        PollStep::Continue(
            PollLoop { signature, config, phase: PollPhase::AwaitClock },
            PollAction::Sleep(config.poll_interval_ms),
        )
    }
}


/// Where a session that waits for the status probe ends up once the probe
/// has answered with `record` and the two enrichment queries, if they are
/// made, have been answered with `logs_answer` and `time_answer`.
pub open spec fn after_status(
    session: PollLoopView,
    record: SignatureStatusView,
    logs_answer: PollEventView,
    time_answer: PollEventView,
) -> PollStepView {
    match session.next(PollEventView::Status(Some(record))) {
        PollStepView::Continue(enriching, PollAction::FetchLogs) => match enriching.next(
            logs_answer,
        ) {
            PollStepView::Continue(timing, _) => timing.next(time_answer),
            done => done,
        },
        other => other,
    }
}

/// A status record that carries an error ends the session as `Failed`, with
/// that error, in the round in which it is seen.  Nothing observed earlier
/// matters, and no answer to the enrichment queries changes the state.
pub proof fn lemma_error_record_fails(
    session: PollLoopView,
    record: SignatureStatusView,
    logs_answer: PollEventView,
    time_answer: PollEventView,
)
    requires
        session.phase is AwaitStatus,
        record.err is Some,
    ensures
        after_status(session, record, logs_answer, time_answer) matches PollStepView::Done(result)
            && result.status == TransactionStatus::Failed && result.error == record.err
            && result.signature == session.signature && result.slot == record.slot,
{
}

/// A status record without error and without a confirmation count ends the
/// session as `Finalized` in the round in which it is seen, whether or not a
/// pending state was observed before.
pub proof fn lemma_missing_count_finalizes(
    session: PollLoopView,
    record: SignatureStatusView,
    logs_answer: PollEventView,
    time_answer: PollEventView,
)
    requires
        session.phase is AwaitStatus,
        record.err is None,
        record.confirmations is None,
    ensures
        after_status(session, record, logs_answer, time_answer) matches PollStepView::Done(result)
            && result.status == TransactionStatus::Finalized && result.error is None
            && result.signature == session.signature && result.slot == record.slot,
{
}

/// A status record without error whose confirmation count reaches the
/// threshold ends the session as `Confirmed`; one below the threshold ends
/// nothing: the loop sleeps for the poll interval and looks again.
pub proof fn lemma_count_decides(
    session: PollLoopView,
    record: SignatureStatusView,
    logs_answer: PollEventView,
    time_answer: PollEventView,
)
    requires
        session.phase is AwaitStatus,
        record.err is None,
        record.confirmations is Some,
    ensures
        record.confirmations->0 >= session.config.confirmations_required ==> (after_status(
            session,
            record,
            logs_answer,
            time_answer,
        ) matches PollStepView::Done(result) && result.status == TransactionStatus::Confirmed),
        record.confirmations->0 < session.config.confirmations_required ==> after_status(
            session,
            record,
            logs_answer,
            time_answer,
        ) == session.pause(),
{
}

/// Once a terminal status has been seen, failed or cancelled enrichment
/// leaves the result as the status record gave it, and log lines or a block
/// time that do arrive are added to it without touching anything else.
pub proof fn lemma_enrichment_keeps_state(
    session: PollLoopView,
    record: SignatureStatusView,
    logs_answer: PollEventView,
    time_answer: PollEventView,
)
    requires
        session.phase is AwaitStatus,
        status_of_record(session, record).terminal(),
    ensures
        after_status(session, record, logs_answer, time_answer) matches PollStepView::Done(result)
            && ({
            let found = status_result(
                session.signature,
                record,
                session.config.confirmations_required,
            );
            &&& result.status == found.status
            &&& result.signature == found.signature
            &&& result.slot == found.slot
            &&& result.confirmations == found.confirmations
            &&& result.error == found.error
            &&& result.logs == (if record.slot > 0 {
                lines_in(logs_answer)
            } else {
                Seq::empty()
            })
            &&& result.block_time == (if record.slot == 0 {
                Some(0i64)
            } else if logs_answer is Cancelled {
                None
            } else {
                time_in(time_answer)
            })
        }),
{
}

/// The log lines that an answer to the log query carries: those of a
/// transaction that was found and has any, and none otherwise.
pub open spec fn lines_in(answer: PollEventView) -> Seq<Seq<char>> {
    match answer {
        PollEventView::Transaction(Some(details)) => match details.logs {
            Some(lines) => lines,
            None => Seq::empty(),
        },
        _ => Seq::empty(),
    }
}

/// The block time that an answer to the block-time query carries, if any.
pub open spec fn time_in(answer: PollEventView) -> Option<i64> {
    match answer {
        PollEventView::BlockTime(seconds) => Some(seconds),
        _ => None,
    }
}

/// The state that `record` stands for under the session's threshold.
pub open spec fn status_of_record(session: PollLoopView, record: SignatureStatusView)
    -> TransactionStatus {
    status_result(session.signature, record, session.config.confirmations_required).status
}

/// A session under an ideal clock and a node that never settles: every probe
/// answers with the same `record`, queries take no time, and a sleep takes
/// exactly as long as asked.  Starting from a clock reading of `elapsed`,
/// this gives the number of status probes made and the result the session
/// ends with.
pub open spec fn unsettled_run(session: PollLoopView, record: SignatureStatusView, elapsed: nat)
    -> (nat, Option<TransactionMonitorResultView>)
    decreases
        (if elapsed < session.config.timeout_ms {
            session.config.timeout_ms - elapsed
        } else {
            0
        }),
{
    match session.next(PollEventView::Elapsed(elapsed)) {
        PollStepView::Done(result) => (0, Some(result)),
        PollStepView::Continue(probing, _) => match probing.next(
            PollEventView::Status(Some(record)),
        ) {
            PollStepView::Continue(sleeping, PollAction::Sleep(ms)) => if ms > 0
                && sleeping.config == session.config && elapsed < session.config.timeout_ms {
                let rest = unsettled_run(sleeping, record, elapsed + ms as nat);
                (rest.0 + 1, rest.1)
            } else {
                (1, None)
            },
            _ => (1, None),
        },
    }
}

/// The number of polls that fit before the deadline when the first is made
/// at `elapsed` and each following one an interval later.
pub open spec fn polls_left(config: TransactionMonitorConfig, elapsed: nat) -> nat {
    if elapsed >= config.timeout_ms || config.poll_interval_ms == 0 {
        0
    } else {
        ((config.timeout_ms - elapsed + config.poll_interval_ms - 1)
            / config.poll_interval_ms as int) as nat
    }
}

proof fn lemma_unsettled_from(session: PollLoopView, record: SignatureStatusView, elapsed: nat)
    requires
        session.phase is AwaitClock,
        session.config.poll_interval_ms > 0,
        status_of_record(session, record) is Pending,
    ensures
        unsettled_run(session, record, elapsed) == (
            polls_left(session.config, elapsed),
            Some(timeout_result(session.signature)),
        ),
    decreases
        (if elapsed < session.config.timeout_ms {
            session.config.timeout_ms - elapsed
        } else {
            0
        }),
{
    let timeout = session.config.timeout_ms as int;
    let interval = session.config.poll_interval_ms as int;
    if elapsed < timeout {
        let sleeping = session.at(PollPhaseView::AwaitClock);
        assert(session.next(PollEventView::Elapsed(elapsed)) == PollStepView::Continue(
            session.at(PollPhaseView::AwaitStatus),
            PollAction::QueryStatus,
        ));
        assert(session.at(PollPhaseView::AwaitStatus).next(PollEventView::Status(Some(record)))
            == PollStepView::Continue(sleeping, PollAction::Sleep(session.config.poll_interval_ms)));
        lemma_unsettled_from(sleeping, record, elapsed + interval as nat);
        lemma_polls_left_step(session.config, elapsed);
    }
}

/// With a deadline of `T` and a poll interval of `P > 0`, a session whose
/// probe always answers with a pending record polls exactly `ceil(T / P)`
/// times under an ideal clock, and then ends as `Timeout`.
pub proof fn lemma_unsettled_session_times_out(session: PollLoopView, record: SignatureStatusView)
    requires
        session.phase is AwaitClock,
        session.config.poll_interval_ms > 0,
        status_of_record(session, record) is Pending,
    ensures
        unsettled_run(session, record, 0) == (
            ((session.config.timeout_ms + session.config.poll_interval_ms - 1)
                / session.config.poll_interval_ms as int) as nat,
            Some(timeout_result(session.signature)),
        ),
        timeout_result(session.signature).status == TransactionStatus::Timeout,
{
    lemma_unsettled_from(session, record, 0);
    if session.config.timeout_ms == 0 {
        let interval = session.config.poll_interval_ms as int;
        assert((0 + interval - 1) / interval == 0) by (nonlinear_arith)
            requires
                interval > 0,
        ;
    }
}


/// A session that is cancelled before it has seen a terminal state ends at
/// once, with the result of a timeout.
pub proof fn lemma_cancelling_is_an_early_timeout(session: PollLoopView)
    requires
        session.phase is AwaitClock || session.phase is AwaitStatus
            || session.phase is AwaitFallback,
    ensures
        session.next(PollEventView::Cancelled) == PollStepView::Done(
            timeout_result(session.signature),
        ),
{
}


/// Well-formed sessions stay well-formed, under the same signature and
/// configuration, and end only in a terminal state: whatever happens, a
/// result never says `Pending`, and it names the signature of its session.
pub proof fn lemma_step_keeps_well_formed(session: PollLoopView, event: PollEventView)
    requires
        session.well_formed(),
    ensures
        match session.next(event) {
            PollStepView::Continue(after, _) => after.well_formed() && after.signature
                == session.signature && after.config == session.config,
            PollStepView::Done(result) => result.status.terminal() && result.signature
                == session.signature,
        },
{
}


/// A session under any clock and a node that never settles: every probe
/// answers with the same `record`, and the clock is read as `clock[0]` at
/// the start and as `clock[i]` after the sleep number `i`.  This gives the
/// number of status probes made and the result the session ends with, if
/// it ends before the readings run out.
pub open spec fn unsettled_run_by(
    session: PollLoopView,
    record: SignatureStatusView,
    clock: Seq<nat>,
) -> (nat, Option<TransactionMonitorResultView>)
    decreases clock.len(),
{
    if clock.len() == 0 {
        (0, None)
    } else {
        match session.next(PollEventView::Elapsed(clock[0])) {
            PollStepView::Done(result) => (0, Some(result)),
            PollStepView::Continue(probing, _) => match probing.next(
                PollEventView::Status(Some(record)),
            ) {
                PollStepView::Continue(sleeping, PollAction::Sleep(_)) => {
                    let rest = unsettled_run_by(sleeping, record, clock.drop_first());
                    (rest.0 + 1, rest.1)
                },
                _ => (1, None),
            },
        }
    }
}

/// The later the first poll, the fewer polls fit before the deadline.
proof fn lemma_polls_left_shrink(config: TransactionMonitorConfig, sooner: nat, later: nat)
    requires
        sooner <= later,
    ensures
        polls_left(config, later) <= polls_left(config, sooner),
{
    let timeout = config.timeout_ms as int;
    let interval = config.poll_interval_ms as int;
    if later < timeout && interval > 0 {
        assert((timeout - later + interval - 1) / interval <= (timeout - sooner + interval - 1)
            / interval) by (nonlinear_arith)
            requires
                0 <= sooner <= later < timeout,
                interval > 0,
        ;
    }
}

/// A poll now and the polls that fit from one interval later on are the
/// polls that fit from now on.
proof fn lemma_polls_left_step(config: TransactionMonitorConfig, elapsed: nat)
    requires
        elapsed < config.timeout_ms,
        config.poll_interval_ms > 0,
    ensures
        polls_left(config, elapsed) == 1 + polls_left(
            config,
            elapsed + config.poll_interval_ms as nat,
        ),
{
    let interval = config.poll_interval_ms as int;
    let left = config.timeout_ms - elapsed;
    if left <= interval {
        assert((left + interval - 1) / interval == 1) by (nonlinear_arith)
            requires
                0 < left <= interval,
        ;
    } else {
        assert((left + interval - 1) / interval == (left - interval + interval - 1) / interval + 1)
            by (nonlinear_arith)
            requires
                0 < interval < left,
        ;
    }
}

/// Under a real clock, on which queries take time and a sleep takes at
/// least as long as asked, a session whose probe always answers with a
/// pending record never polls more often than `ceil(T / P)` times, and if
/// it ends, it ends as `Timeout`.
pub proof fn lemma_unsettled_session_polls_at_most(
    session: PollLoopView,
    record: SignatureStatusView,
    clock: Seq<nat>,
)
    requires
        session.phase is AwaitClock,
        session.config.poll_interval_ms > 0,
        status_of_record(session, record) is Pending,
        clock.len() > 0,
        forall|i: int|
            0 <= i < clock.len() - 1 ==> #[trigger] clock[i + 1] >= clock[i]
                + session.config.poll_interval_ms,
    ensures
        unsettled_run_by(session, record, clock).0 <= polls_left(session.config, clock[0]),
        polls_left(session.config, clock[0]) <= polls_left(session.config, 0),
        unsettled_run_by(session, record, clock).1 matches Some(result) ==> result
            == timeout_result(session.signature),
    decreases clock.len(),
{
    lemma_polls_left_shrink(session.config, 0, clock[0]);
    if clock[0] < session.config.timeout_ms {
        let sleeping = session.at(PollPhaseView::AwaitClock);
        assert(session.next(PollEventView::Elapsed(clock[0])) == PollStepView::Continue(
            session.at(PollPhaseView::AwaitStatus),
            PollAction::QueryStatus,
        ));
        assert(session.at(PollPhaseView::AwaitStatus).next(PollEventView::Status(Some(record)))
            == PollStepView::Continue(sleeping, PollAction::Sleep(session.config.poll_interval_ms)));
        lemma_polls_left_step(session.config, clock[0]);
        let rest = clock.drop_first();
        assert(unsettled_run_by(session, record, clock).0 == unsettled_run_by(
            sleeping,
            record,
            rest,
        ).0 + 1);
        if rest.len() > 0 {
            assert(rest[0] == clock[0int + 1]);
            assert forall|i: int| 0 <= i < rest.len() - 1 implies #[trigger] rest[i + 1] >= rest[i]
                + session.config.poll_interval_ms by {
                assert(rest[i + 1] == clock[(i + 1) + 1]);
                assert(rest[i] == clock[i + 1]);
            }
            lemma_unsettled_session_polls_at_most(sleeping, record, rest);
            lemma_polls_left_shrink(
                session.config,
                clock[0] + session.config.poll_interval_ms as nat,
                rest[0],
            );
        }
    }
}

} // verus!
