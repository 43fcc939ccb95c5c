//! Transaction confirmation monitor.
//!
//! A [`PollLoop`] follows one signature until the ledger node reports a
//! terminal state or the deadline passes.  It never talks to the node itself:
//! each call of [`PollLoop::step`] takes the answer to the previous request
//! and returns the next thing to do.  The caller performs that action (a
//! query, a sleep) and comes back with what happened.

use crate::poll_loop::{PollLoop, PollLoopView};
use crate::types::JupiterError;
use std::str::FromStr;
use vstd::prelude::*;

verus! {

/// How certain the node must be of a transaction before it reports it.
#[derive(Debug, Clone, Copy, PartialEq, Eq, Structural)]
pub enum CommitmentLevel {
    Processed,
    Confirmed,
    Finalized,
}

/// Configuration for transaction monitoring
#[derive(Debug, Clone, Copy)]
pub struct TransactionMonitorConfig {
    /// Deadline, in milliseconds since monitoring began.
    pub timeout_ms: u64,
    /// Pause between two polls, in milliseconds.
    pub poll_interval_ms: u64,
    pub commitment: CommitmentLevel,
    pub confirmations_required: u8,
}

impl TransactionMonitorConfig {
    /// A configuration under which the loop polls at least once and makes
    /// progress towards its deadline.
    pub open spec fn well_formed(self) -> bool {
        self.poll_interval_ms > 0 && self.timeout_ms >= self.poll_interval_ms
    }

    /// Checks [`Self::well_formed`].
    pub fn is_well_formed(&self) -> (b: bool)
        ensures
            b == self.well_formed(),
    {
        self.poll_interval_ms > 0 && self.timeout_ms >= self.poll_interval_ms
    }
}

impl Default for TransactionMonitorConfig {
    fn default() -> (c: Self)
        ensures
            c.timeout_ms == 60_000,
            c.poll_interval_ms == 2_000,
            c.commitment == CommitmentLevel::Confirmed,
            c.confirmations_required == 1,
            c.well_formed(),
    {
        TransactionMonitorConfig {
            timeout_ms: 60_000,
            poll_interval_ms: 2_000,
            commitment: CommitmentLevel::Confirmed,
            confirmations_required: 1,
        }
    }
}

/// Transaction status
#[derive(Debug, Clone, Copy, PartialEq, Eq, Structural)]
pub enum TransactionStatus {
    Pending,
    Confirmed,
    Finalized,
    Failed,
    Timeout,
}

impl TransactionStatus {
    /// Every status but `Pending` ends a monitoring session.
    pub open spec fn terminal(self) -> bool {
        !(self is Pending)
    }

    /// Whether monitoring stops at this status.
    pub fn is_terminal(&self) -> (b: bool)
        ensures
            b == self.terminal(),
    {
        match self {
            TransactionStatus::Pending => false,
            _ => true,
        }
    }
}

/// What the node's status query knows of a signature.
#[derive(Debug, Clone)]
pub struct SignatureStatus {
    pub slot: u64,
    /// Blocks produced since the transaction's block; absent once the
    /// transaction has left the node's confirmation window.
    pub confirmations: Option<u32>,
    /// The error the transaction ended with, if it failed on the ledger.
    pub err: Option<String>,
}

/// [`SignatureStatus`] as a mathematical value.
pub struct SignatureStatusView {
    pub slot: u64,
    pub confirmations: Option<u32>,
    pub err: Option<Seq<char>>,
}

impl View for SignatureStatus {
    type V = SignatureStatusView;

    open spec fn view(&self) -> SignatureStatusView {
        SignatureStatusView {
            slot: self.slot,
            confirmations: self.confirmations,
            err: self.err.deep_view(),
        }
    }
}

/// What the node's transaction query returns for a signature.
#[derive(Debug, Clone)]
pub struct TransactionDetails {
    pub slot: u64,
    pub block_time: Option<i64>,
    pub logs: Option<Vec<String>>,
}

/// [`TransactionDetails`] as a mathematical value.
pub struct TransactionDetailsView {
    pub slot: u64,
    pub block_time: Option<i64>,
    pub logs: Option<Seq<Seq<char>>>,
}

impl View for TransactionDetails {
    type V = TransactionDetailsView;

    open spec fn view(&self) -> TransactionDetailsView {
        TransactionDetailsView {
            slot: self.slot,
            block_time: self.block_time,
            logs: self.logs.deep_view(),
        }
    }
}

/// Transaction monitoring result
#[derive(Debug, Clone)]
pub struct TransactionMonitorResult {
    pub signature: String,
    pub status: TransactionStatus,
    pub slot: u64,
    pub block_time: Option<i64>,
    pub confirmations: Option<u8>,
    pub logs: Vec<String>,
    pub error: Option<String>,
}

/// [`TransactionMonitorResult`] as a mathematical value.
pub struct TransactionMonitorResultView {
    pub signature: Seq<char>,
    pub status: TransactionStatus,
    pub slot: u64,
    pub block_time: Option<i64>,
    pub confirmations: Option<u8>,
    pub logs: Seq<Seq<char>>,
    pub error: Option<Seq<char>>,
}

impl View for TransactionMonitorResult {
    type V = TransactionMonitorResultView;

    open spec fn view(&self) -> TransactionMonitorResultView {
        TransactionMonitorResultView {
            signature: self.signature@,
            status: self.status,
            slot: self.slot,
            block_time: self.block_time,
            confirmations: self.confirmations,
            logs: self.logs.deep_view(),
            error: self.error.deep_view(),
        }
    }
}

/// The state that a status record stands for, in order of precedence: an
/// error on the record means failure; a record without a confirmation count
/// has left the confirmation window and is final; a count that reaches the
/// threshold confirms; anything less is still pending.
pub open spec fn status_of(record: SignatureStatusView, confirmations_required: u8)
    -> TransactionStatus {
    if record.err is Some {
        TransactionStatus::Failed
    } else if record.confirmations is None {
        TransactionStatus::Finalized
    } else if record.confirmations->0 >= confirmations_required {
        TransactionStatus::Confirmed
    } else {
        TransactionStatus::Pending
    }
}

/// Reconciles one status record into a transaction state.
pub fn evaluate_status(record: &SignatureStatus, confirmations_required: u8) -> (status:
    TransactionStatus)
    ensures
        status == status_of(record@, confirmations_required),
        record.err is Some ==> status == TransactionStatus::Failed,
        record.err is None && record.confirmations is None ==> status
            == TransactionStatus::Finalized,
        status != TransactionStatus::Timeout,
{
    if record.err.is_some() {
        TransactionStatus::Failed
    } else {
        match record.confirmations {
            None => TransactionStatus::Finalized,
            Some(count) => {
                if count >= confirmations_required as u32 {
                    TransactionStatus::Confirmed
                } else {
                    TransactionStatus::Pending
                }
            },
        }
    }
}

/// The message carried by a result that gave up at the deadline.
pub open spec fn timeout_message() -> Seq<char> {
    "monitoring timeout"@
}

/// The result of a session that reached its deadline without a terminal state.
pub open spec fn timeout_result(signature: Seq<char>) -> TransactionMonitorResultView {
    TransactionMonitorResultView {
        signature,
        status: TransactionStatus::Timeout,
        slot: 0,
        block_time: None,
        confirmations: None,
        logs: Seq::empty(),
        error: Some(timeout_message()),
    }
}

/// The result that a status record yields before log lines and block time
/// are added.  A record in slot 0 has no block to ask about and reports
/// block time 0.  The confirmation count is reported modulo 256.
pub open spec fn status_result(
    signature: Seq<char>,
    record: SignatureStatusView,
    confirmations_required: u8,
) -> TransactionMonitorResultView {
    TransactionMonitorResultView {
        signature,
        status: status_of(record, confirmations_required),
        slot: record.slot,
        block_time: if record.slot > 0 {
            None
        } else {
            Some(0i64)
        },
        confirmations: match record.confirmations {
            Some(count) => Some((count % 256) as u8),
            None => None,
        },
        logs: Seq::empty(),
        error: record.err,
    }
}

/// The result for a transaction that the status probe does not know but the
/// transaction query found: confirmed, with exactly the required number of
/// confirmations and the log lines of the fetched transaction.
pub open spec fn fallback_result(
    signature: Seq<char>,
    details: TransactionDetailsView,
    confirmations_required: u8,
) -> TransactionMonitorResultView {
    TransactionMonitorResultView {
        signature,
        status: TransactionStatus::Confirmed,
        slot: details.slot,
        block_time: details.block_time,
        confirmations: Some(confirmations_required),
        logs: match details.logs {
            Some(lines) => lines,
            None => Seq::empty(),
        },
        error: None,
    }
}


/// The result that stands in for a signature whose monitoring raised an
/// error instead of reaching a state.
pub open spec fn failed_result(signature: Seq<char>, reason: Seq<char>)
    -> TransactionMonitorResultView {
    TransactionMonitorResultView {
        signature,
        status: TransactionStatus::Failed,
        slot: 0,
        block_time: None,
        confirmations: None,
        logs: Seq::empty(),
        error: Some(reason),
    }
}

/// The configuration of a session: the one given, or the default.
pub open spec fn effective_config(config: Option<TransactionMonitorConfig>)
    -> TransactionMonitorConfig {
    match config {
        Some(given) => given,
        None => TransactionMonitorConfig {
            timeout_ms: 60_000,
            poll_interval_ms: 2_000,
            commitment: CommitmentLevel::Confirmed,
            confirmations_required: 1,
        },
    }
}

/// What decoding a transaction signature from its base58 text gives: the
/// signature written back in base58, or the decoder's message.
pub uninterp spec fn signature_parse(text: Seq<char>) -> Result<Seq<char>, Seq<char>>;

/// A parse outcome as a mathematical value.
pub open spec fn parse_view(parsed: Result<String, String>) -> Result<Seq<char>, Seq<char>> {
    match parsed {
        Ok(text) => Ok(text@),
        Err(reason) => Err(reason@),
    }
}

/// Decodes a signature with `solana_sdk::signature::Signature::from_str`.
///
/// Trusted, not proved: the outcome depends on the text alone.  On success
/// it holds the `Display` form of the decoded signature, on failure the
/// `Display` form of the decoder's error.
#[verifier::external_body]
fn parse_signature(text: &str) -> (parsed: Result<String, String>)
    ensures
        parse_view(parsed) == signature_parse(text@),
{
    match solana_sdk::signature::Signature::from_str(text) {
        Ok(signature) => Ok(signature.to_string()),
        Err(error) => Err(error.to_string()),
    }
}

/// Transaction monitor for tracking Solana transaction status
#[derive(Debug, Clone, Copy)]
pub struct Monitor;

impl Monitor {
    /// Opens a monitoring session for a signature given as base58 text.
    ///
    /// A signature that does not decode is refused as invalid input, with
    /// the decoder's message; any other is watched under its decoded form.
    pub fn begin(&self, signature: &str, config: Option<TransactionMonitorConfig>) -> (opened:
        Result<PollLoop, JupiterError>)
        ensures
            match signature_parse(signature@) {
                Ok(decoded) => opened matches Ok(session) && session@ == PollLoopView::initial(
                    decoded,
                    effective_config(config),
                ),
                Err(reason) => opened matches Err(JupiterError::InvalidInput(detail)) && detail@
                    == reason,
            },
    {
        Self::begin_parsed(parse_signature(signature), config)
    }

    /// Opens a monitoring session from the outcome of decoding a signature.
    pub fn begin_parsed(
        parsed: Result<String, String>,
        config: Option<TransactionMonitorConfig>,
    ) -> (opened: Result<PollLoop, JupiterError>)
        ensures
            match parsed {
                Ok(decoded) => opened matches Ok(session) && session@ == PollLoopView::initial(
                    decoded@,
                    effective_config(config),
                ),
                Err(reason) => opened matches Err(JupiterError::InvalidInput(detail)) && detail@
                    == reason@,
            },
    {
        let config = match config {
            Some(given) => given,
            None => TransactionMonitorConfig::default(),
        };
        match parsed {
            Ok(decoded) => Ok(PollLoop::new(decoded, config)),
            Err(reason) => Err(JupiterError::InvalidInput(reason)),
        }
    }

    /// Builds the result that takes the place of a signature whose
    /// monitoring raised `error`.
    pub fn failure(signature: String, error: &JupiterError) -> (result: TransactionMonitorResult)
        ensures
            result@ == failed_result(signature@, error.message_spec()),
    {
        let logs: Vec<String> = Vec::new();
        assert(logs.deep_view() =~= Seq::<Seq<char>>::empty());
        TransactionMonitorResult {
            signature,
            status: TransactionStatus::Failed,
            slot: 0,
            block_time: None,
            confirmations: None,
            logs,
            error: Some(error.message()),
        }
    }
}

} // verus!
