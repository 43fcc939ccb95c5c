use jup_sdk::batch::BatchMonitor;
use jup_sdk::monitor::{
    CommitmentLevel, SignatureStatus, TransactionMonitorConfig, TransactionMonitorResult,
    TransactionStatus,
};
use jup_sdk::poll_loop::{PollAction, PollEvent, PollLoop, PollStep};
use jup_sdk::types::JupiterError;

fn signature_text(fill: u8) -> String {
    solana_sdk::signature::Signature::from([fill; 64]).to_string()
}

fn quick_config() -> TransactionMonitorConfig {
    TransactionMonitorConfig {
        timeout_ms: 5_000,
        poll_interval_ms: 2_000,
        commitment: CommitmentLevel::Confirmed,
        confirmations_required: 1,
    }
}

/// Runs a session against a node that knows the signature as finalized in
/// the given slot, with no enrichment available.
fn resolve(session: PollLoop, slot: u64) -> TransactionMonitorResult {
    let mut session = session;
    let mut event = PollEvent::Elapsed(0);
    loop {
        match session.step(event) {
            PollStep::Done(result) => return result,
            PollStep::Continue(next, action) => {
                session = next;
                event = match action {
                    PollAction::QueryStatus => PollEvent::Status(Some(SignatureStatus {
                        slot,
                        confirmations: None,
                        err: None,
                    })),
                    _ => PollEvent::Unavailable,
                };
            }
        }
    }
}

fn plain_result(signature: &str, slot: u64) -> TransactionMonitorResult {
    TransactionMonitorResult {
        signature: signature.to_string(),
        status: TransactionStatus::Confirmed,
        slot,
        block_time: None,
        confirmations: Some(1),
        logs: Vec::new(),
        error: None,
    }
}

#[test]
fn malformed_signature_fails_alone_in_a_batch() {
    let first = signature_text(1);
    let third = signature_text(3);
    let signatures = vec![first.clone(), "not-a-signature".to_string(), third.clone()];
    let mut batch = BatchMonitor::new(signatures, Some(quick_config()));
    assert_eq!(batch.len(), 3);
    let mut index = 0;
    while index < batch.len() {
        if let Some(session) = batch.open(index) {
            let result = resolve(session, 40 + index as u64);
            batch.record(index, Ok(result));
        }
        index += 1;
    }
    let results = batch.finish().expect("every slot is filled");
    assert_eq!(results.len(), 3);
    assert_eq!(results[0].signature, first);
    assert_eq!(results[0].status, TransactionStatus::Finalized);
    assert_eq!(results[0].slot, 40);
    assert_eq!(results[1].signature, "not-a-signature");
    assert_eq!(results[1].status, TransactionStatus::Failed);
    assert_eq!(results[1].slot, 0);
    assert_eq!(results[1].block_time, None);
    assert_eq!(results[1].confirmations, None);
    assert!(results[1].logs.is_empty());
    assert_eq!(
        results[1].error.as_deref(),
        Some("Invalid input: failed to decode string to signature")
    );
    assert_eq!(results[2].signature, third);
    assert_eq!(results[2].status, TransactionStatus::Finalized);
    assert_eq!(results[2].slot, 42);
}

#[test]
fn results_come_out_in_input_order_whatever_the_completion_order() {
    let signatures = vec!["a".to_string(), "b".to_string(), "c".to_string(), "d".to_string()];
    let mut batch = BatchMonitor::new(signatures, None);
    batch.record(2, Ok(plain_result("c", 3)));
    batch.record(0, Ok(plain_result("a", 1)));
    batch.record(3, Ok(plain_result("d", 4)));
    assert!(!batch.is_complete());
    assert_eq!(batch.pending(), Some(1));
    batch.record(1, Ok(plain_result("b", 2)));
    assert!(batch.is_complete());
    assert_eq!(batch.pending(), None);
    let results = batch.finish().expect("complete");
    let order: Vec<(String, u64)> =
        results.into_iter().map(|result| (result.signature, result.slot)).collect();
    assert_eq!(
        order,
        vec![
            ("a".to_string(), 1),
            ("b".to_string(), 2),
            ("c".to_string(), 3),
            ("d".to_string(), 4)
        ]
    );
}

#[test]
fn unfinished_batch_hands_out_nothing() {
    let mut batch = BatchMonitor::new(vec!["a".to_string(), "b".to_string()], None);
    batch.record(1, Ok(plain_result("b", 2)));
    assert_eq!(batch.pending(), Some(0));
    assert!(batch.finish().is_none());
}

#[test]
fn empty_batch_is_complete_at_once() {
    let batch = BatchMonitor::new(Vec::new(), None);
    assert_eq!(batch.len(), 0);
    assert!(batch.is_complete());
    let results = batch.finish().expect("nothing to wait for");
    assert!(results.is_empty());
}

#[test]
fn recorded_error_becomes_failed_result_for_that_signature() {
    let mut batch = BatchMonitor::new(vec!["a".to_string(), "b".to_string()], None);
    batch.record(0, Err(JupiterError::NetworkError("unreachable".to_string())));
    batch.record(1, Err(JupiterError::TransactionFailed("rejected".to_string())));
    let results = batch.finish().expect("complete");
    assert_eq!(results[0].signature, "a");
    assert_eq!(results[0].status, TransactionStatus::Failed);
    assert_eq!(results[0].error.as_deref(), Some("Network error: unreachable"));
    assert_eq!(results[1].signature, "b");
    assert_eq!(results[1].error.as_deref(), Some("Parse error: rejected"));
}

#[test]
fn later_record_replaces_earlier_one() {
    let mut batch = BatchMonitor::new(vec!["a".to_string()], None);
    batch.record(0, Ok(plain_result("a", 1)));
    batch.record(0, Ok(plain_result("a", 9)));
    let results = batch.finish().expect("complete");
    assert_eq!(results[0].slot, 9);
}

#[test]
fn open_leaves_batch_untouched_for_valid_signature() {
    let text = signature_text(5);
    let mut batch = BatchMonitor::new(vec![text.clone()], Some(quick_config()));
    let session = batch.open(0).expect("valid signature");
    assert_eq!(session.signature(), &text);
    assert_eq!(session.config().timeout_ms, 5_000);
    assert_eq!(batch.signature(0), &text);
    assert_eq!(batch.pending(), Some(0));
}
