//! Monitoring many signatures at once.
//!
//! Each signature is a failure domain of its own.  A [`BatchMonitor`] keeps
//! one slot per signature, in the order given.  Sessions may be run one
//! after another or side by side, and may finish in any order: an outcome is
//! filed under the index of its signature, so the results come out in the
//! order in which the signatures went in.

use crate::monitor::{
    effective_config, failed_result, signature_parse, Monitor, TransactionMonitorConfig,
    TransactionMonitorResult, TransactionMonitorResultView,
};
use crate::poll_loop::{PollLoop, PollLoopView};
use crate::types::JupiterError;
use vstd::prelude::*;

verus! {

/// The result filed for a signature whose monitoring ended with `outcome`:
/// the result itself, or a failed result that carries the error's text.
pub open spec fn resolution(
    signature: Seq<char>,
    outcome: Result<TransactionMonitorResult, JupiterError>,
) -> TransactionMonitorResultView {
    match outcome {
        Ok(result) => result@,
        Err(error) => failed_result(signature, error.message_spec()),
    }
}

/// One signature of a batch, with its result once it has one.
#[derive(Debug)]
struct BatchSlot {
    signature: String,
    result: Option<TransactionMonitorResult>,
}

/// A batch in progress.
#[derive(Debug)]
pub struct BatchMonitor {
    slots: Vec<BatchSlot>,
    config: TransactionMonitorConfig,
}

/// [`BatchMonitor`] as a mathematical value.
pub struct BatchMonitorView {
    /// The signatures as given, in order.
    pub signatures: Seq<Seq<char>>,
    pub config: TransactionMonitorConfig,
    /// One slot per signature: what was filed for it, if anything yet.
    pub results: Seq<Option<TransactionMonitorResultView>>,
}

impl BatchMonitorView {
    /// A batch with every slot empty.
    pub open spec fn fresh(signatures: Seq<Seq<char>>, config: TransactionMonitorConfig) -> Self {
        BatchMonitorView {
            signatures,
            config,
            results: Seq::new(signatures.len(), |i: int| None),
        }
    }

    /// One slot per signature.
    pub open spec fn well_formed(self) -> bool {
        self.results.len() == self.signatures.len()
    }

    /// The batch after `result` has been filed under `index`.
    pub open spec fn filed(self, index: int, result: TransactionMonitorResultView) -> Self {
        BatchMonitorView { results: self.results.update(index, Some(result)), ..self }
    }

    /// Whether every slot holds a result.
    pub open spec fn complete(self) -> bool {
        forall|i: int| 0 <= i < self.results.len() ==> (#[trigger] self.results[i]) is Some
    }
}

/// A slot as a mathematical value.
pub open spec fn slot_view(slot: Option<TransactionMonitorResult>) -> Option<
    TransactionMonitorResultView,
> {
    match slot {
        Some(result) => Some(result@),
        None => None,
    }
}

impl View for BatchMonitor {
    type V = BatchMonitorView;

    closed spec fn view(&self) -> BatchMonitorView {
        BatchMonitorView {
            signatures: self.slots@.map_values(|slot: BatchSlot| slot.signature@),
            config: self.config,
            results: self.slots@.map_values(|slot: BatchSlot| slot_view(slot.result)),
        }
    }
}

impl BatchMonitor {
    /// Opens a batch over `signatures`, with the given configuration or the
    /// default one.  Malformed signatures are welcome: they fail alone.
    pub fn new(signatures: Vec<String>, config: Option<TransactionMonitorConfig>) -> (batch: Self)
        ensures
            batch@ == BatchMonitorView::fresh(signatures.deep_view(), effective_config(config)),
            batch@.well_formed(),
    {
        let config = match config {
            Some(given) => given,
            None => TransactionMonitorConfig::default(),
        };
        let ghost given = signatures.deep_view();
        let mut slots: Vec<BatchSlot> = Vec::new();
        for signature in it: signatures.into_iter()
            invariant
                it.seq().len() == given.len(),
                forall|i: int| 0 <= i < given.len() ==> (#[trigger] it.seq()[i])@ == given[i],
                slots.len() == it.index(),
                forall|i: int|
                    0 <= i < slots.len() ==> (#[trigger] slots[i]).signature@ == given[i]
                        && slots[i].result is None,
        {
            slots.push(BatchSlot { signature, result: None });
        }
        let batch = BatchMonitor { slots, config };
        assert(batch@.signatures =~= given);
        assert(batch@.results =~= Seq::new(given.len(), |i: int| None));
        batch
    }

    /// The number of signatures in the batch.
    pub fn len(&self) -> (n: usize)
        ensures
            n == self@.signatures.len(),
            self@.well_formed(),
    {
        self.slots.len()
    }

    /// The signature at `index`, as given.
    pub fn signature(&self, index: usize) -> (text: &String)
        requires
            index < self@.signatures.len(),
        ensures
            text@ == self@.signatures[index as int],
    {
        &self.slots[index].signature
    }

    /// The lowest index whose slot is still empty, if there is one.
    pub fn pending(&self) -> (next: Option<usize>)
        ensures
            match next {
                Some(index) => index < self@.results.len() && self@.results[index as int] is None
                    && forall|i: int| 0 <= i < index ==> (#[trigger] self@.results[i]) is Some,
                None => self@.complete(),
            },
    {
        let mut index: usize = 0;
        while index < self.slots.len()
            invariant
                index <= self.slots.len(),
                forall|i: int| 0 <= i < index ==> (#[trigger] self@.results[i]) is Some,
            decreases self.slots.len() - index,
        {
            if self.slots[index].result.is_none() {
                return Some(index);
            }
            index += 1;
        }
        None
    }

    /// Whether every signature has its result.
    pub fn is_complete(&self) -> (done: bool)
        ensures
            done == self@.complete(),
    {
        self.pending().is_none()
    }

    /// Files the outcome of monitoring the signature at `index`.  An error
    /// becomes a failed result for that signature; the other slots are left
    /// as they are.
    pub fn record(&mut self, index: usize, outcome: Result<TransactionMonitorResult, JupiterError>)
        requires
            index < old(self)@.signatures.len(),
        ensures
            final(self)@ == old(self)@.filed(
                index as int,
                resolution(old(self)@.signatures[index as int], outcome),
            ),
            final(self)@.well_formed(),
    {
        let result = match outcome {
            Ok(result) => result,
            Err(error) => Monitor::failure(self.slots[index].signature.clone(), &error),
        };
        let ghost before = self@;
        let ghost filed = result@;
        let signature = self.slots[index].signature.clone();
        self.slots.set(index, BatchSlot { signature, result: Some(result) });
        assert(self@.signatures =~= before.signatures);
        assert(self@.results =~= before.results.update(index as int, Some(filed)));
    }

    /// Opens the session for the signature at `index`.  A signature that
    /// does not decode gets its failed result at once, and no session.
    pub fn open(&mut self, index: usize) -> (session: Option<PollLoop>)
        requires
            index < old(self)@.signatures.len(),
        ensures
            match signature_parse(old(self)@.signatures[index as int]) {
                Ok(decoded) => session matches Some(opened) && opened@ == PollLoopView::initial(
                    decoded,
                    old(self)@.config,
                ) && final(self)@ == old(self)@,
                Err(reason) => session is None && final(self)@ == old(self)@.filed(
                    index as int,
                    failed_result(old(self)@.signatures[index as int], "Invalid input: "@ + reason),
                ),
            },
            final(self)@.well_formed(),
    {
        let opened = Monitor.begin(self.slots[index].signature.as_str(), Some(self.config));
        match opened {
            Ok(session) => Some(session),
            Err(error) => {
                self.record(index, Err(error));
                None
            },
        }
    }

    /// Hands out the results, in the order of the signatures, once every
    /// slot is filled; before that, nothing.
    pub fn finish(self) -> (results: Option<Vec<TransactionMonitorResult>>)
        ensures
            self@.complete() <==> results is Some,
            results matches Some(list) ==> list.len() == self@.signatures.len() && forall|i: int|
                0 <= i < list.len() ==> Some((#[trigger] list[i])@) == self@.results[i],
    {
        if !self.is_complete() {
            return None;
        }
        let ghost slots = self.slots@;
        let ghost batch = self@;
        assert forall|i: int| 0 <= i < slots.len() implies (#[trigger] slots[i]).result is Some by {
            assert(batch.results[i] is Some);
        }
        let mut list: Vec<TransactionMonitorResult> = Vec::new();
        for slot in it: self.slots.into_iter()
            invariant
                it.seq() == slots,
                list.len() == it.index(),
                forall|i: int| 0 <= i < slots.len() ==> (#[trigger] slots[i]).result is Some,
                forall|i: int| 0 <= i < list.len() ==> Some(#[trigger] list[i]) == slots[i].result,
        {
            match slot.result {
                Some(result) => list.push(result),
                None => {},
            }
        }
        Some(list)
    }
}


/// Filing a result touches one slot: that slot then holds the result, every
/// other slot and every signature is as before, and the batch is as long as
/// it was.
pub proof fn lemma_filing_is_local(
    batch: BatchMonitorView,
    index: int,
    result: TransactionMonitorResultView,
)
    requires
        batch.well_formed(),
        0 <= index < batch.signatures.len(),
    ensures
        batch.filed(index, result).well_formed(),
        batch.filed(index, result).signatures == batch.signatures,
        batch.filed(index, result).results.len() == batch.results.len(),
        batch.filed(index, result).results[index] == Some(result),
        forall|other: int|
            0 <= other < batch.results.len() && other != index ==> #[trigger] batch.filed(
                index,
                result,
            ).results[other] == batch.results[other],
{
}

/// The order in which sessions finish does not show in the batch: filing
/// the results of two different signatures gives the same slots whichever
/// comes first.
pub proof fn lemma_filing_order_is_irrelevant(
    batch: BatchMonitorView,
    first: int,
    first_result: TransactionMonitorResultView,
    second: int,
    second_result: TransactionMonitorResultView,
)
    requires
        batch.well_formed(),
        0 <= first < batch.signatures.len(),
        0 <= second < batch.signatures.len(),
        first != second,
    ensures
        batch.filed(first, first_result).filed(second, second_result) == batch.filed(
            second,
            second_result,
        ).filed(first, first_result),
{
    assert(batch.filed(first, first_result).filed(second, second_result).results =~= batch.filed(
        second,
        second_result,
    ).filed(first, first_result).results);
}

} // verus!
