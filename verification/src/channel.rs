//! The submission channel: the bounded queue through which API handlers and
//! proposer tasks hand consensus items to the engine.
//!
//! The queue itself is `async_channel`'s. Other tasks send and receive on it
//! at any time, so nothing here claims to know what it holds: each call says
//! what came back, and the rules decide from that.

use vstd::prelude::*;
use async_channel::Receiver;
use async_channel::Sender;
use crate::types::ConsensusItem;

verus! {

/// How many items the submission channel holds before senders have to wait.
pub const TRANSACTION_BUFFER: usize = 1000;

/// `async_channel::Sender`, the sending half of a channel. Nothing is known
/// of what a value of it holds.
#[verifier::external_type_specification]
#[verifier::external_body]
#[verifier::reject_recursive_types(T)]
pub struct ExSender<T>(Sender<T>);

/// `async_channel::Receiver`, the receiving half of a channel. Nothing is
/// known of what a value of it holds.
#[verifier::external_type_specification]
#[verifier::external_body]
#[verifier::reject_recursive_types(T)]
pub struct ExReceiver<T>(Receiver<T>);

/// How an attempt to send without waiting ended.
#[derive(Debug, PartialEq, Eq)]
pub enum TrySend {
    /// The item is in the channel.
    Sent,
    /// The channel was full; here is the item.
    Full(ConsensusItem),
    /// The channel is closed; here is the item.
    Closed(ConsensusItem),
}

/// How an attempt to receive without waiting ended.
#[derive(Debug, PartialEq, Eq)]
pub enum TryRecv {
    Item(ConsensusItem),
    /// Nothing is waiting in the channel.
    Empty,
    /// Nothing is waiting, and nothing will come: the channel is closed.
    Closed,
}

/// What `Sender::capacity` reports of the channel behind `sender`: the
/// number of items that the channel was made to hold, or `None` for a
/// channel without a limit. A channel keeps its capacity for life.
pub uninterp spec fn sender_capacity(sender: Sender<ConsensusItem>) -> Option<usize>;

/// What `Receiver::capacity` reports of the channel behind `receiver`: the
/// number of items that the channel was made to hold, or `None` for a
/// channel without a limit. A channel keeps its capacity for life.
pub uninterp spec fn receiver_capacity(receiver: Receiver<ConsensusItem>) -> Option<usize>;

/// Calls `async_channel::bounded`, which panics on a capacity of zero.
/// Claimed: both ends report the capacity that the channel was made with.
#[verifier::external_body]
fn bounded(capacity: usize) -> (ends: (Sender<ConsensusItem>, Receiver<ConsensusItem>))
    requires
        capacity > 0,
    ensures
        sender_capacity(ends.0) == Some(capacity),
        receiver_capacity(ends.1) == Some(capacity),
{
    async_channel::bounded(capacity)
}

/// Calls `Sender::try_send`. Claimed: where the item was not taken, the
/// item handed back is the one that was offered.
#[verifier::external_body]
fn try_send(sender: &Sender<ConsensusItem>, item: ConsensusItem) -> (out: TrySend)
    ensures
        match out {
            TrySend::Sent => true,
            TrySend::Full(back) => back == item,
            TrySend::Closed(back) => back == item,
        },
{
    match sender.try_send(item) {
        Ok(()) => TrySend::Sent,
        Err(async_channel::TrySendError::Full(back)) => TrySend::Full(back),
        Err(async_channel::TrySendError::Closed(back)) => TrySend::Closed(back),
    }
}

/// Calls `Receiver::try_recv`. Nothing is claimed of what comes back.
#[verifier::external_body]
fn try_recv(receiver: &Receiver<ConsensusItem>) -> (out: TryRecv) {
    match receiver.try_recv() {
        Ok(item) => TryRecv::Item(item),
        Err(async_channel::TryRecvError::Empty) => TryRecv::Empty,
        Err(async_channel::TryRecvError::Closed) => TryRecv::Closed,
    }
}

/// A new submission channel: a bounded channel whose two ends are handed
/// out, with room for [`TRANSACTION_BUFFER`] items.
pub fn submission_channel() -> (ends: (Sender<ConsensusItem>, Receiver<ConsensusItem>))
    ensures
        sender_capacity(ends.0) == Some(TRANSACTION_BUFFER),
        receiver_capacity(ends.1) == Some(TRANSACTION_BUFFER),
{
    bounded(TRANSACTION_BUFFER)
}

/// Who is sending into the submission channel.
#[derive(Clone, Copy, Debug, PartialEq, Eq)]
pub enum Producer {
    /// A module's proposer task; it proposes again at its next tick.
    Proposer,
    /// An API handler that accepted a transaction from a client.
    Api,
}

/// What becomes of an item after an attempt to send it without waiting.
#[derive(Debug, PartialEq, Eq)]
pub enum SendVerdict {
    /// The item is in the channel.
    Delivered,
    /// The item is given up, and nobody is told.
    Dropped,
    /// The sender has to wait for room and send this item then.
    MustWait(ConsensusItem),
    /// The engine is gone; the item cannot be submitted any more.
    EngineGone(ConsensusItem),
}

/// The rule for a full or closed channel: a proposer task drops its item
/// silently, since its next tick proposes again; an API handler keeps its
/// item and waits for room, and learns of a closed channel.
pub open spec fn spec_send_verdict(producer: Producer, outcome: TrySend) -> SendVerdict {
    match outcome {
        TrySend::Sent => SendVerdict::Delivered,
        TrySend::Full(item) => match producer {
            Producer::Proposer => SendVerdict::Dropped,
            Producer::Api => SendVerdict::MustWait(item),
        },
        TrySend::Closed(item) => match producer {
            Producer::Proposer => SendVerdict::Dropped,
            Producer::Api => SendVerdict::EngineGone(item),
        },
    }
}

/// What becomes of an item of `producer` whose send ended with `outcome`.
pub fn send_verdict(producer: Producer, outcome: TrySend) -> (verdict: SendVerdict)
    ensures
        verdict == spec_send_verdict(producer, outcome),
{
    match outcome {
        TrySend::Sent => SendVerdict::Delivered,
        TrySend::Full(item) => match producer {
            Producer::Proposer => SendVerdict::Dropped,
            Producer::Api => SendVerdict::MustWait(item),
        },
        TrySend::Closed(item) => match producer {
            Producer::Proposer => SendVerdict::Dropped,
            Producer::Api => SendVerdict::EngineGone(item),
        },
    }
}

/// No submission through the API is lost in silence: whatever the channel
/// answers, the item of an API handler is delivered, or it is handed back
/// unchanged, to be sent once there is room or to be reported as refused.
pub proof fn lemma_api_items_are_never_dropped(outcome: TrySend)
    ensures
        match spec_send_verdict(Producer::Api, outcome) {
            SendVerdict::Delivered => outcome is Sent,
            SendVerdict::Dropped => false,
            SendVerdict::MustWait(item) => outcome == TrySend::Full(item),
            SendVerdict::EngineGone(item) => outcome == TrySend::Closed(item),
        },
{
}

/// Offers `item` to the channel on behalf of `producer`, without waiting.
///
/// Whatever the channel answers, the verdict is the one that
/// [`spec_send_verdict`] gives for some answer about this very item: an item
/// that was not delivered and not dropped comes back unchanged.
pub fn submit(sender: &Sender<ConsensusItem>, producer: Producer, item: ConsensusItem) -> (verdict:
    SendVerdict)
    ensures
        match verdict {
            SendVerdict::Delivered => true,
            SendVerdict::Dropped => producer == Producer::Proposer,
            SendVerdict::MustWait(back) => producer == Producer::Api && back == item,
            SendVerdict::EngineGone(back) => producer == Producer::Api && back == item,
        },
{
    let outcome = try_send(sender, item);
    send_verdict(producer, outcome)
}

/// An API handler's submission of the transaction `tx`.
pub fn submit_transaction(sender: &Sender<ConsensusItem>, tx: Vec<u8>) -> (verdict: SendVerdict)
    ensures
        match verdict {
            SendVerdict::Delivered => true,
            SendVerdict::Dropped => false,
            SendVerdict::MustWait(back) => back == ConsensusItem::Transaction(tx),
            SendVerdict::EngineGone(back) => back == ConsensusItem::Transaction(tx),
        },
{
    submit(sender, Producer::Api, ConsensusItem::Transaction(tx))
}

/// How a round of proposals of one module fared.
#[derive(Clone, Copy, Debug, PartialEq, Eq)]
pub struct ProposalReport {
    /// Items that are in the channel now.
    pub delivered: usize,
    /// Items that were dropped because the channel was full or closed.
    pub dropped: usize,
}

impl ProposalReport {
    /// The report with one more item, which fared as `verdict` says: it
    /// counts as delivered if it is in the channel, and else as dropped.
    pub fn with(self, verdict: &SendVerdict) -> (report: ProposalReport)
        requires
            self.delivered + self.dropped < usize::MAX,
        ensures
            report == (if verdict is Delivered {
                ProposalReport { delivered: (self.delivered + 1) as usize, ..self }
            } else {
                ProposalReport { dropped: (self.dropped + 1) as usize, ..self }
            }),
    {
        match verdict {
            SendVerdict::Delivered => ProposalReport { delivered: self.delivered + 1, ..self },
            _ => ProposalReport { dropped: self.dropped + 1, ..self },
        }
    }
}

/// Offers each of `items` to the channel on behalf of a proposer task, in
/// order and without waiting; what does not fit is dropped.
pub fn submit_proposals(sender: &Sender<ConsensusItem>, items: Vec<ConsensusItem>) -> (report:
    ProposalReport)
    ensures
        report.delivered + report.dropped == items@.len(),
{
    let mut report = ProposalReport { delivered: 0, dropped: 0 };
    let total = items.len();
    for item in it: items
        invariant
            total == it.seq().len(),
            report.delivered + report.dropped == it.index(),
    {
        let verdict = submit(sender, Producer::Proposer, item);
        report = report.with(&verdict);
    }
    report
}

/// What a drain does with what an attempt to receive brought: an item joins
/// the batch, and the drain goes on; anything else ends the drain and
/// leaves the batch as it is. Says whether the drain goes on.
pub fn take_received(batch: &mut Vec<ConsensusItem>, received: TryRecv) -> (more: bool)
    ensures
        match received {
            TryRecv::Item(item) => more && final(batch)@ == old(batch)@.push(item),
            _ => !more && final(batch)@ == old(batch)@,
        },
{
    match received {
        TryRecv::Item(item) => {
            batch.push(item);
            true
        },
        _ => false,
    }
}

/// Takes what is waiting in the channel, up to `max_batch` items, without
/// waiting for more; what is left stays for the next call.
pub fn drain_submissions(receiver: &Receiver<ConsensusItem>, max_batch: usize) -> (batch: Vec<
    ConsensusItem,
>)
    ensures
        batch@.len() <= max_batch,
{
    let mut batch: Vec<ConsensusItem> = Vec::new();
    while batch.len() < max_batch
        invariant
            batch@.len() <= max_batch,
        decreases max_batch - batch@.len(),
    {
        let received = try_recv(receiver);
        if !take_received(&mut batch, received) {
            break ;
        }
    }
    batch
}

} // verus!
