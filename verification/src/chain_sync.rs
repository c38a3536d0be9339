//! Decisions of the trusted chain syncer, which follows another node's
//! best chain through its indexer streams: when to (re)subscribe, which
//! messages to commit, and when the finalized-tip forwarder stops. The
//! streams, the state database and the channels stay with the caller.
use crate::fat_pointer::bytes_equal;
use vstd::prelude::*;

verus! {

/// Where the non-finalized block syncer stands.
#[derive(Clone, Copy, Debug, PartialEq, Eq, Structural)]
pub enum SyncStage {
    /// No subscription to non-finalized state changes.
    Unsubscribed,
    /// Subscribed, waiting for the next block.
    Listening,
    /// A received block is being committed.
    Committing,
}

/// What happened since the syncer's last action.
#[derive(Clone, Copy, Debug, PartialEq, Eq, Structural)]
pub enum SyncEvent {
    /// The subscription was made.
    Subscribed,
    /// The subscription failed.
    SubscribeFailed,
    /// A well-formed block arrived; `already_known` when the local
    /// non-finalized state already holds it.
    BlockReceived { already_known: bool },
    /// The stream ended.
    StreamEnded,
    /// Receiving from the stream failed.
    StreamFailed,
    /// A message could not be decoded into a block.
    MalformedMessage,
    /// The block was committed.
    CommitSucceeded,
    /// Committing the block failed.
    CommitFailed,
}

/// What the syncer does next.
#[derive(Clone, Copy, Debug, PartialEq, Eq, Structural)]
pub enum SyncAction {
    /// Subscribe to non-finalized state changes.
    Subscribe,
    /// Wait the poll delay, then subscribe.
    WaitThenSubscribe,
    /// Wait for the next block on the stream.
    Receive,
    /// Commit the received block.
    Commit,
    /// Finalize blocks past the reorg limit, publish the new tip and
    /// non-finalized state, then wait for the next block.
    PublishAndReceive,
}

/// One step of the syncer: its next stage and action after an event. An
/// event that does not fit the stage drops the subscription.
pub open spec fn spec_sync_step(stage: SyncStage, event: SyncEvent) -> (SyncStage, SyncAction) {
    match (stage, event) {
        (SyncStage::Unsubscribed, SyncEvent::Subscribed) => (SyncStage::Listening, SyncAction::Receive),
        (SyncStage::Unsubscribed, SyncEvent::SubscribeFailed) => (
            SyncStage::Unsubscribed,
            SyncAction::WaitThenSubscribe,
        ),
        (SyncStage::Listening, SyncEvent::BlockReceived { already_known }) => if already_known {
            (SyncStage::Listening, SyncAction::Receive)
        } else {
            (SyncStage::Committing, SyncAction::Commit)
        },
        (SyncStage::Committing, SyncEvent::CommitSucceeded) => (
            SyncStage::Listening,
            SyncAction::PublishAndReceive,
        ),
        _ => (SyncStage::Unsubscribed, SyncAction::Subscribe),
    }
}

/// The next stage and action of the syncer after an event.
pub fn sync_step(stage: SyncStage, event: SyncEvent) -> (r: (SyncStage, SyncAction))
    ensures
        r == spec_sync_step(stage, event),
{
    match (stage, event) {
        (SyncStage::Unsubscribed, SyncEvent::Subscribed) => (SyncStage::Listening, SyncAction::Receive),
        (SyncStage::Unsubscribed, SyncEvent::SubscribeFailed) => (
            SyncStage::Unsubscribed,
            SyncAction::WaitThenSubscribe,
        ),
        (SyncStage::Listening, SyncEvent::BlockReceived { already_known }) => {
            if already_known {
                (SyncStage::Listening, SyncAction::Receive)
            } else {
                (SyncStage::Committing, SyncAction::Commit)
            }
        },
        (SyncStage::Committing, SyncEvent::CommitSucceeded) => (
            SyncStage::Listening,
            SyncAction::PublishAndReceive,
        ),
        _ => (SyncStage::Unsubscribed, SyncAction::Subscribe),
    }
}

/// The syncer only commits blocks it does not hold yet, only publishes after
/// a successful commit, and keeps its subscription exactly while the stream
/// delivers blocks it can commit.
pub proof fn lemma_sync_step_laws(stage: SyncStage, event: SyncEvent)
    ensures
        spec_sync_step(stage, event).1 == SyncAction::Commit ==> event == (SyncEvent::BlockReceived {
            already_known: false,
        }),
        spec_sync_step(stage, event).1 == SyncAction::PublishAndReceive ==> stage
            == SyncStage::Committing && event == SyncEvent::CommitSucceeded,
        (event == SyncEvent::StreamEnded || event == SyncEvent::StreamFailed || event
            == SyncEvent::MalformedMessage || event == SyncEvent::CommitFailed) ==> spec_sync_step(
            stage,
            event,
        ).0 == SyncStage::Unsubscribed,
{
}

/// How a block joins the non-finalized state.
#[derive(Clone, Copy, Debug, PartialEq, Eq, Structural)]
pub enum CommitKind {
    /// The block starts a new chain on the finalized tip.
    NewChain,
    /// The block extends a non-finalized chain.
    ExtendChain,
}

/// A block whose parent is the finalized tip starts a new chain; any other
/// extends a non-finalized chain.
pub fn commit_kind(finalized_tip_hash: &[u8; 32], previous_block_hash: &[u8; 32]) -> (r: CommitKind)
    ensures
        r == if finalized_tip_hash@ == previous_block_hash@ {
            CommitKind::NewChain
        } else {
            CommitKind::ExtendChain
        },
{
    if bytes_equal(finalized_tip_hash, previous_block_hash) {
        CommitKind::NewChain
    } else {
        CommitKind::ExtendChain
    }
}

/// What happened since the finalized-tip forwarder's last action.
#[derive(Clone, Copy, Debug, PartialEq, Eq, Structural)]
pub enum ForwarderEvent {
    /// The subscription to chain tip changes was made.
    Subscribed,
    /// The subscription failed.
    SubscribeFailed,
    /// The stream ended.
    StreamEnded,
    /// Receiving from the stream failed.
    StreamFailed,
    /// A tip change arrived: whether it decoded to a hash and height,
    /// whether catching up with the primary database worked, and whether the
    /// database holds the tip block.
    TipChanged { decoded: bool, caught_up: bool, block_in_db: bool },
}

/// What the forwarder does next.
#[derive(Clone, Copy, Debug, PartialEq, Eq, Structural)]
pub enum ForwarderAction {
    /// Subscribe to chain tip changes.
    Subscribe,
    /// Wait the poll delay, then subscribe.
    WaitThenSubscribe,
    /// Wait for the next tip change.
    Receive,
    /// Publish the tip block as the finalized tip, then wait for the next change.
    PublishAndReceive,
    /// End the task: the tip is not finalized, so the syncer publishes it.
    Stop,
}

/// One step of the forwarder, given whether it is subscribed.
pub open spec fn spec_forwarder_step(subscribed: bool, event: ForwarderEvent) -> (bool, ForwarderAction) {
    match event {
        ForwarderEvent::Subscribed => (true, ForwarderAction::Receive),
        ForwarderEvent::SubscribeFailed => (false, ForwarderAction::WaitThenSubscribe),
        ForwarderEvent::StreamEnded | ForwarderEvent::StreamFailed => (
            false,
            ForwarderAction::Subscribe,
        ),
        ForwarderEvent::TipChanged { decoded, caught_up, block_in_db } => if !decoded || !caught_up {
            (subscribed, ForwarderAction::Receive)
        } else if !block_in_db {
            (subscribed, ForwarderAction::Stop)
        } else {
            (subscribed, ForwarderAction::PublishAndReceive)
        },
    }
}

/// The finalized-tip forwarder keeps running: when the tip-change stream ends
/// or fails it drops its subscription and subscribes again, a failed
/// subscription is retried after a wait, and it stops only for a decoded,
/// caught-up tip change whose block the database does not hold.
pub proof fn lemma_forwarder_resubscribes_and_stops_only_on_unfinalized_tip(
    subscribed: bool,
    event: ForwarderEvent,
)
    ensures
        (event == ForwarderEvent::StreamEnded || event == ForwarderEvent::StreamFailed)
            ==> spec_forwarder_step(subscribed, event) == (false, ForwarderAction::Subscribe),
        event == ForwarderEvent::SubscribeFailed ==> spec_forwarder_step(subscribed, event) == (
            false,
            ForwarderAction::WaitThenSubscribe,
        ),
        spec_forwarder_step(subscribed, event).1 == ForwarderAction::Stop <==> event
            == (ForwarderEvent::TipChanged { decoded: true, caught_up: true, block_in_db: false }),
{
}

/// The forwarder's next subscription state and action after an event.
pub fn forwarder_step(subscribed: bool, event: ForwarderEvent) -> (r: (bool, ForwarderAction))
    ensures
        r == spec_forwarder_step(subscribed, event),
{
    match event {
        ForwarderEvent::Subscribed => (true, ForwarderAction::Receive),
        ForwarderEvent::SubscribeFailed => (false, ForwarderAction::WaitThenSubscribe),
        ForwarderEvent::StreamEnded | ForwarderEvent::StreamFailed => (
            false,
            ForwarderAction::Subscribe,
        ),
        ForwarderEvent::TipChanged { decoded, caught_up, block_in_db } => {
            if !decoded || !caught_up {
                (subscribed, ForwarderAction::Receive)
            } else if !block_in_db {
                (subscribed, ForwarderAction::Stop)
            } else {
                (subscribed, ForwarderAction::PublishAndReceive)
            }
        },
    }
}

} // verus!
