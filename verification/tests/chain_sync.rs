use zebra_crosslink::chain_sync::{
    commit_kind, forwarder_step, sync_step, CommitKind, ForwarderAction, ForwarderEvent, SyncAction,
    SyncEvent, SyncStage,
};

#[test]
fn syncer_subscribes_commits_and_resubscribes_on_failure() {
    let (stage, action) = sync_step(SyncStage::Unsubscribed, SyncEvent::SubscribeFailed);
    assert_eq!((stage, action), (SyncStage::Unsubscribed, SyncAction::WaitThenSubscribe));
    let (stage, action) = sync_step(stage, SyncEvent::Subscribed);
    assert_eq!((stage, action), (SyncStage::Listening, SyncAction::Receive));
    let (stage, action) = sync_step(stage, SyncEvent::BlockReceived { already_known: true });
    assert_eq!((stage, action), (SyncStage::Listening, SyncAction::Receive));
    let (stage, action) = sync_step(stage, SyncEvent::BlockReceived { already_known: false });
    assert_eq!((stage, action), (SyncStage::Committing, SyncAction::Commit));
    let (stage, action) = sync_step(stage, SyncEvent::CommitSucceeded);
    assert_eq!((stage, action), (SyncStage::Listening, SyncAction::PublishAndReceive));
    let (stage, action) = sync_step(stage, SyncEvent::MalformedMessage);
    assert_eq!((stage, action), (SyncStage::Unsubscribed, SyncAction::Subscribe));
    assert_eq!(
        sync_step(SyncStage::Committing, SyncEvent::CommitFailed),
        (SyncStage::Unsubscribed, SyncAction::Subscribe)
    );
}

#[test]
fn blocks_on_the_finalized_tip_start_new_chains() {
    assert_eq!(commit_kind(&[1; 32], &[1; 32]), CommitKind::NewChain);
    assert_eq!(commit_kind(&[1; 32], &[2; 32]), CommitKind::ExtendChain);
}

#[test]
fn forwarder_stops_when_the_tip_is_not_finalized() {
    assert_eq!(
        forwarder_step(false, ForwarderEvent::Subscribed),
        (true, ForwarderAction::Receive)
    );
    let changed = |decoded, caught_up, block_in_db| ForwarderEvent::TipChanged {
        decoded,
        caught_up,
        block_in_db,
    };
    assert_eq!(
        forwarder_step(true, changed(true, true, true)),
        (true, ForwarderAction::PublishAndReceive)
    );
    assert_eq!(
        forwarder_step(true, changed(false, true, true)),
        (true, ForwarderAction::Receive)
    );
    assert_eq!(
        forwarder_step(true, changed(true, false, true)),
        (true, ForwarderAction::Receive)
    );
    assert_eq!(
        forwarder_step(true, changed(true, true, false)),
        (true, ForwarderAction::Stop)
    );
    assert_eq!(
        forwarder_step(true, ForwarderEvent::StreamFailed),
        (false, ForwarderAction::Subscribe)
    );
}
