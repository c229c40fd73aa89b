use fedimint_consensus::channel::submission_channel;
use fedimint_consensus::channel::submit_transaction;
use fedimint_consensus::channel::SendVerdict;
use fedimint_consensus::engine::ConsensusEngine;
use fedimint_consensus::engine::EngineAction;
use fedimint_consensus::engine::FatalError;
use fedimint_consensus::engine::Phase;
use fedimint_consensus::engine::PROPOSAL_BATCH_MAX;
use fedimint_consensus::epoch::EpochVerifyError;
use fedimint_consensus::epoch::SignedEpochOutcome;
use fedimint_consensus::registry::ModuleRegistry;
use fedimint_consensus::types::ConsensusItem;
use fedimint_consensus::types::ModuleKind;
use fedimint_consensus::types::PeerId;

fn registry() -> ModuleRegistry {
    let mut registry = ModuleRegistry::new();
    assert!(registry.insert(2, ModuleKind::new("wallet")));
    assert!(registry.insert(0, ModuleKind::new("mint")));
    registry
}

fn sign(sk: &threshold_crypto::SecretKey, epoch: u64, items: Vec<(PeerId, ConsensusItem)>) -> SignedEpochOutcome {
    let mut outcome = SignedEpochOutcome { epoch, items, signature: [0u8; 96] };
    outcome.signature = sk.sign(outcome.consensus_hash()).to_bytes();
    outcome
}

fn engine(sk: &threshold_crypto::SecretKey, highest: Option<u64>) -> ConsensusEngine {
    ConsensusEngine::new(sk.public_key().to_bytes(), registry(), highest)
}

#[test]
fn consensus_hash_is_sha256_of_the_epoch_bytes() {
    let empty = SignedEpochOutcome { epoch: 0, items: vec![], signature: [0u8; 96] };
    assert_eq!(
        empty.consensus_hash(),
        [
            55, 71, 8, 255, 247, 113, 157, 213, 151, 158, 200, 117, 213, 108, 210, 40, 111, 109,
            60, 247, 236, 49, 122, 59, 37, 99, 42, 171, 40, 236, 55, 187
        ]
    );
    let one = SignedEpochOutcome {
        epoch: 7,
        items: vec![(3, ConsensusItem::EpochInfo)],
        signature: [1u8; 96],
    };
    assert_eq!(
        one.consensus_hash(),
        [
            152, 251, 235, 194, 7, 146, 29, 146, 43, 7, 145, 176, 244, 86, 52, 234, 228, 79, 151,
            36, 226, 139, 237, 162, 157, 137, 204, 146, 62, 19, 29, 243
        ]
    );
}

#[test]
fn signature_is_checked_against_the_epoch_key() {
    let sk = threshold_crypto::SecretKey::random();
    let other = threshold_crypto::SecretKey::random();
    let outcome = sign(&sk, 1, vec![(0, ConsensusItem::EpochInfo)]);
    assert_eq!(outcome.verify_sig(&sk.public_key().to_bytes()), Ok(()));
    assert_eq!(
        outcome.verify_sig(&other.public_key().to_bytes()),
        Err(EpochVerifyError::InvalidSignature)
    );
    let mut changed = outcome.clone();
    changed.epoch = 2;
    assert_eq!(
        changed.verify_sig(&sk.public_key().to_bytes()),
        Err(EpochVerifyError::InvalidSignature)
    );
    assert_eq!(
        outcome.verify_sig(&[0xffu8; 48]),
        Err(EpochVerifyError::InvalidSignature)
    );
}

#[test]
fn outcomes_compare_by_content() {
    let sk = threshold_crypto::SecretKey::random();
    let a = sign(&sk, 1, vec![(0, ConsensusItem::Transaction(vec![1]))]);
    let mut b = a.clone();
    assert!(a == b);
    b.items[0].0 = 1;
    assert!(a != b);
    let mut c = a.clone();
    c.signature[95] ^= 1;
    assert!(a != c);
    let mut d = a.clone();
    d.items.push((0, ConsensusItem::EpochInfo));
    assert!(a != d);
}

#[test]
fn engine_applies_commits_and_notifies() {
    let sk = threshold_crypto::SecretKey::random();
    let mut engine = engine(&sk, None);
    let items = vec![
        (1, ConsensusItem::Module(0, vec![5])),
        (3, ConsensusItem::Transaction(vec![6])),
        (1, ConsensusItem::Module(2, vec![7])),
    ];
    let action = engine.on_outcome(sign(&sk, 0, items.clone()));
    assert_eq!(action, EngineAction::Apply { epoch: 0, items });
    assert_eq!(engine.phase(), Phase::Applying);
    assert_eq!(engine.highest_applied(), None);
    assert_eq!(engine.last_consensus_of(1), None);
    assert_eq!(engine.on_commit(true), EngineAction::Notify { epoch: 0 });
    assert_eq!(engine.phase(), Phase::Idle);
    assert_eq!(engine.highest_applied(), Some(0));
    assert_eq!(engine.last_consensus_of(1), Some(0));
    assert_eq!(engine.last_consensus_of(3), Some(0));
    assert_eq!(engine.last_consensus_of(2), None);
    assert_eq!(engine.last_ci_by_peer().len(), 2);
}

#[test]
fn engine_rejects_a_tampered_signature() {
    let sk = threshold_crypto::SecretKey::random();
    let mut engine = engine(&sk, Some(4));
    let mut outcome = sign(&sk, 5, vec![(1, ConsensusItem::Transaction(vec![1]))]);
    outcome.signature[10] ^= 0x40;
    assert_eq!(
        engine.on_outcome(outcome),
        EngineAction::Fatal(FatalError::InvalidSignature { epoch: 5 })
    );
    assert_eq!(engine.phase(), Phase::Halted);
    assert_eq!(engine.highest_applied(), Some(4));
    let good = sign(&sk, 5, vec![]);
    assert_eq!(engine.on_outcome(good), EngineAction::Ignore);
    assert_eq!(engine.on_commit(true), EngineAction::Ignore);
    assert_eq!(engine.highest_applied(), Some(4));
}

#[test]
fn engine_rejects_tampered_items() {
    let sk = threshold_crypto::SecretKey::random();
    let mut engine = engine(&sk, None);
    let mut outcome = sign(&sk, 0, vec![(1, ConsensusItem::Transaction(vec![1]))]);
    outcome.items[0].1 = ConsensusItem::Transaction(vec![2]);
    assert_eq!(
        engine.on_outcome(outcome),
        EngineAction::Fatal(FatalError::InvalidSignature { epoch: 0 })
    );
}

#[test]
fn engine_skips_what_was_applied_before() {
    let sk = threshold_crypto::SecretKey::random();
    let mut engine = engine(&sk, None);
    let outcome = sign(&sk, 3, vec![(1, ConsensusItem::Module(2, vec![1]))]);
    assert!(matches!(engine.on_outcome(outcome.clone()), EngineAction::Apply { .. }));
    assert_eq!(engine.on_commit(true), EngineAction::Notify { epoch: 3 });
    assert_eq!(engine.on_outcome(outcome), EngineAction::Skip { epoch: 3 });
    assert_eq!(engine.phase(), Phase::Idle);
    assert_eq!(engine.highest_applied(), Some(3));
    assert_eq!(engine.last_consensus_of(1), Some(3));
    let older = sign(&sk, 2, vec![(2, ConsensusItem::EpochInfo)]);
    assert_eq!(engine.on_outcome(older), EngineAction::Skip { epoch: 2 });
    assert_eq!(engine.last_consensus_of(2), None);
}

#[test]
fn engine_skips_below_the_mark_found_in_the_database() {
    let sk = threshold_crypto::SecretKey::random();
    let mut engine = engine(&sk, Some(10));
    assert_eq!(engine.on_outcome(sign(&sk, 10, vec![])), EngineAction::Skip { epoch: 10 });
    assert!(matches!(engine.on_outcome(sign(&sk, 11, vec![])), EngineAction::Apply { epoch: 11, .. }));
}

#[test]
fn engine_halts_on_an_unknown_module() {
    let sk = threshold_crypto::SecretKey::random();
    let mut engine = engine(&sk, None);
    let outcome = sign(
        &sk,
        0,
        vec![
            (1, ConsensusItem::Module(0, vec![])),
            (2, ConsensusItem::Module(9, vec![])),
            (3, ConsensusItem::Module(8, vec![])),
        ],
    );
    assert_eq!(
        engine.on_outcome(outcome),
        EngineAction::Fatal(FatalError::UnknownModule { epoch: 0, module_instance_id: 9 })
    );
    assert_eq!(engine.phase(), Phase::Halted);
    assert_eq!(engine.highest_applied(), None);
    assert!(engine.last_ci_by_peer().is_empty());
}

#[test]
fn engine_halts_on_a_failed_commit() {
    let sk = threshold_crypto::SecretKey::random();
    let mut engine = engine(&sk, Some(1));
    assert!(matches!(
        engine.on_outcome(sign(&sk, 2, vec![(1, ConsensusItem::EpochInfo)])),
        EngineAction::Apply { .. }
    ));
    assert_eq!(engine.on_commit(false), EngineAction::Fatal(FatalError::CommitFailed { epoch: 2 }));
    assert_eq!(engine.phase(), Phase::Halted);
    assert_eq!(engine.highest_applied(), Some(1));
    assert_eq!(engine.last_consensus_of(1), None);
}

#[test]
fn last_consensus_by_peer_never_goes_back() {
    let sk = threshold_crypto::SecretKey::random();
    let mut engine = engine(&sk, None);
    let mut seen: Vec<Option<u64>> = vec![];
    for (epoch, proposer) in [(1u64, 1u16), (2, 2), (1, 1), (5, 1), (3, 1), (6, 2)] {
        match engine.on_outcome(sign(&sk, epoch, vec![(proposer, ConsensusItem::EpochInfo)])) {
            EngineAction::Apply { .. } => {
                assert_eq!(engine.on_commit(true), EngineAction::Notify { epoch });
            }
            EngineAction::Skip { .. } => {}
            other => panic!("unexpected {:?}", other),
        }
        seen.push(engine.last_consensus_of(1));
    }
    assert_eq!(seen, vec![Some(1), Some(1), Some(1), Some(5), Some(5), Some(5)]);
    assert_eq!(engine.last_consensus_of(2), Some(6));
}

#[test]
fn engine_ignores_events_that_do_not_fit() {
    let sk = threshold_crypto::SecretKey::random();
    let mut engine = engine(&sk, None);
    assert_eq!(engine.on_commit(true), EngineAction::Ignore);
    assert!(matches!(engine.on_outcome(sign(&sk, 0, vec![])), EngineAction::Apply { .. }));
    assert_eq!(engine.on_outcome(sign(&sk, 1, vec![])), EngineAction::Ignore);
    assert_eq!(engine.on_shutdown(), EngineAction::Ignore);
    assert_eq!(engine.phase(), Phase::Applying);
    assert_eq!(engine.on_commit(true), EngineAction::Notify { epoch: 0 });
    assert_eq!(engine.on_shutdown(), EngineAction::Exit);
    assert_eq!(engine.phase(), Phase::Stopped);
    assert_eq!(engine.on_shutdown(), EngineAction::Exit);
    assert_eq!(engine.on_outcome(sign(&sk, 1, vec![])), EngineAction::Ignore);
}

#[test]
fn proposal_takes_what_waits_up_to_the_batch() {
    let sk = threshold_crypto::SecretKey::random();
    let engine = engine(&sk, None);
    let (sender, receiver) = submission_channel();
    assert!(engine.next_proposal(&receiver).is_empty());
    for i in 0..3u8 {
        assert_eq!(submit_transaction(&sender, vec![i]), SendVerdict::Delivered);
    }
    assert_eq!(
        engine.next_proposal(&receiver),
        vec![
            ConsensusItem::Transaction(vec![0]),
            ConsensusItem::Transaction(vec![1]),
            ConsensusItem::Transaction(vec![2]),
        ]
    );
    assert!(engine.next_proposal(&receiver).is_empty());
    assert_eq!(PROPOSAL_BATCH_MAX, 1000);
    assert!(engine.registry().contains(2));
}

#[test]
fn a_checked_outcome_goes_by_the_verdict_given() {
    let sk = threshold_crypto::SecretKey::random();
    let items = vec![(1, ConsensusItem::Module(2, vec![1]))];
    let unsigned = SignedEpochOutcome { epoch: 0, items: items.clone(), signature: [0u8; 96] };
    let mut trusting = engine(&sk, None);
    assert_eq!(
        trusting.on_checked_outcome(unsigned.clone(), true),
        EngineAction::Apply { epoch: 0, items }
    );
    let mut doubting = engine(&sk, None);
    assert_eq!(
        doubting.on_checked_outcome(sign(&sk, 0, vec![]), false),
        EngineAction::Fatal(FatalError::InvalidSignature { epoch: 0 })
    );
    assert_eq!(doubting.phase(), Phase::Halted);
}

#[test]
fn equal_items_of_one_peer_are_both_applied() {
    let sk = threshold_crypto::SecretKey::random();
    let mut engine = engine(&sk, None);
    let items = vec![
        (1, ConsensusItem::Module(0, vec![5])),
        (1, ConsensusItem::Module(0, vec![5])),
    ];
    assert_eq!(
        engine.on_outcome(sign(&sk, 0, items.clone())),
        EngineAction::Apply { epoch: 0, items }
    );
}
