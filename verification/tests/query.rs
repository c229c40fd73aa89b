use std::collections::BTreeMap;
use std::collections::BTreeSet;

use fedimint_consensus::api::ErrorObject;
use fedimint_consensus::epoch::SignedEpochOutcome;
use fedimint_consensus::query::run_strategy;
use fedimint_consensus::query::CurrentConsensus;
use fedimint_consensus::query::EventuallyConsistent;
use fedimint_consensus::query::PeerError;
use fedimint_consensus::query::QueryStep;
use fedimint_consensus::query::QueryStrategy;
use fedimint_consensus::query::Retry404;
use fedimint_consensus::query::TrustAllPeers;
use fedimint_consensus::query::UnionResponses;
use fedimint_consensus::query::UnionResponsesSingle;
use fedimint_consensus::query::ValidHistory;
use fedimint_consensus::types::ConsensusItem;
use fedimint_consensus::types::PeerId;

fn rpc_error(code: i32, message: &str) -> PeerError {
    PeerError::Rpc(ErrorObject { code, message: message.to_string() })
}

fn text(s: &str) -> String {
    s.to_string()
}

fn peers(ids: &[PeerId]) -> BTreeSet<PeerId> {
    ids.iter().copied().collect()
}

#[test]
fn current_consensus_succeeds_at_threshold() {
    let mut strategy = CurrentConsensus::<String>::new(3);
    assert_eq!(strategy.process(1, Ok(text("a"))), QueryStep::Continue);
    assert_eq!(strategy.process(2, Ok(text("a"))), QueryStep::Continue);
    assert_eq!(strategy.process(3, Ok(text("a"))), QueryStep::Success(text("a")));
}

#[test]
fn current_consensus_fails_once_enough_peers_erred() {
    let e1 = rpc_error(500, "one");
    let e2 = PeerError::Transport(text("two"));
    let e3 = rpc_error(400, "three");
    let mut strategy = CurrentConsensus::<String>::new(3);
    assert_eq!(strategy.process(1, Err(e1.clone())), QueryStep::Continue);
    assert_eq!(strategy.process(2, Err(e2.clone())), QueryStep::Continue);
    let mut expected = BTreeMap::new();
    expected.insert(1, e1);
    expected.insert(2, e2);
    expected.insert(3, e3.clone());
    assert_eq!(strategy.process(3, Err(e3)), QueryStep::Failure(expected));
    assert!(strategy.errors.is_empty());
}

#[test]
fn current_consensus_ignores_a_repeated_answer() {
    let mut strategy = CurrentConsensus::<String>::new(2);
    assert_eq!(strategy.process(1, Ok(text("a"))), QueryStep::Continue);
    assert_eq!(strategy.process(1, Ok(text("a"))), QueryStep::Continue);
    assert_eq!(strategy.process(1, Ok(text("a"))), QueryStep::Continue);
    assert_eq!(strategy.existing_results.len(), 1);
    assert_eq!(strategy.existing_results[0].0, text("a"));
    assert_eq!(strategy.existing_results[0].1.len(), 1);
    assert!(strategy.existing_results[0].1.contains(&1));
    assert_eq!(strategy.process(2, Ok(text("a"))), QueryStep::Success(text("a")));
}

#[test]
fn current_consensus_keeps_values_apart() {
    let mut strategy = CurrentConsensus::<String>::new(2);
    assert_eq!(strategy.process(1, Ok(text("a"))), QueryStep::Continue);
    assert_eq!(strategy.process(2, Ok(text("b"))), QueryStep::Continue);
    assert_eq!(strategy.existing_results.len(), 2);
    assert_eq!(strategy.process(3, Ok(text("b"))), QueryStep::Success(text("b")));
}

#[test]
fn current_consensus_prefers_the_value_that_came_first() {
    let mut strategy = CurrentConsensus::<String>::new(2);
    assert_eq!(strategy.process(1, Ok(text("a"))), QueryStep::Continue);
    assert_eq!(strategy.process(2, Ok(text("b"))), QueryStep::Continue);
    strategy.existing_results[1].1.insert(9);
    assert_eq!(strategy.process(2, Ok(text("a"))), QueryStep::Success(text("a")));
}

#[test]
fn current_consensus_succeeds_once() {
    let mut strategy = CurrentConsensus::<String>::new(1);
    assert!(!strategy.finished);
    assert_eq!(strategy.process(1, Ok(text("a"))), QueryStep::Success(text("a")));
    assert!(strategy.finished);
    assert_eq!(strategy.process(2, Ok(text("a"))), QueryStep::Continue);
    assert_eq!(strategy.process(3, Ok(text("b"))), QueryStep::Continue);
    assert_eq!(strategy.process(4, Err(rpc_error(500, "x"))), QueryStep::Continue);
    assert_eq!(strategy.existing_results.len(), 1);
    assert_eq!(strategy.existing_results[0].1.len(), 1);
    assert!(strategy.errors.is_empty());
}

#[test]
fn current_consensus_does_not_succeed_after_failing() {
    let mut strategy = CurrentConsensus::<String>::new(1);
    let mut expected = BTreeMap::new();
    expected.insert(1, rpc_error(500, "x"));
    assert_eq!(strategy.process(1, Err(rpc_error(500, "x"))), QueryStep::Failure(expected));
    assert!(strategy.finished);
    assert_eq!(strategy.process(2, Ok(text("a"))), QueryStep::Continue);
    assert_eq!(strategy.process(3, Err(rpc_error(500, "y"))), QueryStep::Continue);
    assert!(strategy.existing_results.is_empty());
    assert!(strategy.errors.is_empty());
}

#[test]
fn every_strategy_ends_once() {
    let mut trusting = TrustAllPeers::new();
    assert_eq!(trusting.process(1, Ok(1u64)), QueryStep::Success(1));
    assert_eq!(trusting.process(2, Ok(2u64)), QueryStep::Continue);
    let late: QueryStep<u64> = trusting.process(3, Err(rpc_error(500, "x")));
    assert_eq!(late, QueryStep::Continue);

    let mut union = UnionResponses::<u64>::new(1);
    assert_eq!(union.process(1, Ok(vec![1, 2])), QueryStep::Success(vec![1, 2]));
    assert_eq!(union.process(2, Ok(vec![3])), QueryStep::Continue);
    assert_eq!(union.process(3, Err(rpc_error(500, "x"))), QueryStep::Continue);

    let mut failing = UnionResponses::<u64>::new(1);
    assert!(matches!(failing.process(1, Err(rpc_error(500, "x"))), QueryStep::Failure(_)));
    assert_eq!(failing.process(2, Ok(vec![3])), QueryStep::Continue);

    let mut single = UnionResponsesSingle::<u64>::new(1);
    assert_eq!(single.process(1, Ok(1)), QueryStep::Success(vec![1]));
    assert_eq!(single.process(2, Ok(2)), QueryStep::Continue);

    let mut retrying = Retry404::<u64>::new(1);
    assert_eq!(retrying.process(1, Ok(1)), QueryStep::Success(1));
    assert_eq!(retrying.process(2, Err(rpc_error(404, "x"))), QueryStep::Continue);
    assert_eq!(retrying.process(3, Ok(1)), QueryStep::Continue);

    let mut eventual = EventuallyConsistent::<u64>::new(1);
    assert_eq!(eventual.process(1, Ok(1)), QueryStep::Success(1));
    assert_eq!(eventual.process(2, Ok(2)), QueryStep::Continue);
    assert_eq!(eventual.process(3, Ok(1)), QueryStep::Continue);

    let sk = threshold_crypto::SecretKey::random();
    let outcome = signed_outcome(&sk, 4);
    let mut history = ValidHistory::new(sk.public_key().to_bytes(), 3);
    assert_eq!(history.process(1, Ok(outcome.clone())), QueryStep::Success(outcome.clone()));
    assert_eq!(history.process(2, Ok(outcome.clone())), QueryStep::Continue);
    assert_eq!(history.process_checked(3, Ok(outcome), true), QueryStep::Continue);
}

#[test]
fn current_consensus_counts_a_peer_that_errs_twice_once() {
    let mut strategy = CurrentConsensus::<String>::new(2);
    assert_eq!(strategy.process(1, Err(rpc_error(500, "x"))), QueryStep::Continue);
    assert_eq!(strategy.process(1, Err(rpc_error(501, "y"))), QueryStep::Continue);
    assert_eq!(strategy.errors.len(), 1);
    assert_eq!(strategy.errors.get(&1), Some(&rpc_error(501, "y")));
}

#[test]
fn trust_all_peers_takes_the_first_answer() {
    let mut strategy = TrustAllPeers::new();
    let e = PeerError::Transport(text("down"));
    let mut failed = BTreeMap::new();
    failed.insert(9, e.clone());
    let step: QueryStep<u64> = strategy.process(9, Err(e));
    assert_eq!(step, QueryStep::FailMembers(failed));
    assert_eq!(strategy.process(4, Ok(7u64)), QueryStep::Success(7u64));
}

#[test]
fn retry_404_asks_the_lagging_peer_again() {
    let mut strategy = Retry404::<String>::new(2);
    assert_eq!(
        strategy.process(1, Err(rpc_error(404, "not found"))),
        QueryStep::RetryMembers(peers(&[1]))
    );
    assert_eq!(strategy.process(2, Ok(text("x"))), QueryStep::Continue);
    assert_eq!(strategy.process(3, Ok(text("x"))), QueryStep::Success(text("x")));
}

#[test]
fn retry_404_treats_other_errors_as_errors() {
    let mut strategy = Retry404::<String>::new(2);
    assert_eq!(strategy.process(1, Err(rpc_error(500, "broken"))), QueryStep::Continue);
    assert_eq!(strategy.process(2, Err(PeerError::Transport(text("404")))), {
        let mut expected = BTreeMap::new();
        expected.insert(1, rpc_error(500, "broken"));
        expected.insert(2, PeerError::Transport(text("404")));
        QueryStep::Failure(expected)
    });
}

#[test]
fn union_responses_gathers_distinct_values_in_order() {
    let mut strategy = UnionResponses::<String>::new(2);
    assert_eq!(strategy.process(1, Ok(vec![text("a"), text("b")])), QueryStep::Continue);
    assert_eq!(
        strategy.process(2, Ok(vec![text("b"), text("c")])),
        QueryStep::Success(vec![text("a"), text("b"), text("c")])
    );
}

#[test]
fn union_responses_drops_repeats_within_one_answer() {
    let mut strategy = UnionResponses::<u64>::new(1);
    assert_eq!(strategy.process(5, Ok(vec![3, 3, 1, 3, 1])), QueryStep::Success(vec![3, 1]));
}

#[test]
fn union_responses_counts_a_peer_once() {
    let mut strategy = UnionResponses::<u64>::new(2);
    assert_eq!(strategy.process(1, Ok(vec![1])), QueryStep::Continue);
    assert_eq!(strategy.process(1, Ok(vec![2])), QueryStep::Continue);
    assert_eq!(strategy.process(2, Ok(vec![])), QueryStep::Success(vec![1, 2]));
}

#[test]
fn union_responses_fails_on_errors_as_current_consensus_does() {
    let mut strategy = UnionResponses::<u64>::new(2);
    assert_eq!(strategy.process(1, Err(rpc_error(500, "a"))), QueryStep::Continue);
    let mut expected = BTreeMap::new();
    expected.insert(1, rpc_error(500, "a"));
    expected.insert(2, rpc_error(500, "b"));
    assert_eq!(strategy.process(2, Err(rpc_error(500, "b"))), QueryStep::Failure(expected));
}

#[test]
fn union_responses_single_gathers_distinct_values() {
    let mut strategy = UnionResponsesSingle::<String>::new(3);
    assert_eq!(strategy.process(1, Ok(text("a"))), QueryStep::Continue);
    assert_eq!(strategy.process(2, Ok(text("a"))), QueryStep::Continue);
    assert_eq!(
        strategy.process(3, Ok(text("b"))),
        QueryStep::Success(vec![text("a"), text("b")])
    );
}

#[test]
fn eventually_consistent_retries_after_a_round_without_agreement() {
    let mut strategy = EventuallyConsistent::<String>::new(2);
    assert_eq!(strategy.process(1, Ok(text("a"))), QueryStep::Continue);
    assert_eq!(strategy.process(2, Ok(text("b"))), QueryStep::RetryMembers(peers(&[1, 2])));
    assert_eq!(strategy.process(1, Ok(text("a"))), QueryStep::Continue);
    assert_eq!(strategy.process(2, Ok(text("a"))), QueryStep::Success(text("a")));
}

#[test]
fn eventually_consistent_succeeds_within_a_round() {
    let mut strategy = EventuallyConsistent::<u64>::new(2);
    assert_eq!(strategy.process(1, Ok(5)), QueryStep::Continue);
    assert_eq!(strategy.process(2, Ok(5)), QueryStep::Success(5));
}

fn signed_outcome(sk: &threshold_crypto::SecretKey, epoch: u64) -> SignedEpochOutcome {
    let mut outcome = SignedEpochOutcome {
        epoch,
        items: vec![(0, ConsensusItem::Transaction(vec![1, 2, 3]))],
        signature: [0u8; 96],
    };
    outcome.signature = sk.sign(outcome.consensus_hash()).to_bytes();
    outcome
}

#[test]
fn valid_history_believes_one_signed_epoch() {
    let sk = threshold_crypto::SecretKey::random();
    let outcome = signed_outcome(&sk, 4);
    let mut strategy = ValidHistory::new(sk.public_key().to_bytes(), 3);
    assert_eq!(strategy.process(2, Ok(outcome.clone())), QueryStep::Success(outcome));
}

#[test]
fn valid_history_falls_back_to_agreement() {
    let sk = threshold_crypto::SecretKey::random();
    let other = threshold_crypto::SecretKey::random();
    let forged = signed_outcome(&other, 4);
    let mut strategy = ValidHistory::new(sk.public_key().to_bytes(), 2);
    assert_eq!(strategy.process(1, Ok(forged.clone())), QueryStep::Continue);
    assert_eq!(strategy.process(2, Ok(forged.clone())), QueryStep::Success(forged));
}

#[test]
fn run_strategy_stops_at_the_first_final_step() {
    let mut strategy = CurrentConsensus::<u64>::new(2);
    let responses = vec![(1, Ok(9)), (2, Err(rpc_error(500, "x"))), (3, Ok(9)), (4, Ok(1)), (5, Ok(1))];
    let steps = run_strategy(&mut strategy, responses);
    assert_eq!(steps, vec![QueryStep::Continue, QueryStep::Continue, QueryStep::Success(9)]);
    assert_eq!(steps.iter().filter(|s| s.is_terminal()).count(), 1);
}

#[test]
fn run_strategy_may_end_undecided() {
    let mut strategy = CurrentConsensus::<u64>::new(3);
    let steps = run_strategy(&mut strategy, vec![(1, Ok(1)), (2, Ok(2))]);
    assert_eq!(steps, vec![QueryStep::Continue, QueryStep::Continue]);
    let none: Vec<(PeerId, Result<u64, PeerError>)> = vec![];
    assert!(run_strategy(&mut strategy, none).is_empty());
}

#[test]
fn not_found_is_an_rpc_error_with_code_404() {
    assert!(rpc_error(404, "").is_not_found());
    assert!(!rpc_error(400, "").is_not_found());
    assert!(!PeerError::Transport(text("404")).is_not_found());
}

#[test]
fn valid_history_goes_by_the_verdict_given() {
    let sk = threshold_crypto::SecretKey::random();
    let outcome = signed_outcome(&sk, 1);
    let mut strategy = ValidHistory::new(sk.public_key().to_bytes(), 2);
    assert_eq!(strategy.process_checked(1, Ok(outcome.clone()), false), QueryStep::Continue);
    assert_eq!(
        strategy.process_checked(2, Err(rpc_error(500, "x")), true),
        QueryStep::Continue
    );
    assert_eq!(
        strategy.process_checked(3, Ok(outcome.clone()), true),
        QueryStep::Success(outcome)
    );
}
