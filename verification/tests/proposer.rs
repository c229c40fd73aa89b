use fedimint_consensus::proposer::late_warning;
use fedimint_consensus::proposer::module_items;
use fedimint_consensus::proposer::proposal_interval_ms;
use fedimint_consensus::proposer::ProposerAction;
use fedimint_consensus::proposer::ProposerEvent;
use fedimint_consensus::proposer::ProposerPhase;
use fedimint_consensus::proposer::ProposerTask;
use fedimint_consensus::proposer::CONSENSUS_PROPOSAL_TIMEOUT_SECS;
use fedimint_consensus::types::ConsensusItem;
use fedimint_consensus::types::ModuleKind;

#[test]
fn rounds_are_a_second_apart_and_faster_in_tests() {
    assert_eq!(proposal_interval_ms(false), 1000);
    assert_eq!(proposal_interval_ms(true), 100);
    assert_eq!(CONSENSUS_PROPOSAL_TIMEOUT_SECS, 30);
    assert_eq!(ProposerTask::new(1, ModuleKind::new("mint"), false).interval_ms(), 1000);
    assert_eq!(ProposerTask::new(1, ModuleKind::new("mint"), true).interval_ms(), 100);
}

#[test]
fn payloads_become_items_of_the_module() {
    assert_eq!(
        module_items(7, vec![vec![1], vec![], vec![2, 3]]),
        vec![
            ConsensusItem::Module(7, vec![1]),
            ConsensusItem::Module(7, vec![]),
            ConsensusItem::Module(7, vec![2, 3]),
        ]
    );
    assert!(module_items(7, vec![]).is_empty());
}

#[test]
fn a_round_asks_submits_and_sleeps() {
    let mut task = ProposerTask::new(3, ModuleKind::new("wallet"), false);
    assert_eq!(task.phase(), ProposerPhase::Waiting);
    assert_eq!(task.module_instance_id(), 3);
    assert_eq!(
        task.step(ProposerEvent::Tick { shutting_down: false }),
        ProposerAction::Propose { module_instance_id: 3, timeout_secs: 30 }
    );
    assert_eq!(task.phase(), ProposerPhase::Proposing);
    assert_eq!(
        task.step(ProposerEvent::Proposed(vec![vec![4, 5]])),
        ProposerAction::Submit { items: vec![ConsensusItem::Module(3, vec![4, 5])], sleep_ms: 1000 }
    );
    assert_eq!(task.phase(), ProposerPhase::Waiting);
}

#[test]
fn a_late_module_costs_one_round() {
    let mut task = ProposerTask::new(12, ModuleKind::new("ln"), true);
    assert!(matches!(
        task.step(ProposerEvent::Tick { shutting_down: false }),
        ProposerAction::Propose { .. }
    ));
    assert_eq!(
        task.step(ProposerEvent::TimedOut),
        ProposerAction::Warn {
            warning: "Module 12 of kind ln failed to propose consensus items on time".to_string(),
            sleep_ms: 100
        }
    );
    assert_eq!(task.phase(), ProposerPhase::Waiting);
    assert_eq!(
        task.step(ProposerEvent::Tick { shutting_down: false }),
        ProposerAction::Propose { module_instance_id: 12, timeout_secs: 30 }
    );
}

#[test]
fn the_task_ends_at_a_tick_during_shutdown() {
    let mut task = ProposerTask::new(1, ModuleKind::new("mint"), false);
    assert_eq!(task.step(ProposerEvent::Tick { shutting_down: true }), ProposerAction::Exit);
    assert_eq!(task.phase(), ProposerPhase::Stopped);
    assert_eq!(task.step(ProposerEvent::Tick { shutting_down: false }), ProposerAction::Ignore);
    assert_eq!(task.step(ProposerEvent::TimedOut), ProposerAction::Ignore);
    assert_eq!(task.phase(), ProposerPhase::Stopped);
}

#[test]
fn events_out_of_turn_are_ignored() {
    let mut task = ProposerTask::new(1, ModuleKind::new("mint"), false);
    assert_eq!(task.step(ProposerEvent::TimedOut), ProposerAction::Ignore);
    assert_eq!(task.step(ProposerEvent::Proposed(vec![vec![1]])), ProposerAction::Ignore);
    assert_eq!(task.phase(), ProposerPhase::Waiting);
    assert!(matches!(
        task.step(ProposerEvent::Tick { shutting_down: false }),
        ProposerAction::Propose { .. }
    ));
    assert_eq!(task.step(ProposerEvent::Tick { shutting_down: true }), ProposerAction::Ignore);
    assert_eq!(task.phase(), ProposerPhase::Proposing);
}

#[test]
fn the_warning_names_module_and_kind() {
    assert_eq!(
        late_warning(0, &ModuleKind::new("mint")),
        "Module 0 of kind mint failed to propose consensus items on time"
    );
}
