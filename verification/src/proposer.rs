//! Proposer tasks: one per module instance, each asking its module at every
//! tick what it wants the federation to agree on.
//!
//! The task is a state machine. The surrounding program sleeps, calls the
//! module and sends; the machine says which of these comes next.

use vstd::prelude::*;
use vstd::string::StringExecFns;
use crate::api::decimal;
use crate::api::decimal_string;
use crate::types::ConsensusItem;
use crate::types::ConsensusItemView;
use crate::types::ModuleInstanceId;
use crate::types::ModuleKind;

verus! {

/// How long a module may take to propose before the round is given up.
pub const CONSENSUS_PROPOSAL_TIMEOUT_SECS: u64 = 30;

/// Time between two rounds of proposals in production.
pub const PROPOSAL_INTERVAL_MS: u64 = 1000;

/// Time between two rounds of proposals in a test environment.
pub const PROPOSAL_INTERVAL_TEST_MS: u64 = 100;

/// Time between two rounds of proposals.
pub fn proposal_interval_ms(test_env: bool) -> (ms: u64)
    ensures
        ms == (if test_env {
            PROPOSAL_INTERVAL_TEST_MS
        } else {
            PROPOSAL_INTERVAL_MS
        }),
{
    if test_env {
        PROPOSAL_INTERVAL_TEST_MS
    } else {
        PROPOSAL_INTERVAL_MS
    }
}

/// The consensus items that stand for the payloads `payloads` proposed by
/// the module instance `module_id`.
pub open spec fn spec_module_items(module_id: ModuleInstanceId, payloads: Seq<Vec<u8>>) -> Seq<ConsensusItemView> {
    payloads.map_values(|p: Vec<u8>| ConsensusItemView::Module(module_id, p@))
}

/// The views of `items`, in order.
pub open spec fn item_views(items: Seq<ConsensusItem>) -> Seq<ConsensusItemView> {
    items.map_values(|i: ConsensusItem| i@)
}

/// Wraps each payload that a module proposed as a consensus item of that
/// module instance, keeping their order.
pub fn module_items(module_id: ModuleInstanceId, payloads: Vec<Vec<u8>>) -> (items: Vec<ConsensusItem>)
    ensures
        item_views(items@) == spec_module_items(module_id, payloads@),
{
    let mut items: Vec<ConsensusItem> = Vec::new();
    let ghost all = payloads@;
    for payload in it: payloads
        invariant
            it.seq() == all,
            item_views(items@) == spec_module_items(module_id, all.subrange(0, it.index() as int)),
    {
        let ghost before = items@;
        let ghost i = it.index() as int;
        items.push(ConsensusItem::Module(module_id, payload));
        proof {
            let lhs = item_views(items@);
            let rhs = spec_module_items(module_id, all.subrange(0, i + 1));
            assert(item_views(before).len() == before.len());
            assert(spec_module_items(module_id, all.subrange(0, i)).len() == i);
            assert(items@.len() == before.len() + 1);
            assert(lhs.len() == rhs.len());
            assert forall|k: int| 0 <= k < lhs.len() implies lhs[k] == rhs[k] by {
                if k < i {
                    assert(items@[k] == before[k]);
                    assert(item_views(before)[k] == spec_module_items(
                        module_id,
                        all.subrange(0, i),
                    )[k]);
                    assert(all.subrange(0, i)[k] == all.subrange(0, i + 1)[k]);
                } else {
                    assert(all.subrange(0, i + 1)[k] == payload);
                }
            }
            assert(lhs =~= rhs);
        }
    }
    proof {
        assert(all.subrange(0, all.len() as int) =~= all);
    }
    items
}

/// Where a proposer task stands in its round.
#[derive(Clone, Copy, Debug, PartialEq, Eq)]
pub enum ProposerPhase {
    /// Sleeping until the next tick.
    Waiting,
    /// The module was asked for its proposal.
    Proposing,
    /// The task has ended.
    Stopped,
}

/// Something that happens to a proposer task.
pub enum ProposerEvent {
    /// The interval has passed; `shutting_down` tells whether the server is
    /// shutting down by now.
    Tick { shutting_down: bool },
    /// The module proposed these payloads.
    Proposed(Vec<Vec<u8>>),
    /// The module did not propose within [`CONSENSUS_PROPOSAL_TIMEOUT_SECS`].
    TimedOut,
}

/// What the surrounding program is to do next for a proposer task.
#[derive(Debug, PartialEq, Eq)]
pub enum ProposerAction {
    /// Ask the module for its proposal, on a read-only snapshot of its part
    /// of the database, and give up after `timeout_secs`.
    Propose { module_instance_id: ModuleInstanceId, timeout_secs: u64 },
    /// Offer the items to the submission channel, dropping what does not
    /// fit; then sleep for `sleep_ms`.
    Submit { items: Vec<ConsensusItem>, sleep_ms: u64 },
    /// Log `warning`; then sleep for `sleep_ms`.
    Warn { warning: String, sleep_ms: u64 },
    /// End the task.
    Exit,
    /// The event does not fit the task's phase; nothing changes.
    Ignore,
}

/// [`ProposerAction`], mathematically.
pub enum ProposerActionView {
    Propose { module_instance_id: ModuleInstanceId, timeout_secs: u64 },
    Submit { items: Seq<ConsensusItemView>, sleep_ms: u64 },
    Warn { warning: Seq<char>, sleep_ms: u64 },
    Exit,
    Ignore,
}

impl View for ProposerAction {
    type V = ProposerActionView;

    open spec fn view(&self) -> ProposerActionView {
        match self {
            ProposerAction::Propose { module_instance_id, timeout_secs } => ProposerActionView::Propose {
                module_instance_id: *module_instance_id,
                timeout_secs: *timeout_secs,
            },
            ProposerAction::Submit { items, sleep_ms } => ProposerActionView::Submit {
                items: item_views(items@),
                sleep_ms: *sleep_ms,
            },
            ProposerAction::Warn { warning, sleep_ms } => ProposerActionView::Warn {
                warning: warning@,
                sleep_ms: *sleep_ms,
            },
            ProposerAction::Exit => ProposerActionView::Exit,
            ProposerAction::Ignore => ProposerActionView::Ignore,
        }
    }
}

/// The warning about a module that did not propose in time.
pub open spec fn spec_late_warning(module_id: ModuleInstanceId, kind: Seq<char>) -> Seq<char> {
    "Module "@ + decimal(module_id as nat) + " of kind "@ + kind
        + " failed to propose consensus items on time"@
}

/// The warning about a module that did not propose in time.
pub fn late_warning(module_id: ModuleInstanceId, kind: &ModuleKind) -> (warning: String)
    ensures
        warning@ == spec_late_warning(module_id, kind@),
{
    let mut warning = String::from_str("Module ");
    let id = decimal_string(module_id);
    warning.append(id.as_str());
    warning.append(" of kind ");
    warning.append(kind.name.as_str());
    warning.append(" failed to propose consensus items on time");
    assert(warning@ =~= spec_late_warning(module_id, kind@));
    warning
}

/// The proposer task of one module instance.
pub struct ProposerTask {
    module_instance_id: ModuleInstanceId,
    kind: ModuleKind,
    interval_ms: u64,
    phase: ProposerPhase,
}

/// A proposer task, mathematically.
pub struct ProposerState {
    pub module_instance_id: ModuleInstanceId,
    pub kind: Seq<char>,
    pub interval_ms: u64,
    pub phase: ProposerPhase,
}

/// The task's answer to `event`, and its state after it.
///
/// At a tick the task ends if the server is shutting down, and else asks
/// its module. What the module proposes is submitted; if it proposes
/// nothing in time, a warning is logged. Either way the task then sleeps
/// until its next tick: a round that failed never ends the task.
pub open spec fn spec_proposer_step(s: ProposerState, event: ProposerEvent) -> (
    ProposerState,
    ProposerActionView,
) {
    match (s.phase, event) {
        (ProposerPhase::Waiting, ProposerEvent::Tick { shutting_down }) => if shutting_down {
            (ProposerState { phase: ProposerPhase::Stopped, ..s }, ProposerActionView::Exit)
        } else {
            (
                ProposerState { phase: ProposerPhase::Proposing, ..s },
                ProposerActionView::Propose {
                    module_instance_id: s.module_instance_id,
                    timeout_secs: CONSENSUS_PROPOSAL_TIMEOUT_SECS,
                },
            )
        },
        (ProposerPhase::Proposing, ProposerEvent::Proposed(payloads)) => (
            ProposerState { phase: ProposerPhase::Waiting, ..s },
            ProposerActionView::Submit {
                items: spec_module_items(s.module_instance_id, payloads@),
                sleep_ms: s.interval_ms,
            },
        ),
        (ProposerPhase::Proposing, ProposerEvent::TimedOut) => (
            ProposerState { phase: ProposerPhase::Waiting, ..s },
            ProposerActionView::Warn {
                warning: spec_late_warning(s.module_instance_id, s.kind),
                sleep_ms: s.interval_ms,
            },
        ),
        _ => (s, ProposerActionView::Ignore),
    }
}

impl View for ProposerTask {
    type V = ProposerState;

    closed spec fn view(&self) -> ProposerState {
        ProposerState {
            module_instance_id: self.module_instance_id,
            kind: self.kind@,
            interval_ms: self.interval_ms,
            phase: self.phase,
        }
    }
}

impl ProposerTask {
    /// The task of the module instance `module_instance_id`, before its
    /// first tick.
    pub fn new(module_instance_id: ModuleInstanceId, kind: ModuleKind, test_env: bool) -> (task: ProposerTask)
        ensures
            task@ == (ProposerState {
                module_instance_id,
                kind: kind@,
                interval_ms: if test_env {
                    PROPOSAL_INTERVAL_TEST_MS
                } else {
                    PROPOSAL_INTERVAL_MS
                },
                phase: ProposerPhase::Waiting,
            }),
    {
        ProposerTask {
            module_instance_id,
            kind,
            interval_ms: proposal_interval_ms(test_env),
            phase: ProposerPhase::Waiting,
        }
    }

    pub fn module_instance_id(&self) -> (id: ModuleInstanceId)
        ensures
            id == self@.module_instance_id,
    {
        self.module_instance_id
    }

    pub fn interval_ms(&self) -> (ms: u64)
        ensures
            ms == self@.interval_ms,
    {
        self.interval_ms
    }

    pub fn phase(&self) -> (phase: ProposerPhase)
        ensures
            phase == self@.phase,
    {
        self.phase
    }

    /// Takes `event` and says what is to be done next; see
    /// [`spec_proposer_step`].
    pub fn step(&mut self, event: ProposerEvent) -> (action: ProposerAction)
        ensures
            (final(self)@, action@) == spec_proposer_step(old(self)@, event),
    {
        match (self.phase, event) {
            (ProposerPhase::Waiting, ProposerEvent::Tick { shutting_down }) => {
                if shutting_down {
                    self.phase = ProposerPhase::Stopped;
                    ProposerAction::Exit
                } else {
                    self.phase = ProposerPhase::Proposing;
                    ProposerAction::Propose {
                        module_instance_id: self.module_instance_id,
                        timeout_secs: CONSENSUS_PROPOSAL_TIMEOUT_SECS,
                    }
                }
            },
            (ProposerPhase::Proposing, ProposerEvent::Proposed(payloads)) => {
                self.phase = ProposerPhase::Waiting;
                ProposerAction::Submit {
                    items: module_items(self.module_instance_id, payloads),
                    sleep_ms: self.interval_ms,
                }
            },
            (ProposerPhase::Proposing, ProposerEvent::TimedOut) => {
                self.phase = ProposerPhase::Waiting;
                ProposerAction::Warn {
                    warning: late_warning(self.module_instance_id, &self.kind),
                    sleep_ms: self.interval_ms,
                }
            },
            _ => ProposerAction::Ignore,
        }
    }
}

/// A module that fails to propose in time costs one round and no more: the
/// task warns, sleeps, and at its next tick asks the module again.
pub proof fn lemma_timeout_costs_one_round(s: ProposerState)
    requires
        s.phase == ProposerPhase::Proposing,
    ensures
        ({
            let (late, warned) = spec_proposer_step(s, ProposerEvent::TimedOut);
            let (next, asked) = spec_proposer_step(late, ProposerEvent::Tick { shutting_down: false });
            &&& warned is Warn
            &&& late.phase == ProposerPhase::Waiting
            &&& asked == (ProposerActionView::Propose {
                module_instance_id: s.module_instance_id,
                timeout_secs: CONSENSUS_PROPOSAL_TIMEOUT_SECS,
            })
            &&& next.phase == ProposerPhase::Proposing
        }),
{
}

/// A proposer task ends only at a tick at which the server is shutting down.
pub proof fn lemma_task_ends_only_on_shutdown(s: ProposerState, event: ProposerEvent)
    requires
        s.phase != ProposerPhase::Stopped,
        spec_proposer_step(s, event).0.phase == ProposerPhase::Stopped,
    ensures
        event == (ProposerEvent::Tick { shutting_down: true }),
        s.phase == ProposerPhase::Waiting,
{
}

} // verus!
