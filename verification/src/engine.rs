//! The consensus engine: what to do with each signed epoch outcome.
//!
//! The engine is a state machine. The surrounding program tells it what
//! happened (an outcome arrived, the database commit ended, shutdown was
//! asked for) and carries out the action it answers with. The engine itself
//! touches neither network nor storage.

use vstd::prelude::*;
use std::collections::BTreeMap;
use async_channel::Receiver;
use crate::channel::drain_submissions;
use crate::channel::TRANSACTION_BUFFER;
use crate::codec::views_of;
use crate::epoch::SignedEpochOutcome;
use crate::epoch::SignedEpochOutcomeView;
use crate::registry::ModuleRegistry;
use crate::types::ConsensusItem;
use crate::types::ConsensusItemView;
use crate::types::EpochIndex;
use crate::types::ModuleInstanceId;
use crate::types::PeerId;

verus! {

broadcast use vstd::std_specs::btree::group_btree_axioms;

/// How many submitted items at most go into one proposal.
pub const PROPOSAL_BATCH_MAX: usize = TRANSACTION_BUFFER;

/// A fault after which the replicated state cannot be trusted any more. The
/// engine stops for good, and the server shuts down.
#[derive(Clone, Copy, Debug, PartialEq, Eq)]
pub enum FatalError {
    /// The outcome's threshold signature does not verify.
    InvalidSignature { epoch: EpochIndex },
    /// An item of the outcome names a module instance that this server does not run.
    UnknownModule { epoch: EpochIndex, module_instance_id: ModuleInstanceId },
    /// The database did not commit the outcome.
    CommitFailed { epoch: EpochIndex },
}

/// What the surrounding program is to do next.
#[derive(Debug, PartialEq, Eq)]
pub enum EngineAction {
    /// Apply `items`, in this order, in one write transaction that also
    /// records `epoch` as the highest applied epoch; then tell the engine
    /// how the commit ended.
    Apply { epoch: EpochIndex, items: Vec<(PeerId, ConsensusItem)> },
    /// The outcome was applied before; there is nothing to do.
    Skip { epoch: EpochIndex },
    /// Wake the API callers that wait for the consensus to reach `epoch`.
    Notify { epoch: EpochIndex },
    /// Tear everything down: the fault cannot be recovered from.
    Fatal(FatalError),
    /// Leave the main loop; shutdown was asked for.
    Exit,
    /// The event does not fit the engine's phase; nothing changes.
    Ignore,
}

/// [`EngineAction`], mathematically.
pub enum EngineActionView {
    Apply { epoch: EpochIndex, items: Seq<(PeerId, ConsensusItemView)> },
    Skip { epoch: EpochIndex },
    Notify { epoch: EpochIndex },
    Fatal(FatalError),
    Exit,
    Ignore,
}

impl View for EngineAction {
    type V = EngineActionView;

    open spec fn view(&self) -> EngineActionView {
        match self {
            EngineAction::Apply { epoch, items } => EngineActionView::Apply {
                epoch: *epoch,
                items: views_of(items@),
            },
            EngineAction::Skip { epoch } => EngineActionView::Skip { epoch: *epoch },
            EngineAction::Notify { epoch } => EngineActionView::Notify { epoch: *epoch },
            EngineAction::Fatal(e) => EngineActionView::Fatal(*e),
            EngineAction::Exit => EngineActionView::Exit,
            EngineAction::Ignore => EngineActionView::Ignore,
        }
    }
}

/// Where the engine stands in its loop.
#[derive(Clone, Copy, Debug, PartialEq, Eq)]
pub enum Phase {
    /// Waiting for the next outcome.
    Idle,
    /// An outcome is being applied; the engine waits for the commit.
    Applying,
    /// A fatal fault occurred.
    Halted,
    /// Shutdown was asked for, and the engine left its loop.
    Stopped,
}

/// The engine's state, mathematically.
pub struct EngineState {
    pub phase: Phase,
    /// The persisted high-water mark: the highest epoch that was committed.
    pub highest_applied: Option<EpochIndex>,
    /// For each peer, the last epoch in which an item of its was applied.
    pub last_ci_by_peer: Map<PeerId, EpochIndex>,
    /// The outcome that is being applied, while the phase is `Applying`.
    pub pending: Option<SignedEpochOutcomeView>,
    /// The outcomes that this engine committed, oldest first.
    pub committed: Seq<SignedEpochOutcomeView>,
}

/// Whether the item at position `i` of `items` names a module instance that
/// `modules` does not hold.
pub open spec fn unroutable_at(
    modules: ModuleRegistry,
    items: Seq<(PeerId, ConsensusItemView)>,
    i: int,
) -> bool {
    items[i].1.module_id() matches Some(id) && !modules.has(id)
}

/// Whether every item of `items` that names a module instance names one
/// that `modules` holds.
pub open spec fn all_routable(modules: ModuleRegistry, items: Seq<(PeerId, ConsensusItemView)>) -> bool {
    forall|i: int| 0 <= i < items.len() ==> !unroutable_at(modules, items, i)
}

/// Position of the first item of `items` that names a module instance
/// which `modules` does not hold.
pub open spec fn first_unroutable(
    modules: ModuleRegistry,
    items: Seq<(PeerId, ConsensusItemView)>,
) -> int {
    choose|i: int|
        0 <= i < items.len() && unroutable_at(modules, items, i) && forall|j: int|
            0 <= j < i ==> !unroutable_at(modules, items, j)
}

/// The peers that proposed `items`, in the items' order.
pub open spec fn proposers_of(items: Seq<(PeerId, ConsensusItemView)>) -> Seq<PeerId> {
    items.map_values(|e: (PeerId, ConsensusItemView)| e.0)
}

/// `last` after every peer of `proposers` had an item applied in `epoch`.
pub open spec fn record_proposers(
    last: Map<PeerId, EpochIndex>,
    proposers: Seq<PeerId>,
    epoch: EpochIndex,
) -> Map<PeerId, EpochIndex> {
    Map::new(
        |p: PeerId| last.contains_key(p) || proposers.contains(p),
        |p: PeerId|
            if proposers.contains(p) {
                epoch
            } else {
                last[p]
            },
    )
}

/// Whether an outcome for `epoch` lies at or below the high-water mark.
pub open spec fn already_applied(highest_applied: Option<EpochIndex>, epoch: EpochIndex) -> bool {
    highest_applied matches Some(h) && epoch <= h
}

/// The engine's answer to an outcome whose signature was checked with the
/// verdict `signature_ok`, and its state after it.
///
/// Outside the `Idle` phase the outcome is ignored. An outcome whose
/// signature does not verify is fatal. One at or below the high-water mark
/// was applied before and is skipped. One with an item for a module
/// instance that is not registered is fatal. Any other is to be applied.
pub open spec fn spec_on_checked_outcome(
    modules: ModuleRegistry,
    s: EngineState,
    outcome: SignedEpochOutcomeView,
    signature_ok: bool,
) -> (EngineState, EngineActionView) {
    if s.phase != Phase::Idle {
        (s, EngineActionView::Ignore)
    } else if !signature_ok {
        (
            EngineState { phase: Phase::Halted, ..s },
            EngineActionView::Fatal(FatalError::InvalidSignature { epoch: outcome.epoch }),
        )
    } else if already_applied(s.highest_applied, outcome.epoch) {
        (s, EngineActionView::Skip { epoch: outcome.epoch })
    } else if !all_routable(modules, outcome.items) {
        (
            EngineState { phase: Phase::Halted, ..s },
            EngineActionView::Fatal(
                FatalError::UnknownModule {
                    epoch: outcome.epoch,
                    module_instance_id: outcome.items[first_unroutable(
                        modules,
                        outcome.items,
                    )].1.module_id()->Some_0,
                },
            ),
        )
    } else {
        (
            EngineState { phase: Phase::Applying, pending: Some(outcome), ..s },
            EngineActionView::Apply { epoch: outcome.epoch, items: outcome.items },
        )
    }
}

/// The engine's answer to an outcome, and its state after it: that of
/// [`spec_on_checked_outcome`] for the verdict on the outcome's signature
/// under the key `epoch_pk`.
pub open spec fn spec_on_outcome(
    epoch_pk: Seq<u8>,
    modules: ModuleRegistry,
    s: EngineState,
    outcome: SignedEpochOutcomeView,
) -> (EngineState, EngineActionView) {
    spec_on_checked_outcome(modules, s, outcome, outcome.signed_by(epoch_pk))
}

/// The engine's answer to the end of a commit, and its state after it.
///
/// Outside the `Applying` phase the event is ignored. A commit that went
/// through makes the pending outcome's epoch the high-water mark, records it
/// for each peer that proposed one of its items, and has the watchers
/// notified. A commit that failed is fatal, and nothing else changes.
pub open spec fn spec_on_commit(s: EngineState, committed: bool) -> (EngineState, EngineActionView) {
    if s.phase != Phase::Applying || s.pending is None {
        (s, EngineActionView::Ignore)
    } else {
        let outcome = s.pending->Some_0;
        if committed {
            (
                EngineState {
                    phase: Phase::Idle,
                    highest_applied: Some(outcome.epoch),
                    last_ci_by_peer: record_proposers(
                        s.last_ci_by_peer,
                        proposers_of(outcome.items),
                        outcome.epoch,
                    ),
                    pending: None,
                    committed: s.committed.push(outcome),
                },
                EngineActionView::Notify { epoch: outcome.epoch },
            )
        } else {
            (
                EngineState { phase: Phase::Halted, pending: None, ..s },
                EngineActionView::Fatal(FatalError::CommitFailed { epoch: outcome.epoch }),
            )
        }
    }
}

/// The engine's answer to a request for shutdown, and its state after it.
///
/// A commit that is under way runs to its end first: while `Applying`, the
/// request is ignored, and is to be made again after the commit.
pub open spec fn spec_on_shutdown(s: EngineState) -> (EngineState, EngineActionView) {
    if s.phase == Phase::Applying {
        (s, EngineActionView::Ignore)
    } else if s.phase == Phase::Idle {
        (EngineState { phase: Phase::Stopped, ..s }, EngineActionView::Exit)
    } else {
        (s, EngineActionView::Exit)
    }
}

/// What holds of the engine's state at all times.
pub open spec fn state_wf(modules: ModuleRegistry, s: EngineState) -> bool {
    &&& modules.wf()
    &&& s.last_ci_by_peer.dom().finite()
    &&& forall|p: PeerId| #[trigger]
        s.last_ci_by_peer.contains_key(p) ==> already_applied(
            s.highest_applied,
            s.last_ci_by_peer[p],
        )
    &&& forall|i: int|
        0 <= i < s.committed.len() ==> already_applied(
            s.highest_applied,
            (#[trigger] s.committed[i]).epoch,
        )
    &&& forall|i: int, j: int|
        0 <= i < j < s.committed.len() ==> s.committed[i].epoch < s.committed[j].epoch
    &&& forall|i: int|
        0 <= i < s.committed.len() ==> all_routable(modules, (#[trigger] s.committed[i]).items)
    &&& s.phase == Phase::Applying <==> s.pending is Some
    &&& s.pending matches Some(outcome) ==> {
        &&& !already_applied(s.highest_applied, outcome.epoch)
        &&& all_routable(modules, outcome.items)
    }
}

/// Whether every outcome that the engine committed, and the one it is
/// applying, carries a signature that verifies against `epoch_pk`.
pub open spec fn history_signed(epoch_pk: Seq<u8>, s: EngineState) -> bool {
    &&& forall|i: int|
        0 <= i < s.committed.len() ==> (#[trigger] s.committed[i]).signed_by(epoch_pk)
    &&& s.pending matches Some(outcome) ==> outcome.signed_by(epoch_pk)
}

/// The consensus engine of one server.
pub struct ConsensusEngine {
    epoch_pk: [u8; 48],
    modules: ModuleRegistry,
    phase: Phase,
    highest_applied: Option<EpochIndex>,
    last_ci_by_peer: BTreeMap<PeerId, EpochIndex>,
    pending_epoch: EpochIndex,
    pending_proposers: Vec<PeerId>,
    pending: Ghost<Option<SignedEpochOutcomeView>>,
    committed: Ghost<Seq<SignedEpochOutcomeView>>,
}

impl View for ConsensusEngine {
    type V = EngineState;

    closed spec fn view(&self) -> EngineState {
        EngineState {
            phase: self.phase,
            highest_applied: self.highest_applied,
            last_ci_by_peer: self.last_ci_by_peer@,
            pending: self.pending@,
            committed: self.committed@,
        }
    }
}

impl ConsensusEngine {
    /// The key that epoch signatures are checked against.
    pub closed spec fn epoch_pk(&self) -> Seq<u8> {
        self.epoch_pk@
    }

    /// The modules that this server runs.
    pub closed spec fn modules(&self) -> ModuleRegistry {
        self.modules
    }

    /// The pending outcome's epoch and proposers are at hand for the commit.
    pub closed spec fn pending_at_hand(&self) -> bool {
        self.pending@ matches Some(outcome) ==> self.pending_epoch == outcome.epoch
            && self.pending_proposers@ == proposers_of(outcome.items)
    }

    /// The engine's invariant.
    pub open spec fn wf(&self) -> bool {
        &&& state_wf(self.modules(), self@)
        &&& self.pending_at_hand()
    }

    /// Whether all that this engine committed or is applying was signed.
    pub open spec fn signed(&self) -> bool {
        history_signed(self.epoch_pk(), self@)
    }

    /// Leaving the `Idle` phase for one in which nothing is pending keeps
    /// the invariant and the signatures.
    proof fn lemma_only_phase_changed(&self, before: ConsensusEngine)
        requires
            before.wf(),
            before@.phase == Phase::Idle,
            self.phase != Phase::Applying,
            self.epoch_pk == before.epoch_pk,
            self.modules == before.modules,
            self.highest_applied == before.highest_applied,
            self.last_ci_by_peer == before.last_ci_by_peer,
            self.pending == before.pending,
            self.committed == before.committed,
        ensures
            self.wf(),
            before.signed() ==> self.signed(),
            self@ == (EngineState { phase: self.phase, ..before@ }),
            self.modules() == before.modules(),
            self.epoch_pk() == before.epoch_pk(),
    {
        assert(self@.last_ci_by_peer == before@.last_ci_by_peer);
        assert(self@.pending == before@.pending);
        assert(self@.committed == before@.committed);
        assert(self@.highest_applied == before@.highest_applied);
        assert(before@.pending is None);
        assert(state_wf(before.modules(), before@));
        assert(state_wf(self.modules(), self@));
    }

    /// An engine that waits for its first outcome. `highest_applied` is the
    /// high-water mark found in the database, if there is one.
    pub fn new(epoch_pk: [u8; 48], modules: ModuleRegistry, highest_applied: Option<EpochIndex>) -> (engine:
        ConsensusEngine)
        ensures
            engine.wf(),
            engine.signed(),
            engine.epoch_pk() == epoch_pk@,
            engine.modules() == modules,
            engine@ == (EngineState {
                phase: Phase::Idle,
                highest_applied,
                last_ci_by_peer: Map::<PeerId, EpochIndex>::empty(),
                pending: None,
                committed: Seq::<SignedEpochOutcomeView>::empty(),
            }),
    {
        proof {
            modules.lemma_entries_are_modules();
        }
        ConsensusEngine {
            epoch_pk,
            modules,
            phase: Phase::Idle,
            highest_applied,
            last_ci_by_peer: BTreeMap::new(),
            pending_epoch: 0,
            pending_proposers: Vec::new(),
            pending: Ghost(None),
            committed: Ghost(Seq::empty()),
        }
    }

    /// Where the engine stands in its loop.
    pub fn phase(&self) -> (phase: Phase)
        ensures
            phase == self@.phase,
    {
        self.phase
    }

    /// The high-water mark: the highest epoch that was committed.
    pub fn highest_applied(&self) -> (epoch: Option<EpochIndex>)
        ensures
            epoch == self@.highest_applied,
    {
        self.highest_applied
    }

    /// The last epoch in which an item proposed by `peer` was applied.
    pub fn last_consensus_of(&self, peer: PeerId) -> (epoch: Option<EpochIndex>)
        ensures
            epoch == (if self@.last_ci_by_peer.contains_key(peer) {
                Some(self@.last_ci_by_peer[peer])
            } else {
                None
            }),
    {
        match self.last_ci_by_peer.get(&peer) {
            Some(epoch) => Some(*epoch),
            None => None,
        }
    }

    /// For each peer, the last epoch in which an item of its was applied.
    pub fn last_ci_by_peer(&self) -> (map: &BTreeMap<PeerId, EpochIndex>)
        ensures
            map@ == self@.last_ci_by_peer,
    {
        &self.last_ci_by_peer
    }

    /// The modules that this server runs.
    pub fn registry(&self) -> (modules: &ModuleRegistry)
        ensures
            *modules == self.modules(),
    {
        &self.modules
    }

    /// The items for the next proposal: what is waiting in the submission
    /// channel, up to [`PROPOSAL_BATCH_MAX`] items. Nothing is waited for,
    /// and what exceeds the batch stays in the channel.
    pub fn next_proposal(&self, submissions: &Receiver<ConsensusItem>) -> (batch: Vec<ConsensusItem>)
        ensures
            batch@.len() <= PROPOSAL_BATCH_MAX,
    {
        drain_submissions(submissions, PROPOSAL_BATCH_MAX)
    }
}

impl ConsensusEngine {
    /// Takes the next signed outcome from the broadcast layer, checks its
    /// signature, and says what is to be done with it; see
    /// [`spec_on_outcome`].
    pub fn on_outcome(&mut self, outcome: SignedEpochOutcome) -> (action: EngineAction)
        requires
            old(self).wf(),
        ensures
            final(self).wf(),
            old(self).signed() ==> final(self).signed(),
            final(self).epoch_pk() == old(self).epoch_pk(),
            final(self).modules() == old(self).modules(),
            (final(self)@, action@) == spec_on_outcome(
                old(self).epoch_pk(),
                old(self).modules(),
                old(self)@,
                outcome@,
            ),
    {
        let signature_ok = outcome.verify_sig(&self.epoch_pk).is_ok();
        self.on_checked_outcome(outcome, signature_ok)
    }

    /// Takes an outcome together with the verdict on its signature, and
    /// says what is to be done with it; see [`spec_on_checked_outcome`].
    ///
    /// The signatures of what the engine commits are only as good as the
    /// verdicts it is given: [`Self::on_outcome`] is the way to hand over an
    /// outcome whose signature was not checked yet.
    #[verifier::loop_isolation(false)]
    pub fn on_checked_outcome(&mut self, outcome: SignedEpochOutcome, signature_ok: bool) -> (action:
        EngineAction)
        requires
            old(self).wf(),
        ensures
            final(self).wf(),
            old(self).signed() && (signature_ok ==> outcome@.signed_by(old(self).epoch_pk()))
                ==> final(self).signed(),
            final(self).epoch_pk() == old(self).epoch_pk(),
            final(self).modules() == old(self).modules(),
            (final(self)@, action@) == spec_on_checked_outcome(
                old(self).modules(),
                old(self)@,
                outcome@,
                signature_ok,
            ),
    {
        match self.phase {
            Phase::Idle => {},
            _ => {
                return EngineAction::Ignore;
            },
        }
        let epoch = outcome.epoch;
        if !signature_ok {
            self.phase = Phase::Halted;
            proof {
                self.lemma_only_phase_changed(*old(self));
            }
            return EngineAction::Fatal(FatalError::InvalidSignature { epoch });
        }
        match self.highest_applied {
            Some(h) => {
                if epoch <= h {
                    return EngineAction::Skip { epoch };
                }
            },
            None => {},
        }
        let ghost items = outcome@.items;
        let mut proposers: Vec<PeerId> = Vec::new();
        let mut i: usize = 0;
        while i < outcome.items.len()
            invariant
                i <= outcome.items.len(),
                *self == *old(self),
                items == views_of(outcome.items@),
                proposers@ == proposers_of(items.subrange(0, i as int)),
                forall|k: int| 0 <= k < i ==> !unroutable_at(self.modules, items, k),
            decreases outcome.items.len() - i,
        {
            match outcome.items[i].1.module_id() {
                Some(id) => {
                    if !self.modules.contains(id) {
                        proof {
                            let w = first_unroutable(self.modules, items);
                            assert(unroutable_at(self.modules, items, i as int));
                            assert(w == i) by {
                                if w < i {
                                    assert(!unroutable_at(self.modules, items, w));
                                } else if i < w {
                                    assert(!unroutable_at(self.modules, items, i as int));
                                }
                            }
                        }
                        self.phase = Phase::Halted;
                        proof {
                            self.lemma_only_phase_changed(*old(self));
                        }
                        return EngineAction::Fatal(
                            FatalError::UnknownModule { epoch, module_instance_id: id },
                        );
                    }
                },
                None => {},
            }
            proposers.push(outcome.items[i].0);
            proof {
                assert(items.subrange(0, i + 1) =~= items.subrange(0, i as int).push(
                    items[i as int],
                ));
                assert(proposers@ =~= proposers_of(items.subrange(0, i + 1)));
            }
            i += 1;
        }
        proof {
            assert(items.subrange(0, i as int) =~= items);
        }
        self.pending_epoch = epoch;
        self.pending_proposers = proposers;
        self.pending = Ghost(Some(outcome@));
        self.phase = Phase::Applying;
        proof {
            assert(self.modules() == old(self).modules());
            assert(self@ == (EngineState {
                phase: Phase::Applying,
                pending: Some(outcome@),
                ..old(self)@
            }));
            assert(all_routable(self.modules(), outcome@.items));
            assert(state_wf(self.modules(), self@));
        }
        EngineAction::Apply { epoch, items: outcome.items }
    }

    /// Takes the news of how the commit of the pending outcome ended and
    /// says what is to be done next; see [`spec_on_commit`].
    #[verifier::loop_isolation(false)]
    pub fn on_commit(&mut self, committed: bool) -> (action: EngineAction)
        requires
            old(self).wf(),
        ensures
            final(self).wf(),
            old(self).signed() ==> final(self).signed(),
            final(self).epoch_pk() == old(self).epoch_pk(),
            final(self).modules() == old(self).modules(),
            (final(self)@, action@) == spec_on_commit(old(self)@, committed),
    {
        match self.phase {
            Phase::Applying => {},
            _ => {
                return EngineAction::Ignore;
            },
        }
        let epoch = self.pending_epoch;
        let ghost outcome = self.pending@->Some_0;
        if !committed {
            self.phase = Phase::Halted;
            self.pending = Ghost(None);
            proof {
                assert(self.modules() == old(self).modules());
                assert(self@ == (EngineState {
                    phase: Phase::Halted,
                    pending: None,
                    ..old(self)@
                }));
                assert(state_wf(self.modules(), self@));
            }
            return EngineAction::Fatal(FatalError::CommitFailed { epoch });
        }
        let ghost before = self.last_ci_by_peer@;
        let ghost proposers = self.pending_proposers@;
        let mut i: usize = 0;
        while i < self.pending_proposers.len()
            invariant
                i <= self.pending_proposers.len(),
                proposers == self.pending_proposers@,
                self.epoch_pk == old(self).epoch_pk,
                self.modules == old(self).modules,
                self.phase == old(self).phase,
                self.highest_applied == old(self).highest_applied,
                self.pending_epoch == old(self).pending_epoch,
                self.pending_proposers == old(self).pending_proposers,
                self.pending == old(self).pending,
                self.committed == old(self).committed,
                before.dom().finite(),
                self.last_ci_by_peer@ == record_proposers(
                    before,
                    proposers.subrange(0, i as int),
                    epoch,
                ),
            decreases self.pending_proposers.len() - i,
        {
            let peer = self.pending_proposers[i];
            self.last_ci_by_peer.insert(peer, epoch);
            proof {
                let upto = proposers.subrange(0, i as int);
                let next = proposers.subrange(0, i + 1);
                assert(next =~= upto.push(peer));
                assert forall|p: PeerId| next.contains(p) == (upto.contains(p) || p == peer) by {
                    if upto.contains(p) {
                        let k = choose|k: int| 0 <= k < upto.len() && upto[k] == p;
                        assert(next[k] == p);
                    }
                    if p == peer {
                        assert(next[i as int] == p);
                    }
                }
                assert(self.last_ci_by_peer@ =~= record_proposers(before, next, epoch));
            }
            i += 1;
        }
        proof {
            assert(proposers.subrange(0, i as int) =~= proposers);
        }
        self.highest_applied = Some(epoch);
        self.pending = Ghost(None);
        self.committed = Ghost(self.committed@.push(outcome));
        self.phase = Phase::Idle;
        proof {
            let pre = old(self)@;
            let post = self@;
            assert(self.modules() == old(self).modules());
            assert(post == spec_on_commit(pre, true).0);
            assert forall|i: int| 0 <= i < post.committed.len() implies already_applied(
                post.highest_applied,
                (#[trigger] post.committed[i]).epoch,
            ) && all_routable(self.modules(), post.committed[i].items) && post.committed[i].signed_by(
                self.epoch_pk(),
            ) == (if i < pre.committed.len() {
                pre.committed[i].signed_by(self.epoch_pk())
            } else {
                outcome.signed_by(self.epoch_pk())
            }) by {
                if i < pre.committed.len() {
                    assert(post.committed[i] == pre.committed[i]);
                }
            }
            assert forall|i: int, j: int| 0 <= i < j < post.committed.len() implies post.committed[i].epoch
                < post.committed[j].epoch by {
                assert(post.committed[i] == pre.committed[i]);
                if j < pre.committed.len() {
                    assert(post.committed[j] == pre.committed[j]);
                }
            }
            assert(state_wf(self.modules(), post));
        }
        EngineAction::Notify { epoch }
    }

    /// Takes the request for shutdown; see [`spec_on_shutdown`].
    pub fn on_shutdown(&mut self) -> (action: EngineAction)
        requires
            old(self).wf(),
        ensures
            final(self).wf(),
            old(self).signed() ==> final(self).signed(),
            final(self).epoch_pk() == old(self).epoch_pk(),
            final(self).modules() == old(self).modules(),
            (final(self)@, action@) == spec_on_shutdown(old(self)@),
    {
        match self.phase {
            Phase::Applying => EngineAction::Ignore,
            Phase::Idle => {
                self.phase = Phase::Stopped;
                proof {
                    self.lemma_only_phase_changed(*old(self));
                }
                EngineAction::Exit
            },
            _ => EngineAction::Exit,
        }
    }
}

/// Something that happens to the engine.
pub enum EngineEvent {
    /// The broadcast layer handed out this outcome.
    Outcome(SignedEpochOutcomeView),
    /// The commit of the pending outcome ended; `true` where it went through.
    Commit(bool),
    /// Shutdown was asked for.
    Shutdown,
}

/// The engine's answer to `event`, and its state after it.
pub open spec fn spec_step(
    epoch_pk: Seq<u8>,
    modules: ModuleRegistry,
    s: EngineState,
    event: EngineEvent,
) -> (EngineState, EngineActionView) {
    match event {
        EngineEvent::Outcome(outcome) => spec_on_outcome(epoch_pk, modules, s, outcome),
        EngineEvent::Commit(committed) => spec_on_commit(s, committed),
        EngineEvent::Shutdown => spec_on_shutdown(s),
    }
}

/// The engine's state after `events` happened to it, one after the other.
pub open spec fn spec_run(
    epoch_pk: Seq<u8>,
    modules: ModuleRegistry,
    s: EngineState,
    events: Seq<EngineEvent>,
) -> EngineState
    decreases events.len(),
{
    if events.len() == 0 {
        s
    } else {
        spec_step(epoch_pk, modules, spec_run(epoch_pk, modules, s, events.drop_last()), events.last()).0
    }
}

/// Whatever happens, the engine's invariant holds afterwards.
pub proof fn lemma_step_keeps_invariant(
    epoch_pk: Seq<u8>,
    modules: ModuleRegistry,
    s: EngineState,
    event: EngineEvent,
)
    requires
        state_wf(modules, s),
    ensures
        state_wf(modules, spec_step(epoch_pk, modules, s, event).0),
{
    let post = spec_step(epoch_pk, modules, s, event).0;
    match event {
        EngineEvent::Commit(true) => {
            if s.phase == Phase::Applying {
                let outcome = s.pending->Some_0;
                assert forall|i: int| 0 <= i < post.committed.len() implies already_applied(
                    post.highest_applied,
                    (#[trigger] post.committed[i]).epoch,
                ) && all_routable(modules, post.committed[i].items) by {
                    if i < s.committed.len() {
                        assert(post.committed[i] == s.committed[i]);
                    }
                }
                assert forall|i: int, j: int| 0 <= i < j < post.committed.len() implies post.committed[i].epoch
                    < post.committed[j].epoch by {
                    assert(post.committed[i] == s.committed[i]);
                    if j < s.committed.len() {
                        assert(post.committed[j] == s.committed[j]);
                    }
                }
                assert(post.last_ci_by_peer.dom() =~= s.last_ci_by_peer.dom().union(
                    proposers_of(outcome.items).to_set(),
                ));
                vstd::seq_lib::seq_to_set_is_finite(proposers_of(outcome.items));
            }
        },
        _ => {},
    }
}

/// Every committed epoch was signed: an outcome reaches the log of
/// committed outcomes only with a threshold signature that verifies against
/// the epoch public key, whatever happens to the engine.
pub proof fn lemma_committed_epochs_are_signed(
    epoch_pk: Seq<u8>,
    modules: ModuleRegistry,
    s: EngineState,
    event: EngineEvent,
)
    requires
        history_signed(epoch_pk, s),
    ensures
        history_signed(epoch_pk, spec_step(epoch_pk, modules, s, event).0),
{
    let post = spec_step(epoch_pk, modules, s, event).0;
    assert forall|i: int| 0 <= i < post.committed.len() implies (#[trigger] post.committed[i]).signed_by(
        epoch_pk,
    ) by {
        if i < s.committed.len() {
            assert(post.committed[i] == s.committed[i]);
        }
    }
}

/// No peer's last consensus epoch ever decreases, and no peer is ever
/// forgotten, whatever happens to the engine.
pub proof fn lemma_last_consensus_never_decreases(
    epoch_pk: Seq<u8>,
    modules: ModuleRegistry,
    s: EngineState,
    event: EngineEvent,
    peer: PeerId,
)
    requires
        state_wf(modules, s),
        s.last_ci_by_peer.contains_key(peer),
    ensures
        spec_step(epoch_pk, modules, s, event).0.last_ci_by_peer.contains_key(peer),
        s.last_ci_by_peer[peer] <= spec_step(epoch_pk, modules, s, event).0.last_ci_by_peer[peer],
{
}

/// Every item that the engine hands out to be applied, and every item of
/// every committed outcome, names a registered module instance if it names
/// one at all.
pub proof fn lemma_applied_items_are_routable(
    epoch_pk: Seq<u8>,
    modules: ModuleRegistry,
    s: EngineState,
    event: EngineEvent,
)
    requires
        state_wf(modules, s),
    ensures
        spec_step(epoch_pk, modules, s, event).1 matches EngineActionView::Apply { items, .. }
            ==> all_routable(modules, items),
        forall|i: int|
            0 <= i < spec_step(epoch_pk, modules, s, event).0.committed.len() ==> all_routable(
                modules,
                (#[trigger] spec_step(epoch_pk, modules, s, event).0.committed[i]).items,
            ),
{
    lemma_step_keeps_invariant(epoch_pk, modules, s, event);
}

/// Applying an outcome a second time changes nothing: once an outcome was
/// handed out to be applied and its commit went through, the same outcome is
/// skipped, and the engine's state stays as it is.
pub proof fn lemma_replay_is_noop(
    epoch_pk: Seq<u8>,
    modules: ModuleRegistry,
    s: EngineState,
    outcome: SignedEpochOutcomeView,
)
    requires
        state_wf(modules, s),
        spec_on_outcome(epoch_pk, modules, s, outcome).1 is Apply,
    ensures
        ({
            let applying = spec_on_outcome(epoch_pk, modules, s, outcome).0;
            let done = spec_on_commit(applying, true).0;
            spec_on_outcome(epoch_pk, modules, done, outcome) == (
                done,
                EngineActionView::Skip { epoch: outcome.epoch },
            )
        }),
{
}

/// An outcome at or below the high-water mark never changes the state.
pub proof fn lemma_old_outcome_is_noop(
    epoch_pk: Seq<u8>,
    modules: ModuleRegistry,
    s: EngineState,
    outcome: SignedEpochOutcomeView,
)
    requires
        s.phase == Phase::Idle,
        outcome.signed_by(epoch_pk),
        already_applied(s.highest_applied, outcome.epoch),
    ensures
        spec_on_outcome(epoch_pk, modules, s, outcome) == (
            s,
            EngineActionView::Skip { epoch: outcome.epoch },
        ),
{
}

/// The laws of a single step hold along every run: from a state in which
/// the invariant holds and all history is signed, any sequence of events
/// leads to such a state again, and no peer's last consensus epoch is lower
/// at the end than at the start.
pub proof fn lemma_run_keeps_laws(
    epoch_pk: Seq<u8>,
    modules: ModuleRegistry,
    s: EngineState,
    events: Seq<EngineEvent>,
)
    requires
        state_wf(modules, s),
        history_signed(epoch_pk, s),
    ensures
        state_wf(modules, spec_run(epoch_pk, modules, s, events)),
        history_signed(epoch_pk, spec_run(epoch_pk, modules, s, events)),
        forall|peer: PeerId| #[trigger]
            s.last_ci_by_peer.contains_key(peer) ==> {
                &&& spec_run(epoch_pk, modules, s, events).last_ci_by_peer.contains_key(peer)
                &&& s.last_ci_by_peer[peer] <= spec_run(
                    epoch_pk,
                    modules,
                    s,
                    events,
                ).last_ci_by_peer[peer]
            },
    decreases events.len(),
{
    if events.len() > 0 {
        let before = spec_run(epoch_pk, modules, s, events.drop_last());
        lemma_run_keeps_laws(epoch_pk, modules, s, events.drop_last());
        lemma_step_keeps_invariant(epoch_pk, modules, before, events.last());
        lemma_committed_epochs_are_signed(epoch_pk, modules, before, events.last());
        assert forall|peer: PeerId| #[trigger] s.last_ci_by_peer.contains_key(peer) implies {
            &&& spec_run(epoch_pk, modules, s, events).last_ci_by_peer.contains_key(peer)
            &&& s.last_ci_by_peer[peer] <= spec_run(
                epoch_pk,
                modules,
                s,
                events,
            ).last_ci_by_peer[peer]
        } by {
            lemma_last_consensus_never_decreases(epoch_pk, modules, before, events.last(), peer);
        }
    }
}

} // verus!
