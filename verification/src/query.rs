//! Query strategies: how a client folds the answers of many peers into one.
//!
//! A strategy is fed one answer at a time, each with the peer it came from,
//! and says after each what the client is to do next. Some peers may lie, so
//! a strategy believes a value only once enough peers stand behind it.

use vstd::prelude::*;
use vstd::std_specs::cmp::PartialEqSpec;
use std::collections::BTreeMap;
use std::collections::BTreeSet;
use std::collections::HashSet;
use crate::api::ErrorObject;
use crate::epoch::SignedEpochOutcome;
use crate::types::PeerId;

verus! {

broadcast use {
    vstd::std_specs::btree::group_btree_axioms,
    vstd::std_specs::hash::group_hash_axioms,
};

/// Error code by which a peer says that it does not have what was asked for.
pub const CODE_NOT_FOUND: i32 = 404;

/// Why a peer gave no usable answer.
#[derive(Debug, Clone, PartialEq, Eq)]
pub enum PeerError {
    /// The peer answered the call with an error object.
    Rpc(ErrorObject),
    /// There was no answer to read: the connection failed, timed out, or
    /// what came back could not be understood.
    Transport(String),
}

impl PeerError {
    /// Whether the peer said that it does not have what was asked for.
    pub open spec fn spec_is_not_found(&self) -> bool {
        self matches PeerError::Rpc(e) && e.code == CODE_NOT_FOUND
    }

    /// Whether the peer said that it does not have what was asked for.
    #[verifier::when_used_as_spec(spec_is_not_found)]
    pub fn is_not_found(&self) -> (yes: bool)
        ensures
            yes == self.spec_is_not_found(),
    {
        match self {
            PeerError::Rpc(e) => e.code == CODE_NOT_FOUND,
            _ => false,
        }
    }
}

/// What a strategy tells the client after an answer.
#[derive(Debug, PartialEq, Eq)]
pub enum QueryStep<R> {
    /// Ask these peers again.
    RetryMembers(BTreeSet<PeerId>),
    /// Count these peers as failed, each with its error.
    FailMembers(BTreeMap<PeerId, PeerError>),
    /// Nothing is decided yet; wait for more answers.
    Continue,
    /// The query is answered.
    Success(R),
    /// The query has failed; these are the errors of the peers that erred.
    Failure(BTreeMap<PeerId, PeerError>),
}

impl<R> QueryStep<R> {
    /// Whether the step ends the query.
    pub open spec fn spec_is_terminal(&self) -> bool {
        self is Success || self is Failure
    }

    /// Whether the step ends the query.
    #[verifier::when_used_as_spec(spec_is_terminal)]
    pub fn is_terminal(&self) -> (yes: bool)
        ensures
            yes == self.spec_is_terminal(),
    {
        match self {
            QueryStep::Success(_) => true,
            QueryStep::Failure(_) => true,
            _ => false,
        }
    }
}

/// A way of folding peers' answers of type `IR` into one answer of type `OR`.
///
/// A strategy ends once: after it has answered with a success or a failure
/// it is finished, and a finished strategy answers with neither again.
pub trait QueryStrategy<IR, OR = IR> {
    /// Whether the strategy has answered with a success or a failure.
    spec fn finished(&self) -> bool;

    /// Whether `step` is what the strategy in the state `pre` answers to
    /// `response` of `peer_id`, and `post` the state it is in afterwards.
    spec fn answers(
        pre: &Self,
        peer_id: PeerId,
        response: Result<IR, PeerError>,
        post: &Self,
        step: QueryStep<OR>,
    ) -> bool;

    /// Takes the answer `response` of the peer `peer_id` and says what the
    /// client is to do next.
    fn process(&mut self, peer_id: PeerId, response: Result<IR, PeerError>) -> (step: QueryStep<OR>)
        ensures
            Self::answers(old(self), peer_id, response, final(self), step),
            old(self).finished() ==> final(self).finished() && !step.is_terminal(),
            !old(self).finished() ==> (final(self).finished() <==> step.is_terminal()),
    ;

    /// Every answer ends the strategy at most once: a finished strategy
    /// stays finished and answers with no success and no failure, and one
    /// that is not finished is finished afterwards exactly if its answer is
    /// a success or a failure.
    proof fn lemma_ends_once(
        pre: &Self,
        peer_id: PeerId,
        response: Result<IR, PeerError>,
        post: &Self,
        step: QueryStep<OR>,
    )
        requires
            Self::answers(pre, peer_id, response, post, step),
        ensures
            pre.finished() ==> post.finished() && !step.is_terminal(),
            !pre.finished() ==> (post.finished() <==> step.is_terminal()),
    ;
}

/// Believes the first peer that answers.
pub struct TrustAllPeers {
    finished: bool,
}

impl TrustAllPeers {
    /// Whether the strategy has handed out its result.
    pub closed spec fn has_answered(&self) -> bool {
        self.finished
    }

    /// A strategy that has heard nothing yet.
    pub fn new() -> (strategy: Self)
        ensures
            !strategy.has_answered(),
    {
        TrustAllPeers { finished: false }
    }
}

impl<R> QueryStrategy<R> for TrustAllPeers {
    open spec fn finished(&self) -> bool {
        self.has_answered()
    }

    /// The first answer is the result; an error fails only the peer it came
    /// from. After the result, every answer is passed over.
    open spec fn answers(
        pre: &Self,
        peer: PeerId,
        result: Result<R, PeerError>,
        post: &Self,
        step: QueryStep<R>,
    ) -> bool {
        if pre.has_answered() {
            post.has_answered() && step is Continue
        } else {
            match result {
                Ok(o) => post.has_answered() && step == QueryStep::Success(o),
                Err(e) => {
                    &&& !post.has_answered()
                    &&& step matches QueryStep::FailMembers(failed)
                    &&& failed@ == Map::<PeerId, PeerError>::empty().insert(peer, e)
                },
            }
        }
    }

    fn process(&mut self, peer: PeerId, result: Result<R, PeerError>) -> (step: QueryStep<R>) {
        if self.finished {
            return QueryStep::Continue;
        }
        match result {
            Ok(o) => {
                self.finished = true;
                QueryStep::Success(o)
            },
            Err(e) => {
                let mut failed: BTreeMap<PeerId, PeerError> = BTreeMap::new();
                failed.insert(peer, e);
                QueryStep::FailMembers(failed)
            },
        }
    }

    proof fn lemma_ends_once(
        pre: &Self,
        peer: PeerId,
        result: Result<R, PeerError>,
        post: &Self,
        step: QueryStep<R>,
    ) {
    }
}

/// What a [`CurrentConsensus`] has gathered so far.
pub struct Tally<R> {
    /// The distinct values that were answered, in the order in which each
    /// first came, each with the peers that answered it.
    pub results: Seq<(R, Set<PeerId>)>,
    /// The peers that erred, each with its latest error.
    pub errors: Map<PeerId, PeerError>,
    /// How many peers have to stand behind a value, or to err.
    pub required: nat,
    /// Whether the query was answered with a success or a failure.
    pub finished: bool,
}

/// Position of the first value from `start` on that equals `value`.
pub open spec fn find_value<R: PartialEq>(results: Seq<(R, Set<PeerId>)>, value: R, start: int) -> Option<int>
    decreases results.len() - start,
{
    if start < 0 || start >= results.len() {
        None
    } else if results[start].0.eq_spec(&value) {
        Some(start)
    } else {
        find_value(results, value, start + 1)
    }
}

/// Position of the first value from `start` on that at least `required`
/// peers stand behind.
pub open spec fn find_agreed<R>(results: Seq<(R, Set<PeerId>)>, required: nat, start: int) -> Option<int>
    decreases results.len() - start,
{
    if start < 0 || start >= results.len() {
        None
    } else if results[start].1.len() >= required {
        Some(start)
    } else {
        find_agreed(results, required, start + 1)
    }
}

/// The tally after the answer `response` of `peer` is taken down: a value
/// that was answered before gains `peer` as a supporter, a new value is
/// appended with `peer` as its only supporter, an error replaces the peer's
/// earlier error.
pub open spec fn tally_record<R: PartialEq>(tally: Tally<R>, peer: PeerId, response: Result<R, PeerError>) -> Tally<R> {
    match response {
        Ok(value) => match find_value(tally.results, value, 0) {
            Some(i) => Tally {
                results: tally.results.update(
                    i,
                    (tally.results[i].0, tally.results[i].1.insert(peer)),
                ),
                ..tally
            },
            None => Tally {
                results: tally.results.push((value, Set::<PeerId>::empty().insert(peer))),
                ..tally
            },
        },
        Err(e) => Tally { errors: tally.errors.insert(peer, e), ..tally },
    }
}

/// Whether `step` and `post` are what a [`CurrentConsensus`] with the tally
/// `pre` answers to `response` of `peer`, and what its tally is afterwards.
///
/// A finished query passes the answer over: the tally stays as it is, and
/// the query goes on without a result. Else the answer is taken down. Then
/// the first value that enough peers stand behind is the result, handed out
/// as a clone, and the query is finished. If there is none, and enough peers
/// have erred, the query fails with all errors gathered, which leave the
/// tally, and is finished. Otherwise the query goes on.
pub open spec fn consensus_step<R: PartialEq + Clone>(
    pre: Tally<R>,
    peer: PeerId,
    response: Result<R, PeerError>,
    post: Tally<R>,
    step: QueryStep<R>,
) -> bool {
    if pre.finished {
        post == pre && step is Continue
    } else {
        let recorded = tally_record(pre, peer, response);
        match find_agreed(recorded.results, recorded.required, 0) {
            Some(i) => {
                &&& post == (Tally { finished: true, ..recorded })
                &&& step matches QueryStep::Success(value)
                &&& cloned(recorded.results[i].0, value)
            },
            None => if recorded.errors.len() >= recorded.required {
                &&& post == (Tally {
                    errors: Map::<PeerId, PeerError>::empty(),
                    finished: true,
                    ..recorded
                })
                &&& step matches QueryStep::Failure(errors)
                &&& errors@ == recorded.errors
            } else {
                &&& post == recorded
                &&& step is Continue
            },
        }
    }
}

/// Whether each value of `results` has finitely many supporters.
pub open spec fn supporters_finite<R>(results: Seq<(R, Set<PeerId>)>) -> bool {
    forall|i: int| 0 <= i < results.len() ==> (#[trigger] results[i]).1.finite()
}

/// What holds of a tally before and after an answer whatever the values
/// are: the number of peers asked for stays; supporters stay finitely many;
/// a finished tally stays as it is and gives no result; one that is not
/// finished is finished afterwards exactly if the answer ends the query.
pub open spec fn tally_ends_once<R, OR>(pre: Tally<R>, post: Tally<R>, step: QueryStep<OR>) -> bool {
    &&& post.required == pre.required
    &&& supporters_finite(pre.results) ==> supporters_finite(post.results)
    &&& pre.finished ==> post == pre && step is Continue
    &&& !pre.finished ==> (post.finished <==> step.is_terminal())
}

/// Waits until `required` peers have answered the same value, or have erred.
pub struct CurrentConsensus<R> {
    /// The values answered so far, each with the peers that answered it.
    ///
    /// Few different values are expected, so they are kept in a list and
    /// searched one by one; values need only be comparable for equality.
    pub existing_results: Vec<(R, HashSet<PeerId>)>,
    /// The peers that erred, each with its latest error.
    pub errors: BTreeMap<PeerId, PeerError>,
    /// How many peers have to stand behind a value, or to err.
    pub required: usize,
    /// Whether the query was answered with a success or a failure.
    pub finished: bool,
}

/// The values of `results` with the supporters of each as a set.
pub open spec fn results_view<R>(results: Seq<(R, HashSet<PeerId>)>) -> Seq<(R, Set<PeerId>)> {
    results.map_values(|e: (R, HashSet<PeerId>)| (e.0, e.1@))
}

impl<R> CurrentConsensus<R> {
    /// A strategy that has heard nothing yet.
    pub fn new(required: usize) -> (strategy: Self)
        ensures
            strategy@ == (Tally {
                results: Seq::<(R, Set<PeerId>)>::empty(),
                errors: Map::<PeerId, PeerError>::empty(),
                required: required as nat,
                finished: false,
            }),
    {
        let strategy = CurrentConsensus {
            existing_results: Vec::new(),
            errors: BTreeMap::new(),
            required,
            finished: false,
        };
        assert(strategy@.results =~= Seq::<(R, Set<PeerId>)>::empty());
        strategy
    }
}

impl<R> View for CurrentConsensus<R> {
    type V = Tally<R>;

    open spec fn view(&self) -> Tally<R> {
        Tally {
            results: results_view(self.existing_results@),
            errors: self.errors@,
            required: self.required as nat,
            finished: self.finished,
        }
    }
}

impl<R: PartialEq + Clone> CurrentConsensus<R> {
    /// Takes the answer down in the tally; see [`tally_record`].
    fn record(&mut self, peer: PeerId, result: Result<R, PeerError>)
        ensures
            R::obeys_eq_spec() ==> final(self)@ == tally_record(old(self)@, peer, result),
            supporters_finite(old(self)@.results) ==> supporters_finite(final(self)@.results),
            final(self).required == old(self).required,
            final(self).finished == old(self).finished,
    {
        match result {
            Ok(value) => {
                let ghost results = self@.results;
                let mut i: usize = 0;
                while i < self.existing_results.len() && !(self.existing_results[i].0 == value)
                    invariant
                        i <= self.existing_results.len(),
                        *self == *old(self),
                        results == self@.results,
                        R::obeys_eq_spec() ==> find_value(results, value, 0) == find_value(
                            results,
                            value,
                            i as int,
                        ),
                    decreases self.existing_results.len() - i,
                {
                    i += 1;
                }
                if i < self.existing_results.len() {
                    let entry = &mut self.existing_results[i];
                    if !entry.1.contains(&peer) {
                        entry.1.insert(peer);
                    }
                    proof {
                        let expected = results.update(
                            i as int,
                            (results[i as int].0, results[i as int].1.insert(peer)),
                        );
                        assert(results[i as int].1.contains(peer) ==> results[i as int].1.insert(
                            peer,
                        ) =~= results[i as int].1);
                        assert(self@.results =~= expected);
                        if supporters_finite(results) {
                            assert(results[i as int].1.finite());
                            assert forall|k: int| 0 <= k < expected.len() implies (
                            #[trigger] expected[k]).1.finite() by {
                                if k != i {
                                    assert(expected[k] == results[k]);
                                }
                            }
                        }
                    }
                } else {
                    let mut peers: HashSet<PeerId> = HashSet::new();
                    peers.insert(peer);
                    self.existing_results.push((value, peers));
                    proof {
                        let grown = results.push((value, Set::<PeerId>::empty().insert(peer)));
                        assert(self@.results =~= grown);
                        if supporters_finite(results) {
                            assert forall|k: int| 0 <= k < grown.len() implies (
                            #[trigger] grown[k]).1.finite() by {
                                if k < results.len() {
                                    assert(grown[k] == results[k]);
                                }
                            }
                        }
                    }
                }
            },
            Err(error) => {
                self.errors.insert(peer, error);
                assert(self@.results =~= old(self)@.results);
            },
        }
    }
}

impl<R: PartialEq + Clone> QueryStrategy<R> for CurrentConsensus<R> {
    open spec fn finished(&self) -> bool {
        self.finished
    }

    /// The strategy ends once, and the answer is handled as
    /// [`consensus_step`] says, for every type of values whose `==` is what
    /// its specification says.
    open spec fn answers(
        pre: &Self,
        peer: PeerId,
        result: Result<R, PeerError>,
        post: &Self,
        step: QueryStep<R>,
    ) -> bool {
        &&& tally_ends_once(pre@, post@, step)
        &&& R::obeys_eq_spec() ==> consensus_step(pre@, peer, result, post@, step)
    }

    fn process(&mut self, peer: PeerId, result: Result<R, PeerError>) -> (step: QueryStep<R>) {
        if self.finished {
            return QueryStep::Continue;
        }
        self.record(peer, result);
        let ghost recorded = self@;
        let mut i: usize = 0;
        while i < self.existing_results.len()
            invariant
                i <= self.existing_results.len(),
                self@ == recorded,
                supporters_finite(old(self)@.results) ==> supporters_finite(recorded.results),
                !old(self).finished,
                !self.finished,
                self.required == old(self).required,
                R::obeys_eq_spec() ==> recorded == tally_record(old(self)@, peer, result),
                find_agreed(recorded.results, recorded.required, 0) == find_agreed(
                    recorded.results,
                    recorded.required,
                    i as int,
                ),
            decreases self.existing_results.len() - i,
        {
            if self.existing_results[i].1.len() >= self.required {
                self.finished = true;
                assert(self@.results =~= recorded.results);
                return QueryStep::Success(self.existing_results[i].0.clone());
            }
            i += 1;
        }
        if self.errors.len() >= self.required {
            let mut errors: BTreeMap<PeerId, PeerError> = BTreeMap::new();
            std::mem::swap(&mut errors, &mut self.errors);
            self.finished = true;
            assert(self@.results =~= recorded.results);
            return QueryStep::Failure(errors);
        }
        QueryStep::Continue
    }

    proof fn lemma_ends_once(
        pre: &Self,
        peer: PeerId,
        result: Result<R, PeerError>,
        post: &Self,
        step: QueryStep<R>,
    ) {
    }
}

/// A repeated answer changes nothing: where `peer` already stands behind the
/// value it answers, taking the answer down leaves the tally as it was.
pub proof fn lemma_duplicate_answer_is_ignored<R: PartialEq>(tally: Tally<R>, peer: PeerId, value: R)
    requires
        find_value(tally.results, value, 0) matches Some(i) && tally.results[i].1.contains(peer),
    ensures
        tally_record(tally, peer, Ok(value)) == tally,
{
    let i = find_value(tally.results, value, 0)->Some_0;
    lemma_find_value_in_range(tally.results, value, 0);
    assert(tally.results[i].1.insert(peer) =~= tally.results[i].1);
    assert(tally.results.update(i, (tally.results[i].0, tally.results[i].1)) =~= tally.results);
}

/// What `find_value` finds lies at or after `start`, within the list.
pub proof fn lemma_find_value_in_range<R: PartialEq>(results: Seq<(R, Set<PeerId>)>, value: R, start: int)
    ensures
        find_value(results, value, start) matches Some(i) ==> start <= i < results.len()
            && results[i].0.eq_spec(&value),
    decreases results.len() - start,
{
    if 0 <= start < results.len() && !results[start].0.eq_spec(&value) {
        lemma_find_value_in_range(results, value, start + 1);
    }
}

/// Believes the first epoch outcome whose threshold signature verifies;
/// failing that, waits until `required` peers agree.
pub struct ValidHistory {
    epoch_pk: [u8; 48],
    current: CurrentConsensus<SignedEpochOutcome>,
}

impl ValidHistory {
    /// The key that signatures are checked against.
    pub closed spec fn epoch_pk(&self) -> Seq<u8> {
        self.epoch_pk@
    }

    /// What the peers answered so far that did not verify, and whether the
    /// query is finished.
    pub closed spec fn tally(&self) -> Tally<SignedEpochOutcome> {
        self.current@
    }

    pub fn new(epoch_pk: [u8; 48], required: usize) -> (strategy: Self)
        ensures
            strategy.epoch_pk() == epoch_pk@,
            strategy.tally() == (Tally {
                results: Seq::<(SignedEpochOutcome, Set<PeerId>)>::empty(),
                errors: Map::<PeerId, PeerError>::empty(),
                required: required as nat,
                finished: false,
            }),
    {
        ValidHistory { epoch_pk, current: CurrentConsensus::new(required) }
    }
}

/// Whether `step` and `post` are what a [`ValidHistory`] with the tally
/// `pre` answers to `response` of `peer`, `signature_ok` being the verdict on
/// the signature of the outcome that was answered, if one was.
///
/// A finished query passes the answer over. Else one outcome with a valid
/// signature is worth as much as `required` peers that agree: it is the
/// result at once, the query is finished, and the tally stays as it is
/// otherwise. Any other answer is handled as [`CurrentConsensus`] handles
/// it.
pub open spec fn history_step(
    pre: Tally<SignedEpochOutcome>,
    peer: PeerId,
    response: Result<SignedEpochOutcome, PeerError>,
    signature_ok: bool,
    post: Tally<SignedEpochOutcome>,
    step: QueryStep<SignedEpochOutcome>,
) -> bool {
    if !pre.finished && response is Ok && signature_ok {
        &&& step == QueryStep::Success(response->Ok_0)
        &&& post == (Tally { finished: true, ..pre })
    } else {
        consensus_step(pre, peer, response, post, step)
    }
}

impl ValidHistory {
    /// Takes an answer together with the verdict on the signature of the
    /// outcome that was answered; see [`history_step`]. The verdict counts
    /// for nothing where the answer is an error.
    pub fn process_checked(
        &mut self,
        peer: PeerId,
        result: Result<SignedEpochOutcome, PeerError>,
        signature_ok: bool,
    ) -> (step: QueryStep<SignedEpochOutcome>)
        ensures
            final(self).epoch_pk() == old(self).epoch_pk(),
            history_step(old(self).tally(), peer, result, signature_ok, final(self).tally(), step),
    {
        if self.current.finished {
            return QueryStep::Continue;
        }
        match result {
            Ok(epoch) => {
                if signature_ok {
                    self.current.finished = true;
                    assert(self.current@.results =~= old(self).current@.results);
                    QueryStep::Success(epoch)
                } else {
                    self.current.process(peer, Ok(epoch))
                }
            },
            Err(e) => self.current.process(peer, Err(e)),
        }
    }
}

impl QueryStrategy<SignedEpochOutcome> for ValidHistory {
    closed spec fn finished(&self) -> bool {
        self.current.finished
    }

    /// The signature of an outcome that was answered is checked against the
    /// epoch public key, and the answer handled as [`history_step`] says.
    open spec fn answers(
        pre: &Self,
        peer: PeerId,
        result: Result<SignedEpochOutcome, PeerError>,
        post: &Self,
        step: QueryStep<SignedEpochOutcome>,
    ) -> bool {
        &&& post.epoch_pk() == pre.epoch_pk()
        &&& pre.finished() == pre.tally().finished
        &&& post.finished() == post.tally().finished
        &&& history_step(
            pre.tally(),
            peer,
            result,
            result matches Ok(epoch) && epoch@.signed_by(pre.epoch_pk()),
            post.tally(),
            step,
        )
    }

    fn process(&mut self, peer: PeerId, result: Result<SignedEpochOutcome, PeerError>) -> (step:
        QueryStep<SignedEpochOutcome>) {
        let signature_ok = match &result {
            Ok(epoch) => epoch.verify_sig(&self.epoch_pk).is_ok(),
            Err(_) => false,
        };
        self.process_checked(peer, result, signature_ok)
    }

    proof fn lemma_ends_once(
        pre: &Self,
        peer: PeerId,
        result: Result<SignedEpochOutcome, PeerError>,
        post: &Self,
        step: QueryStep<SignedEpochOutcome>,
    ) {
    }
}

/// Whether one of `values` equals `value`.
pub open spec fn has_equal<R: PartialEq>(values: Seq<R>, value: R) -> bool {
    exists|i: int| 0 <= i < values.len() && #[trigger] values[i].eq_spec(&value)
}

/// `values` with `value` appended, unless one of them equals it.
pub open spec fn union_one<R: PartialEq>(values: Seq<R>, value: R) -> Seq<R> {
    if has_equal(values, value) {
        values
    } else {
        values.push(value)
    }
}

/// `values` with each of `new` appended in turn, unless a value that is
/// there by then equals it.
pub open spec fn union_add<R: PartialEq>(values: Seq<R>, new: Seq<R>) -> Seq<R>
    decreases new.len(),
{
    if new.len() == 0 {
        values
    } else {
        union_one(union_add(values, new.drop_last()), new.last())
    }
}

/// What a union strategy has gathered so far.
pub struct UnionTally<R> {
    /// The peers that answered.
    pub responses: Set<PeerId>,
    /// The distinct values answered so far, in the order in which each first came.
    pub results: Seq<R>,
    /// The errors, as a [`CurrentConsensus`] gathers them, and whether the
    /// query is finished.
    pub errors: Tally<Vec<R>>,
    /// How many peers have to answer, or to err.
    pub required: nat,
}

/// Whether `step` and `post` are what a union strategy that is not finished
/// answers, with the tally `pre`, once `results` are the values gathered and
/// `peer` has answered: with enough peers the values are the result and the
/// query is finished, else the query goes on.
pub open spec fn union_answered<R>(pre: UnionTally<R>, peer: PeerId, results: Seq<R>, post: UnionTally<R>, step: QueryStep<Vec<R>>) -> bool {
    let responses = pre.responses.insert(peer);
    if responses.len() >= pre.required {
        &&& post == (UnionTally {
            responses,
            results: Seq::<R>::empty(),
            errors: Tally { finished: true, ..pre.errors },
            ..pre
        })
        &&& step matches QueryStep::Success(union)
        &&& union@ == results
    } else {
        &&& post == (UnionTally { responses, results, ..pre })
        &&& step is Continue
    }
}

/// Whether `step` and `post` are what a union strategy with the tally `pre`
/// answers to the error `e` of `peer`: what a [`CurrentConsensus`] answers.
pub open spec fn union_erred<R: PartialEq + Clone>(pre: UnionTally<R>, peer: PeerId, e: PeerError, post: UnionTally<R>, step: QueryStep<Vec<R>>) -> bool {
    &&& post == (UnionTally { errors: post.errors, ..pre })
    &&& consensus_step(pre.errors, peer, Err(e), post.errors, step)
}

/// Whether `step` and `post` are what a union strategy with the tally `pre`
/// answers to `response` of `peer`, where `gathered` are the values that
/// stand after an answer with values: a finished query passes the answer
/// over; values are handled as [`union_answered`] says, an error as
/// [`union_erred`] says.
pub open spec fn union_step<R: PartialEq + Clone, IR>(
    pre: UnionTally<R>,
    peer: PeerId,
    response: Result<IR, PeerError>,
    gathered: Seq<R>,
    post: UnionTally<R>,
    step: QueryStep<Vec<R>>,
) -> bool {
    if pre.errors.finished {
        post == pre && step is Continue
    } else {
        match response {
            Ok(_) => union_answered(pre, peer, gathered, post, step),
            Err(e) => union_erred(pre, peer, e, post, step),
        }
    }
}

/// What holds of a union strategy before and after an answer whatever the
/// values are: a finished one stays as it is and gives no result; one that
/// is not finished is finished afterwards exactly if the answer ends the
/// query.
pub open spec fn union_ends_once<R>(pre: UnionTally<R>, post: UnionTally<R>, step: QueryStep<Vec<R>>) -> bool {
    &&& pre.errors.finished ==> post == pre && step is Continue
    &&& !pre.errors.finished ==> (post.errors.finished <==> step.is_terminal())
}

fn contains_equal<R: PartialEq>(values: &Vec<R>, value: &R) -> (found: bool)
    ensures
        R::obeys_eq_spec() ==> found == has_equal(values@, *value),
{
    let mut i: usize = 0;
    while i < values.len()
        invariant
            i <= values.len(),
            R::obeys_eq_spec() ==> forall|k: int| 0 <= k < i ==> !(#[trigger] values@[k].eq_spec(value)),
        decreases values.len() - i,
    {
        if values[i] == *value {
            return true;
        }
        i += 1;
    }
    false
}

/// Gathers the distinct values that the first `required` answering peers
/// give, each peer answering with a list of values.
pub struct UnionResponses<R> {
    responses: HashSet<PeerId>,
    existing_results: Vec<R>,
    current: CurrentConsensus<Vec<R>>,
    required: usize,
}

impl<R> View for UnionResponses<R> {
    type V = UnionTally<R>;

    closed spec fn view(&self) -> UnionTally<R> {
        UnionTally {
            responses: self.responses@,
            results: self.existing_results@,
            errors: self.current@,
            required: self.required as nat,
        }
    }
}

impl<R> UnionResponses<R> {
    pub fn new(required: usize) -> (strategy: Self)
        ensures
            strategy@ == (UnionTally {
                responses: Set::<PeerId>::empty(),
                results: Seq::<R>::empty(),
                errors: Tally {
                    results: Seq::<(Vec<R>, Set<PeerId>)>::empty(),
                    errors: Map::<PeerId, PeerError>::empty(),
                    required: required as nat,
                    finished: false,
                },
                required: required as nat,
            }),
    {
        UnionResponses {
            responses: HashSet::new(),
            existing_results: Vec::new(),
            current: CurrentConsensus::new(required),
            required,
        }
    }
}

impl<R: PartialEq + Clone> QueryStrategy<Vec<R>> for UnionResponses<R> {
    closed spec fn finished(&self) -> bool {
        self.current.finished
    }

    /// Each value of an answer that equals none gathered so far is appended.
    /// Once `required` peers have answered, the values gathered are the
    /// result. An error is handled as [`CurrentConsensus`] handles it. The
    /// strategy ends once.
    open spec fn answers(
        pre: &Self,
        peer: PeerId,
        results: Result<Vec<R>, PeerError>,
        post: &Self,
        step: QueryStep<Vec<R>>,
    ) -> bool {
        &&& pre.finished() == pre@.errors.finished
        &&& post.finished() == post@.errors.finished
        &&& union_ends_once(pre@, post@, step)
        &&& R::obeys_eq_spec() ==> union_step(
            pre@,
            peer,
            results,
            match results {
                Ok(values) => union_add(pre@.results, values@),
                Err(_) => pre@.results,
            },
            post@,
            step,
        )
    }

    fn process(&mut self, peer: PeerId, results: Result<Vec<R>, PeerError>) -> (step: QueryStep<Vec<R>>) {
        if self.current.finished {
            return QueryStep::Continue;
        }
        match results {
            Ok(values) => {
                let ghost new = values@;
                let ghost start = self.existing_results@;
                for value in it: values
                    invariant
                        it.seq() == new,
                        self.responses == old(self).responses,
                        self.current == old(self).current,
                        self.required == old(self).required,
                        R::obeys_eq_spec() ==> self.existing_results@ == union_add(
                            start,
                            new.subrange(0, it.index() as int),
                        ),
                {
                    let ghost before = self.existing_results@;
                    let ghost i = it.index() as int;
                    if !contains_equal(&self.existing_results, &value) {
                        self.existing_results.push(value);
                    }
                    proof {
                        assert(new.subrange(0, i + 1).drop_last() =~= new.subrange(0, i));
                        assert(new.subrange(0, i + 1).last() == value);
                    }
                }
                proof {
                    assert(new.subrange(0, new.len() as int) =~= new);
                }
                self.responses.insert(peer);
                if self.responses.len() >= self.required {
                    let mut union: Vec<R> = Vec::new();
                    std::mem::swap(&mut union, &mut self.existing_results);
                    self.current.finished = true;
                    assert(self.current@.results =~= old(self).current@.results);
                    QueryStep::Success(union)
                } else {
                    QueryStep::Continue
                }
            },
            Err(e) => self.current.process(peer, Err(e)),
        }
    }

    proof fn lemma_ends_once(
        pre: &Self,
        peer: PeerId,
        results: Result<Vec<R>, PeerError>,
        post: &Self,
        step: QueryStep<Vec<R>>,
    ) {
    }
}

/// Gathers the distinct values that the first `required` answering peers
/// give, each peer answering with one value.
pub struct UnionResponsesSingle<R> {
    responses: HashSet<PeerId>,
    existing_results: Vec<R>,
    current: CurrentConsensus<Vec<R>>,
    required: usize,
}

impl<R> View for UnionResponsesSingle<R> {
    type V = UnionTally<R>;

    closed spec fn view(&self) -> UnionTally<R> {
        UnionTally {
            responses: self.responses@,
            results: self.existing_results@,
            errors: self.current@,
            required: self.required as nat,
        }
    }
}

impl<R> UnionResponsesSingle<R> {
    pub fn new(required: usize) -> (strategy: Self)
        ensures
            strategy@ == (UnionTally {
                responses: Set::<PeerId>::empty(),
                results: Seq::<R>::empty(),
                errors: Tally {
                    results: Seq::<(Vec<R>, Set<PeerId>)>::empty(),
                    errors: Map::<PeerId, PeerError>::empty(),
                    required: required as nat,
                    finished: false,
                },
                required: required as nat,
            }),
    {
        UnionResponsesSingle {
            responses: HashSet::new(),
            existing_results: Vec::new(),
            current: CurrentConsensus::new(required),
            required,
        }
    }
}

impl<R: PartialEq + Clone> QueryStrategy<R, Vec<R>> for UnionResponsesSingle<R> {
    closed spec fn finished(&self) -> bool {
        self.current.finished
    }

    /// The answered value is appended if it equals none gathered so far.
    /// Once `required` peers have answered, the values gathered are the
    /// result. An error is handled as [`CurrentConsensus`] handles it. The
    /// strategy ends once.
    open spec fn answers(
        pre: &Self,
        peer: PeerId,
        result: Result<R, PeerError>,
        post: &Self,
        step: QueryStep<Vec<R>>,
    ) -> bool {
        &&& pre.finished() == pre@.errors.finished
        &&& post.finished() == post@.errors.finished
        &&& union_ends_once(pre@, post@, step)
        &&& R::obeys_eq_spec() ==> union_step(
            pre@,
            peer,
            result,
            match result {
                Ok(value) => union_one(pre@.results, value),
                Err(_) => pre@.results,
            },
            post@,
            step,
        )
    }

    fn process(&mut self, peer: PeerId, result: Result<R, PeerError>) -> (step: QueryStep<Vec<R>>) {
        if self.current.finished {
            return QueryStep::Continue;
        }
        match result {
            Ok(value) => {
                if !contains_equal(&self.existing_results, &value) {
                    self.existing_results.push(value);
                }
                self.responses.insert(peer);
                if self.responses.len() >= self.required {
                    let mut union: Vec<R> = Vec::new();
                    std::mem::swap(&mut union, &mut self.existing_results);
                    self.current.finished = true;
                    assert(self.current@.results =~= old(self).current@.results);
                    QueryStep::Success(union)
                } else {
                    QueryStep::Continue
                }
            },
            Err(e) => self.current.process(peer, Err(e)),
        }
    }

    proof fn lemma_ends_once(
        pre: &Self,
        peer: PeerId,
        result: Result<R, PeerError>,
        post: &Self,
        step: QueryStep<Vec<R>>,
    ) {
    }
}

/// Waits until `required` peers agree, and asks a peer again that says it
/// does not have what was asked for: it may only be lagging behind.
pub struct Retry404<R> {
    current: CurrentConsensus<R>,
}

impl<R> View for Retry404<R> {
    type V = Tally<R>;

    closed spec fn view(&self) -> Tally<R> {
        self.current@
    }
}

impl<R> Retry404<R> {
    pub fn new(required: usize) -> (strategy: Self)
        ensures
            strategy@ == (Tally {
                results: Seq::<(R, Set<PeerId>)>::empty(),
                errors: Map::<PeerId, PeerError>::empty(),
                required: required as nat,
                finished: false,
            }),
    {
        Retry404 { current: CurrentConsensus::new(required) }
    }
}

/// Whether `step` and `post` are what a [`Retry404`] with the tally `pre`
/// answers to `response` of `peer`: while the query is not finished, a
/// "not found" error has the peer asked again and leaves the tally as it
/// is; any other answer is handled as [`CurrentConsensus`] handles it.
pub open spec fn retry_step<R: PartialEq + Clone>(
    pre: Tally<R>,
    peer: PeerId,
    response: Result<R, PeerError>,
    post: Tally<R>,
    step: QueryStep<R>,
) -> bool {
    if !pre.finished && (response matches Err(e) && e.is_not_found()) {
        &&& post == pre
        &&& step matches QueryStep::RetryMembers(peers)
        &&& peers@ == Set::<PeerId>::empty().insert(peer)
    } else {
        consensus_step(pre, peer, response, post, step)
    }
}

impl<R: PartialEq + Clone> QueryStrategy<R> for Retry404<R> {
    closed spec fn finished(&self) -> bool {
        self.current.finished
    }

    /// The strategy ends once, and the answer is handled as [`retry_step`]
    /// says; a "not found" error is handled so whatever the values are.
    open spec fn answers(
        pre: &Self,
        peer: PeerId,
        result: Result<R, PeerError>,
        post: &Self,
        step: QueryStep<R>,
    ) -> bool {
        &&& pre.finished() == pre@.finished
        &&& post.finished() == post@.finished
        &&& tally_ends_once(pre@, post@, step)
        &&& (R::obeys_eq_spec() || (result matches Err(e) && e.is_not_found())) ==> retry_step(
            pre@,
            peer,
            result,
            post@,
            step,
        )
    }

    fn process(&mut self, peer: PeerId, result: Result<R, PeerError>) -> (step: QueryStep<R>) {
        if self.current.finished {
            return QueryStep::Continue;
        }
        let retry = match &result {
            Err(e) => e.is_not_found(),
            Ok(_) => false,
        };
        if retry {
            let mut peers: BTreeSet<PeerId> = BTreeSet::new();
            peers.insert(peer);
            QueryStep::RetryMembers(peers)
        } else {
            self.current.process(peer, result)
        }
    }

    proof fn lemma_ends_once(
        pre: &Self,
        peer: PeerId,
        result: Result<R, PeerError>,
        post: &Self,
        step: QueryStep<R>,
    ) {
    }
}

/// What an [`EventuallyConsistent`] has gathered so far.
pub struct RoundTally<R> {
    /// The peers that answered in this round.
    pub responses: Set<PeerId>,
    /// The answers of all rounds, as a [`CurrentConsensus`] gathers them,
    /// and whether the query is finished.
    pub tally: Tally<R>,
    /// How many peers have to agree, and how many answers make a round.
    pub required: nat,
}

/// Whether a [`CurrentConsensus`] with the tally `pre`, which is not
/// finished, is still undecided after the answer `response` of `peer`.
pub open spec fn consensus_undecided<R: PartialEq>(pre: Tally<R>, peer: PeerId, response: Result<R, PeerError>) -> bool {
    let recorded = tally_record(pre, peer, response);
    &&& find_agreed(recorded.results, recorded.required, 0) is None
    &&& recorded.errors.len() < recorded.required
}

/// Whether `step` and `post` are what an [`EventuallyConsistent`] with the
/// tally `pre` answers to `response` of `peer`.
///
/// A finished query passes the answer over. Else the answer is handled as
/// [`CurrentConsensus`] handles it. Where that leaves the query undecided
/// although `required` peers have answered in this round, all of them are
/// asked again, and a new round begins; what was answered stays in the
/// tally.
pub open spec fn eventual_step<R: PartialEq + Clone>(
    pre: RoundTally<R>,
    peer: PeerId,
    response: Result<R, PeerError>,
    post: RoundTally<R>,
    step: QueryStep<R>,
) -> bool {
    let responses = pre.responses.insert(peer);
    if pre.tally.finished {
        post == pre && step is Continue
    } else if consensus_undecided(pre.tally, peer, response) && responses.len() >= pre.required {
        &&& post == (RoundTally {
            responses: Set::<PeerId>::empty(),
            tally: tally_record(pre.tally, peer, response),
            ..pre
        })
        &&& step matches QueryStep::RetryMembers(peers)
        &&& peers@ == responses
    } else {
        &&& post == (RoundTally { responses, tally: post.tally, ..pre })
        &&& consensus_step(pre.tally, peer, response, post.tally, step)
    }
}

/// Waits until `required` peers agree, and asks everybody again after every
/// `required` answers that brought no agreement: peers that are in
/// different epochs agree a round later.
pub struct EventuallyConsistent<R> {
    responses: BTreeSet<PeerId>,
    current: CurrentConsensus<R>,
    required: usize,
}

impl<R> View for EventuallyConsistent<R> {
    type V = RoundTally<R>;

    closed spec fn view(&self) -> RoundTally<R> {
        RoundTally {
            responses: self.responses@,
            tally: self.current@,
            required: self.required as nat,
        }
    }
}

impl<R> EventuallyConsistent<R> {
    pub fn new(required: usize) -> (strategy: Self)
        ensures
            strategy@ == (RoundTally {
                responses: Set::<PeerId>::empty(),
                tally: Tally {
                    results: Seq::<(R, Set<PeerId>)>::empty(),
                    errors: Map::<PeerId, PeerError>::empty(),
                    required: required as nat,
                    finished: false,
                },
                required: required as nat,
            }),
    {
        EventuallyConsistent {
            responses: BTreeSet::new(),
            current: CurrentConsensus::new(required),
            required,
        }
    }
}

impl<R: PartialEq + Clone> QueryStrategy<R> for EventuallyConsistent<R> {
    closed spec fn finished(&self) -> bool {
        self.current.finished
    }

    /// The strategy ends once, and the answer is handled as
    /// [`eventual_step`] says, for every type of values whose `==` is what
    /// its specification says.
    open spec fn answers(
        pre: &Self,
        peer: PeerId,
        result: Result<R, PeerError>,
        post: &Self,
        step: QueryStep<R>,
    ) -> bool {
        &&& pre.finished() == pre@.tally.finished
        &&& post.finished() == post@.tally.finished
        &&& pre@.tally.finished ==> post@ == pre@ && step is Continue
        &&& !pre@.tally.finished ==> (post@.tally.finished <==> step.is_terminal())
        &&& R::obeys_eq_spec() ==> eventual_step(pre@, peer, result, post@, step)
    }

    fn process(&mut self, peer: PeerId, result: Result<R, PeerError>) -> (step: QueryStep<R>) {
        if self.current.finished {
            return QueryStep::Continue;
        }
        self.responses.insert(peer);
        match self.current.process(peer, result) {
            QueryStep::Continue => {
                if self.responses.len() >= self.required {
                    let step = QueryStep::RetryMembers(self.responses.clone());
                    self.responses.clear();
                    step
                } else {
                    QueryStep::Continue
                }
            },
            step => step,
        }
    }

    proof fn lemma_ends_once(
        pre: &Self,
        peer: PeerId,
        result: Result<R, PeerError>,
        post: &Self,
        step: QueryStep<R>,
    ) {
    }
}

/// Whether `steps` are what a strategy answers to the first responses of
/// `responses`, one after the other, while it goes through `states`.
pub open spec fn is_run<IR, OR, S: QueryStrategy<IR, OR>>(
    states: Seq<S>,
    responses: Seq<(PeerId, Result<IR, PeerError>)>,
    steps: Seq<QueryStep<OR>>,
) -> bool {
    &&& states.len() == steps.len() + 1
    &&& steps.len() <= responses.len()
    &&& forall|i: int|
        0 <= i < steps.len() ==> S::answers(
            &states[i],
            responses[i].0,
            responses[i].1,
            &states[i + 1],
            #[trigger] steps[i],
        )
}

/// Once a strategy is finished, it stays finished through every later
/// answer, and none of its later answers is a success or a failure.
pub proof fn lemma_finished_for_good<IR, OR, S: QueryStrategy<IR, OR>>(
    states: Seq<S>,
    responses: Seq<(PeerId, Result<IR, PeerError>)>,
    steps: Seq<QueryStep<OR>>,
    from: int,
    to: int,
)
    requires
        is_run(states, responses, steps),
        0 <= from <= to <= steps.len(),
        states[from].finished(),
    ensures
        states[to].finished(),
        forall|j: int| from <= j < to ==> !(#[trigger] steps[j]).is_terminal(),
    decreases to - from,
{
    if from < to {
        lemma_finished_for_good(states, responses, steps, from, to - 1);
        assert(S::answers(
            &states[to - 1],
            responses[to - 1].0,
            responses[to - 1].1,
            &states[to],
            steps[to - 1],
        ));
        S::lemma_ends_once(
            &states[to - 1],
            responses[to - 1].0,
            responses[to - 1].1,
            &states[to],
            steps[to - 1],
        );
    }
}

/// A strategy ends once: however many answers it is given, at most one of
/// its steps is a success or a failure, nothing of the kind follows it, and
/// a strategy that was finished before gives none at all.
pub proof fn lemma_strategy_ends_once<IR, OR, S: QueryStrategy<IR, OR>>(
    states: Seq<S>,
    responses: Seq<(PeerId, Result<IR, PeerError>)>,
    steps: Seq<QueryStep<OR>>,
)
    requires
        is_run(states, responses, steps),
    ensures
        forall|i: int, j: int|
            0 <= i < j < steps.len() && (#[trigger] steps[i]).is_terminal() ==> !(
            #[trigger] steps[j]).is_terminal(),
        states[0].finished() ==> forall|j: int|
            0 <= j < steps.len() ==> !(#[trigger] steps[j]).is_terminal(),
{
    assert forall|i: int, j: int|
        0 <= i < j < steps.len() && (#[trigger] steps[i]).is_terminal() implies !(
    #[trigger] steps[j]).is_terminal() by {
        assert(S::answers(&states[i], responses[i].0, responses[i].1, &states[i + 1], steps[i]));
        S::lemma_ends_once(&states[i], responses[i].0, responses[i].1, &states[i + 1], steps[i]);
        lemma_finished_for_good(states, responses, steps, i + 1, j + 1);
    }
    if states[0].finished() {
        lemma_finished_for_good(states, responses, steps, 0, steps.len() as int);
    }
}

/// Feeds `responses` to `strategy`, one after the other, until a step ends
/// the query, and hands out the steps.
///
/// Each step is the strategy's answer to the response of its position.
/// Nothing is fed after a step that ends the query. So among the steps at
/// most one is a success or a failure, and that one is the last; and where
/// not all responses were fed, the last step is one.
pub fn run_strategy<IR, OR, S: QueryStrategy<IR, OR>>(
    strategy: &mut S,
    responses: Vec<(PeerId, Result<IR, PeerError>)>,
) -> (steps: Vec<QueryStep<OR>>)
    ensures
        exists|states: Seq<S>|
            {
                &&& #[trigger] is_run(states, responses@, steps@)
                &&& states[0] == *old(strategy)
                &&& states.last() == *final(strategy)
            },
        responses@.len() > 0 ==> steps@.len() > 0,
        forall|i: int| 0 <= i < steps@.len() - 1 ==> !(#[trigger] steps@[i]).is_terminal(),
        steps@.len() < responses@.len() ==> steps@.last().is_terminal(),
{
    let mut steps: Vec<QueryStep<OR>> = Vec::new();
    let ghost all = responses@;
    let ghost mut states: Seq<S> = seq![*strategy];
    for response in it: responses
        invariant
            it.seq() == all,
            steps@.len() == it.index(),
            is_run(states, all, steps@),
            states[0] == *old(strategy),
            states.last() == *strategy,
            forall|i: int| 0 <= i < steps@.len() ==> !(#[trigger] steps@[i]).is_terminal(),
    {
        let ghost before = *strategy;
        let ghost earlier = steps@;
        let ghost at = it.index() as int;
        let step = strategy.process(response.0, response.1);
        let done = step.is_terminal();
        steps.push(step);
        proof {
            let grown = states.push(*strategy);
            assert forall|i: int| 0 <= i < steps@.len() implies S::answers(
                &grown[i],
                all[i].0,
                all[i].1,
                &grown[i + 1],
                #[trigger] steps@[i],
            ) by {
                if i < at {
                    assert(steps@[i] == earlier[i]);
                    assert(grown[i] == states[i]);
                    assert(grown[i + 1] == states[i + 1]);
                }
            }
            states = grown;
        }
        if done {
            return steps;
        }
    }
    steps
}

} // verus!
