//! Histories of the registry: what holds after any sequence of requests.

use vstd::prelude::*;
use crate::registry::{Admission, Episode, RegistryState, remaining_at};

verus! {

/// One request to the registry.
pub enum Operation {
    Admit { subject: u64, now: u64, requested: u64 },
    ReleaseIfCurrent { subject: u64, generation: u64 },
    ReleaseUnconditional { subject: u64 },
}

/// The registry after one request.
pub open spec fn apply(state: RegistryState, operation: Operation) -> RegistryState {
    match operation {
        Operation::Admit { subject, now, requested } => state.after_admission(
            subject,
            now,
            requested,
        ),
        Operation::ReleaseIfCurrent { subject, generation } => if state.is_current(
            subject,
            generation,
        ) {
            state.without(subject)
        } else {
            state
        },
        Operation::ReleaseUnconditional { subject } => state.without(subject),
    }
}

/// The registry after a sequence of requests, the first one first.
pub open spec fn run(state: RegistryState, operations: Seq<Operation>) -> RegistryState
    decreases operations.len(),
{
    if operations.len() == 0 {
        state
    } else {
        apply(run(state, operations.drop_last()), operations.last())
    }
}

/// The generation that a request is given, if it is an admission that the
/// registry grants.
pub open spec fn generation_given(state: RegistryState, operation: Operation) -> Option<u64> {
    match operation {
        Operation::Admit { subject, now, requested } => match state.admission(
            subject,
            now,
            requested,
        ) {
            Admission::Admitted { generation, expiry } => Some(generation),
            _ => None,
        },
        _ => None,
    }
}

/// The empty registry of a fresh process.
pub open spec fn initial() -> RegistryState {
    RegistryState { episodes: Map::empty(), issued: 0 }
}

/// One request keeps the registry well formed, never lowers the count of
/// issued generations, and gives out only the generation after that count.
pub proof fn lemma_apply(state: RegistryState, operation: Operation)
    requires
        state.wf(),
    ensures
        apply(state, operation).wf(),
        state.issued <= apply(state, operation).issued,
        generation_given(state, operation) matches Some(generation) ==> state.issued < generation
            == apply(state, operation).issued,
{
}

/// At every instant of every history the registry is well formed: a
/// subject has at most one episode, filed under the subject itself, with a
/// generation that has been issued.
pub proof fn lemma_one_episode_per_subject(operations: Seq<Operation>, subject: u64)
    ensures
        run(initial(), operations).wf(),
        run(initial(), operations).episode_of(subject) matches Some(episode) ==> episode.subject
            == subject && run(initial(), operations).episodes.dom().contains(subject)
            && run(initial(), operations).episodes[subject] == episode,
    decreases operations.len(),
{
    if operations.len() > 0 {
        lemma_one_episode_per_subject(operations.drop_last(), subject);
        lemma_apply(run(initial(), operations.drop_last()), operations.last());
    }
}

/// A history keeps any well-formed registry well formed and never lowers
/// the count of issued generations.
pub proof fn lemma_run(state: RegistryState, operations: Seq<Operation>)
    requires
        state.wf(),
    ensures
        run(state, operations).wf(),
        state.issued <= run(state, operations).issued,
    decreases operations.len(),
{
    if operations.len() > 0 {
        lemma_run(state, operations.drop_last());
        lemma_apply(run(state, operations.drop_last()), operations.last());
    }
}

/// The count of issued generations only grows along a history.
pub proof fn lemma_issued_grows(state: RegistryState, operations: Seq<Operation>, i: int, j: int)
    requires
        state.wf(),
        0 <= i <= j <= operations.len(),
    ensures
        run(state, operations.take(i)).issued <= run(state, operations.take(j)).issued,
    decreases j - i,
{
    if i < j {
        lemma_issued_grows(state, operations, i, j - 1);
        lemma_run(state, operations.take(j - 1));
        assert(operations.take(j).drop_last() =~= operations.take(j - 1));
        lemma_apply(run(state, operations.take(j - 1)), operations.take(j).last());
    }
}

/// Generations are strictly increasing over the life of the registry and
/// none is given twice: of two admissions in one history, whatever
/// subjects they are for and whatever happens in between, the later gets
/// the larger generation.
pub proof fn lemma_generations_strictly_increase(
    state: RegistryState,
    operations: Seq<Operation>,
    i: int,
    j: int,
)
    requires
        state.wf(),
        0 <= i < j < operations.len(),
        generation_given(run(state, operations.take(i)), operations[i]) is Some,
        generation_given(run(state, operations.take(j)), operations[j]) is Some,
    ensures
        generation_given(run(state, operations.take(i)), operations[i])->0 < generation_given(
            run(state, operations.take(j)),
            operations[j],
        )->0,
{
    lemma_run(state, operations.take(i));
    lemma_run(state, operations.take(j));
    lemma_apply(run(state, operations.take(i)), operations[i]);
    lemma_apply(run(state, operations.take(j)), operations[j]);
    assert(operations.take(i + 1).drop_last() =~= operations.take(i));
    assert(operations.take(i + 1).last() == operations[i]);
    lemma_issued_grows(state, operations, i + 1, j);
}

/// Admitting a free subject for `requested` seconds creates its episode,
/// with the next generation and the expiry `now + requested`.
pub proof fn lemma_free_subject_is_admitted(
    state: RegistryState,
    subject: u64,
    now: u64,
    requested: u64,
)
    requires
        state.wf(),
        state.episode_of(subject) is None,
        state.can_admit(),
    ensures
        state.admission(subject, now, requested) == (Admission::Admitted {
            generation: (state.issued + 1) as u64,
            expiry: (now + requested) as u128,
        }),
        state.after_admission(subject, now, requested).episode_of(subject) == Some(
            Episode {
                subject,
                generation: (state.issued + 1) as u64,
                expiry: (now + requested) as u128,
            },
        ),
        forall|other: u64|
            other != subject ==> state.after_admission(subject, now, requested).episode_of(other)
                == state.episode_of(other),
{
}

/// A request that the subject's episode outlasts is rejected with the
/// rest of the term, and leaves the registry as it was: the episode, its
/// generation and the counter.
pub proof fn lemma_shorter_request_is_rejected(
    state: RegistryState,
    subject: u64,
    now: u64,
    requested: u64,
)
    requires
        state.wf(),
        state.episode_of(subject) matches Some(episode) && episode.expiry - now >= requested,
    ensures
        state.admission(subject, now, requested) == (Admission::Rejected {
            remaining: remaining_at(state.episodes[subject].expiry, now) as u128,
        }),
        state.after_admission(subject, now, requested) == state,
{
}

/// A request for more than the rest of the subject's term supersedes the
/// episode: the generation is a new and larger one, the expiry is
/// `now + requested`, and the release that was scheduled for the old
/// generation finds nothing to do.
pub proof fn lemma_longer_request_supersedes(
    state: RegistryState,
    subject: u64,
    now: u64,
    requested: u64,
)
    requires
        state.wf(),
        state.episode_of(subject) matches Some(episode) && episode.expiry - now < requested,
        state.can_admit(),
    ensures
        ({
            let old_generation = state.episodes[subject].generation;
            let after = state.after_admission(subject, now, requested);
            &&& state.admission(subject, now, requested) == (Admission::Admitted {
                generation: (state.issued + 1) as u64,
                expiry: (now + requested) as u128,
            })
            &&& after.episodes[subject].generation > old_generation
            &&& after.episodes[subject].expiry == now + requested
            &&& after.episodes.dom() == state.episodes.dom()
            &&& !after.is_current(subject, old_generation)
            &&& apply(after, Operation::ReleaseIfCurrent { subject, generation: old_generation })
                == after
        }),
{
    let after = state.after_admission(subject, now, requested);
    assert(after.episodes.dom() =~= state.episodes.dom());
}

/// An unconditional release clears the subject's episode, whatever its
/// generation, and touches no other subject.
pub proof fn lemma_unconditional_release_clears(state: RegistryState, subject: u64)
    requires
        state.wf(),
    ensures
        state.without(subject).wf(),
        state.without(subject).episode_of(subject) is None,
        forall|generation: u64| !state.without(subject).is_current(subject, generation),
        forall|other: u64|
            other != subject ==> state.without(subject).episode_of(other) == state.episode_of(
                other,
            ),
{
}

} // verus!
