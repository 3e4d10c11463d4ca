//! The quarantine registry: for each subject at most one episode, held in a
//! concurrent map and guarded by generations.
//!
//! Every method is one step of the registry and takes it by `&mut`: whoever
//! shares the registry among tasks puts the steps one after another, and
//! holds it for no longer than a step. A release that was scheduled for an
//! episode is never cancelled. When it comes due it asks for its own
//! generation, and finds nothing to do where the episode was superseded or
//! ended in the meantime.
//!
//! Time is a count of seconds on a clock of the caller's. An expiry is the
//! sum of two such counts and is kept in twice the width, so that it is
//! always exactly `now + requested`.

use vstd::prelude::*;
use dashmap::DashMap;
use crate::counter::GenerationCounter;

verus! {

/// One quarantine of one subject.
#[derive(Clone, Copy, Debug, PartialEq, Eq, Structural)]
pub struct Episode {
    pub subject: u64,
    pub generation: u64,
    pub expiry: u128,
}

/// What became of a request to quarantine a subject.
#[derive(Clone, Copy, Debug, PartialEq, Eq, Structural)]
pub enum Admission {
    /// A new or renewed episode stands in the registry.
    Admitted { generation: u64, expiry: u128 },
    /// The subject's episode outlasts the request and stays as it is.
    Rejected { remaining: u128 },
    /// No generation is left.
    Unavailable,
}

/// The seconds from `now` to `expiry`, none once `expiry` has passed.
pub open spec fn remaining_at(expiry: u128, now: u64) -> nat {
    if expiry >= now {
        (expiry - now) as nat
    } else {
        0
    }
}

/// The registry as a value: the episodes by subject, and how many
/// generations have been issued.
pub ghost struct RegistryState {
    pub episodes: Map<u64, Episode>,
    pub issued: nat,
}

impl RegistryState {
    /// Each episode is filed under its subject and bears a generation that
    /// has been issued.
    pub open spec fn wf(self) -> bool {
        forall|subject: u64| #[trigger]
            self.episodes.dom().contains(subject) ==> {
                &&& self.episodes[subject].subject == subject
                &&& 1 <= self.episodes[subject].generation <= self.issued
            }
    }

    /// The subject has an episode that lasts at least as long as requested:
    /// its expiry is no earlier than `now + requested`. An episode whose
    /// expiry has passed outlasts no request, not even one of no seconds.
    pub open spec fn outlasts(self, subject: u64, now: u64, requested: u64) -> bool {
        self.episodes.dom().contains(subject) && self.episodes[subject].expiry - now >= requested
    }

    /// A generation is left.
    pub open spec fn can_admit(self) -> bool {
        self.issued < u64::MAX
    }

    /// The answer to a request to quarantine `subject` for `requested`
    /// seconds from `now`.
    pub open spec fn admission(self, subject: u64, now: u64, requested: u64) -> Admission {
        if self.outlasts(subject, now, requested) {
            Admission::Rejected {
                remaining: remaining_at(self.episodes[subject].expiry, now) as u128,
            }
        } else if self.can_admit() {
            Admission::Admitted {
                generation: (self.issued + 1) as u64,
                expiry: (now + requested) as u128,
            }
        } else {
            Admission::Unavailable
        }
    }

    /// The registry after that request.
    pub open spec fn after_admission(self, subject: u64, now: u64, requested: u64) -> Self {
        if !self.outlasts(subject, now, requested) && self.can_admit() {
            RegistryState {
                episodes: self.episodes.insert(
                    subject,
                    Episode {
                        subject,
                        generation: (self.issued + 1) as u64,
                        expiry: (now + requested) as u128,
                    },
                ),
                issued: self.issued + 1,
            }
        } else {
            self
        }
    }

    /// The subject's episode is of this generation.
    pub open spec fn is_current(self, subject: u64, generation: u64) -> bool {
        self.episodes.dom().contains(subject) && self.episodes[subject].generation == generation
    }

    /// The registry without the subject's episode.
    pub open spec fn without(self, subject: u64) -> Self {
        RegistryState { episodes: self.episodes.remove(subject), issued: self.issued }
    }

    /// The subject's episode, if there is one.
    pub open spec fn episode_of(self, subject: u64) -> Option<Episode> {
        if self.episodes.dom().contains(subject) {
            Some(self.episodes[subject])
        } else {
            None
        }
    }
}

/// dashmap's `DashMap`, as a type whose inside is not looked into.
#[verifier::external_type_specification]
#[verifier::external_body]
#[verifier::reject_recursive_types(K)]
#[verifier::reject_recursive_types(V)]
#[verifier::reject_recursive_types(S)]
pub struct ExDashMap<K, V, S>(DashMap<K, V, S>);

/// The entries of the concurrent map: subject to generation and expiry.
pub uninterp spec fn entries(map: DashMap<u64, (u64, u128)>) -> Map<u64, (u64, u128)>;

/// `DashMap::new`: the map it makes has no entry.
#[verifier::external_body]
fn map_new() -> (made: DashMap<u64, (u64, u128)>)
    ensures
        entries(made) =~= Map::empty(),
{
    DashMap::new()
}

/// `DashMap::get`: a copy of the value under `key`, `None` where the map
/// has no such key. The map is only read.
#[verifier::external_body]
fn map_get(map: &DashMap<u64, (u64, u128)>, key: u64) -> (value: Option<(u64, u128)>)
    ensures
        value == if entries(*map).dom().contains(key) {
            Some(entries(*map)[key])
        } else {
            None::<(u64, u128)>
        },
{
    map.get(&key).map(|entry| *entry.value())
}

/// `DashMap::insert`: afterwards `key` maps to `value` and every other
/// entry is as before; the value that `key` had is returned.
#[verifier::external_body]
fn map_insert(map: &mut DashMap<u64, (u64, u128)>, key: u64, value: (u64, u128)) -> (previous:
    Option<(u64, u128)>)
    ensures
        entries(*final(map)) == entries(*old(map)).insert(key, value),
        previous == if entries(*old(map)).dom().contains(key) {
            Some(entries(*old(map))[key])
        } else {
            None::<(u64, u128)>
        },
{
    map.insert(key, value)
}

/// `DashMap::remove`: afterwards the map has no entry under `key` and every
/// other entry is as before; the entry that was removed is returned.
#[verifier::external_body]
fn map_remove(map: &mut DashMap<u64, (u64, u128)>, key: u64) -> (removed: Option<(u64, (u64, u128))>)
    ensures
        entries(*final(map)) == entries(*old(map)).remove(key),
        removed == if entries(*old(map)).dom().contains(key) {
            Some((key, entries(*old(map))[key]))
        } else {
            None::<(u64, (u64, u128))>
        },
{
    map.remove(&key)
}

/// The registry and the counter that numbers its episodes.
pub struct Registry {
    episodes: DashMap<u64, (u64, u128)>,
    counter: GenerationCounter,
}

impl View for Registry {
    type V = RegistryState;

    closed spec fn view(&self) -> RegistryState {
        RegistryState {
            episodes: Map::new(
                |subject: u64| entries(self.episodes).dom().contains(subject),
                |subject: u64|
                    Episode {
                        subject,
                        generation: entries(self.episodes)[subject].0,
                        expiry: entries(self.episodes)[subject].1,
                    },
            ),
            issued: self.counter.issued(),
        }
    }
}

impl Registry {
    /// The invariant of the registry: that of its state.
    pub open spec fn wf(&self) -> bool {
        self@.wf()
    }

    /// An empty registry whose counter has issued nothing.
    pub fn new() -> (registry: Self)
        ensures
            registry.wf(),
            registry@.episodes == Map::<u64, Episode>::empty(),
            registry@.issued == 0,
    {
        let registry = Registry { episodes: map_new(), counter: GenerationCounter::new() };
        assert(registry@.episodes =~= Map::<u64, Episode>::empty());
        registry
    }

    /// The subject's episode, if it is quarantined.
    pub fn lookup(&self, subject: u64) -> (episode: Option<Episode>)
        ensures
            episode == self@.episode_of(subject),
    {
        match map_get(&self.episodes, subject) {
            Some((generation, expiry)) => Some(Episode { subject, generation, expiry }),
            None => None,
        }
    }

    /// The last generation issued, 0 before the first.
    pub fn last_generation(&self) -> (last: u64)
        ensures
            last == self@.issued,
    {
        self.counter.last_issued()
    }

    /// Quarantines `subject` for `requested` seconds from `now`, unless its
    /// episode already lasts that long. A free subject is admitted; a
    /// quarantined one is rejected when the rest of its term, `expiry - now`,
    /// is at least `requested`, and otherwise gets a fresh generation and
    /// the new expiry in the same slot. An episode whose expiry has passed
    /// has less than nothing left and is superseded by any request.
    pub fn admit_or_supersede(&mut self, subject: u64, now: u64, requested: u64) -> (admission:
        Admission)
        requires
            old(self).wf(),
        ensures
            final(self).wf(),
            admission == old(self)@.admission(subject, now, requested),
            final(self)@ == old(self)@.after_admission(subject, now, requested),
    {
        if let Some((_, expiry)) = map_get(&self.episodes, subject) {
            if expiry >= now as u128 && expiry - now as u128 >= requested as u128 {
                return Admission::Rejected { remaining: expiry - now as u128 };
            }
        }
        let expiry: u128 = now as u128 + requested as u128;
        let generation: u64 = match self.counter.issue() {
            Some(generation) => generation,
            None => {
                return Admission::Unavailable;
            },
        };
        map_insert(&mut self.episodes, subject, (generation, expiry));
        assert(self@.episodes =~= old(self)@.after_admission(subject, now, requested).episodes);
        Admission::Admitted { generation, expiry }
    }

    /// Ends the subject's episode if it is of this generation, and says
    /// whether it did. An episode of another generation stays.
    pub fn release_if_current(&mut self, subject: u64, generation: u64) -> (released: bool)
        requires
            old(self).wf(),
        ensures
            final(self).wf(),
            released == old(self)@.is_current(subject, generation),
            released ==> final(self)@ == old(self)@.without(subject),
            !released ==> final(self)@ == old(self)@,
    {
        match map_get(&self.episodes, subject) {
            Some((current, _)) => {
                if current == generation {
                    map_remove(&mut self.episodes, subject);
                    assert(self@.episodes =~= old(self)@.without(subject).episodes);
                    true
                } else {
                    false
                }
            },
            None => false,
        }
    }

    /// Ends the subject's episode, whatever its generation, and returns it.
    pub fn release_unconditional(&mut self, subject: u64) -> (episode: Option<Episode>)
        requires
            old(self).wf(),
        ensures
            final(self).wf(),
            episode == old(self)@.episode_of(subject),
            final(self)@ == old(self)@.without(subject),
    {
        let removed = map_remove(&mut self.episodes, subject);
        assert(self@.episodes =~= old(self)@.without(subject).episodes);
        match removed {
            Some((_, (generation, expiry))) => Some(Episode { subject, generation, expiry }),
            None => None,
        }
    }
}

} // verus!
