//! The quarantine commands: the decisions between the calls that apply and
//! strip roles, sleep and send. The caller performs those calls and hands
//! their results in; every function here says what to do next.

use vstd::prelude::*;
use vstd::string::*;
use crate::mention::{mention_text, push_mention};
use crate::registry::{remaining_at, Admission, Episode, Registry, RegistryState};
use crate::term::{
    resolution, resolve_term, term_error_text, Term, TermError, TermRequest, TERM_MAX,
};
use crate::text::{decimal, push_decimal};

verus! {

/// The two roles that mark a quarantined subject.
#[derive(Clone, Copy, Debug, PartialEq, Eq, Structural)]
pub struct QuarantineRoleSet {
    pub mark: u64,
    pub main: u64,
}

/// A member of the community with the roles it carries.
#[derive(Clone, Debug, PartialEq, Eq)]
pub struct Member {
    pub subject: u64,
    pub roles: Vec<u64>,
}

/// A release to run once `delay` seconds have passed: it ends the
/// subject's episode if that is still of this generation.
#[derive(Clone, Copy, Debug, PartialEq, Eq, Structural)]
pub struct Release {
    pub subject: u64,
    pub generation: u64,
    pub delay: u64,
}

/// The first step of a jail command.
#[derive(Clone, Debug, PartialEq, Eq)]
pub enum JailPlan {
    /// Apply the quarantine roles to the subject, once, then call `jail`.
    ApplyRoles { subject: u64, term: Term },
    /// The term is unusable for this reason: send the text and touch
    /// nothing.
    Reply { error: TermError, text: String },
}

/// What a jail command came to, once the roles have been applied or not.
#[derive(Clone, Debug, PartialEq, Eq)]
pub struct JailReport {
    /// The registry's answer; `None` where the roles could not be applied.
    pub admission: Option<Admission>,
    /// The text to send.
    pub reply: String,
    /// The release to schedule, for an admitted episode.
    pub release: Option<Release>,
    /// Whether the roles that were just applied are to be taken off again:
    /// they are where no generation was left for a subject that was free.
    pub revoke: bool,
}

impl QuarantineRoleSet {
    /// One of the two roles is among `roles`.
    pub open spec fn marks(self, roles: Seq<u64>) -> bool {
        roles.contains(self.mark) || roles.contains(self.main)
    }

    /// Whether a member with these roles is marked as quarantined.
    pub fn is_marked(&self, roles: &Vec<u64>) -> (marked: bool)
        ensures
            marked == self.marks(roles@),
    {
        let mut i: usize = 0;
        while i < roles.len()
            invariant
                i <= roles.len(),
                forall|j: int| 0 <= j < i ==> roles@[j] != self.mark && roles@[j] != self.main,
            decreases roles.len() - i,
        {
            if roles[i] == self.mark || roles[i] == self.main {
                return true;
            }
            i = i + 1;
        }
        false
    }
}

/// The subjects among `members` that carry a quarantine role, in order.
pub open spec fn marked_among(members: Seq<Member>, roles: QuarantineRoleSet) -> Seq<u64>
    decreases members.len(),
{
    if members.len() == 0 {
        Seq::empty()
    } else if roles.marks(members.last().roles@) {
        marked_among(members.drop_last(), roles).push(members.last().subject)
    } else {
        marked_among(members.drop_last(), roles)
    }
}

/// The registry without the episodes of `subjects`.
pub open spec fn without_each(state: RegistryState, subjects: Seq<u64>) -> RegistryState {
    RegistryState {
        episodes: Map::new(
            |subject: u64| state.episodes.dom().contains(subject) && !subjects.contains(subject),
            |subject: u64| state.episodes[subject],
        ),
        issued: state.issued,
    }
}

/// "quarantined {subject} for {seconds}s"
pub open spec fn quarantined_text(subject: u64, seconds: u64) -> Seq<char> {
    "quarantined "@ + mention_text(subject) + " for "@ + decimal(seconds as nat) + "s"@
}

/// "{subject} already quarantined, {remaining}s left"
pub open spec fn already_text(subject: u64, remaining: u128) -> Seq<char> {
    mention_text(subject) + " already quarantined, "@ + decimal(remaining as nat) + "s left"@
}

/// "term too long, clamped to {max}s"
pub open spec fn clamped_text() -> Seq<char> {
    "term too long, clamped to "@ + decimal(TERM_MAX as nat) + "s"@
}

/// "released {subject}"
pub open spec fn released_text(subject: u64) -> Seq<char> {
    "released "@ + mention_text(subject)
}

/// What a jail command came to, as a text: the admission, the rejection,
/// or the failure where the roles were not applied or the registry has no
/// room.
pub open spec fn outcome_text(subject: u64, term: Term, admission: Option<Admission>) -> Seq<char> {
    match admission {
        Some(Admission::Admitted { generation, expiry }) => quarantined_text(subject, term.seconds),
        Some(Admission::Rejected { remaining }) => already_text(subject, remaining),
        _ => "quarantine failed"@,
    }
}

/// The reply to a jail command: what it came to, followed on a line of
/// its own by the warning where the term was clamped.
pub open spec fn jail_reply(subject: u64, term: Term, admission: Option<Admission>) -> Seq<char> {
    if term.clamped {
        outcome_text(subject, term, admission) + "\n"@ + clamped_text()
    } else {
        outcome_text(subject, term, admission)
    }
}

/// The release that goes with an admission.
pub open spec fn jail_release(subject: u64, term: Term, admission: Option<Admission>) -> Option<
    Release,
> {
    match admission {
        Some(Admission::Admitted { generation, expiry }) => Some(
            Release { subject, generation, delay: term.seconds },
        ),
        _ => None,
    }
}

/// Whether the roles are to be taken off again after a jail command: the
/// registry had no generation left, and the subject had no episode that
/// the roles belong to.
pub open spec fn jail_revoke(state: RegistryState, subject: u64, admission: Option<Admission>)
    -> bool {
    admission == Some(Admission::Unavailable) && state.episode_of(subject) is None
}

/// What `jail` reports: the registry is asked only where the roles were
/// applied.
pub open spec fn jail_admission(
    state: RegistryState,
    subject: u64,
    term: Term,
    now: u64,
    applied: bool,
) -> Option<Admission> {
    if applied {
        Some(state.admission(subject, now, term.seconds))
    } else {
        None
    }
}

/// The registry after `jail`.
pub open spec fn after_jail(
    state: RegistryState,
    subject: u64,
    term: Term,
    now: u64,
    applied: bool,
) -> RegistryState {
    if applied {
        state.after_admission(subject, now, term.seconds)
    } else {
        state
    }
}

/// Plans a jail command: with a usable term the roles are to be applied,
/// once; with a negative or an unevaluable one only the text of that
/// error is sent.
pub fn plan_jail(subject: u64, request: TermRequest) -> (plan: JailPlan)
    ensures
        match resolution(request) {
            Ok(term) => plan == (JailPlan::ApplyRoles { subject, term }),
            Err(wrong) => plan matches JailPlan::Reply { error, text } && error == wrong && text@
                == term_error_text(wrong),
        },
{
    match resolve_term(request) {
        Ok(term) => JailPlan::ApplyRoles { subject, term },
        Err(error) => JailPlan::Reply { error, text: error.text() },
    }
}

/// What a jail command came to, as a text.
fn outcome_reply(subject: u64, term: Term, admission: Option<Admission>) -> (reply: String)
    ensures
        reply@ == outcome_text(subject, term, admission),
{
    match admission {
        Some(Admission::Admitted { generation, expiry }) => {
            let mut reply = String::new();
            reply.append("quarantined ");
            push_mention(&mut reply, subject);
            reply.append(" for ");
            push_decimal(&mut reply, term.seconds as u128);
            reply.append("s");
            assert(reply@ =~= quarantined_text(subject, term.seconds));
            reply
        },
        Some(Admission::Rejected { remaining }) => {
            let mut reply = String::new();
            push_mention(&mut reply, subject);
            reply.append(" already quarantined, ");
            push_decimal(&mut reply, remaining);
            reply.append("s left");
            assert(reply@ =~= already_text(subject, remaining));
            reply
        },
        _ => "quarantine failed".to_owned(),
    }
}

/// Carries out a jail command after the attempt to apply the roles.
/// Where the attempt failed the registry is left alone. Otherwise the
/// registry admits, supersedes or rejects, and an admission comes with the
/// release to schedule. The reply says what came of the command and warns
/// of a clamped term. Where no generation is left for a free subject, the
/// roles are to be taken off again.
pub fn jail(registry: &mut Registry, subject: u64, term: Term, now: u64, applied: bool) -> (report:
    JailReport)
    requires
        old(registry).wf(),
    ensures
        final(registry).wf(),
        final(registry)@ == after_jail(old(registry)@, subject, term, now, applied),
        report.admission == jail_admission(old(registry)@, subject, term, now, applied),
        report.reply@ == jail_reply(subject, term, report.admission),
        report.release == jail_release(subject, term, report.admission),
        report.revoke == jail_revoke(old(registry)@, subject, report.admission),
{
    let free = registry.lookup(subject).is_none();
    let admission = if applied {
        Some(registry.admit_or_supersede(subject, now, term.seconds))
    } else {
        None
    };
    let mut reply = outcome_reply(subject, term, admission);
    if term.clamped {
        reply.append("\n");
        reply.append("term too long, clamped to ");
        push_decimal(&mut reply, TERM_MAX as u128);
        reply.append("s");
        assert(reply@ =~= outcome_text(subject, term, admission) + "\n"@ + clamped_text());
    }
    let release = match admission {
        Some(Admission::Admitted { generation, expiry }) => Some(
            Release { subject, generation, delay: term.seconds },
        ),
        _ => None,
    };
    let revoke = match admission {
        Some(Admission::Unavailable) => free,
        _ => false,
    };
    JailReport { admission, reply, release, revoke }
}

/// The registry after a release of `subject`: a release that asks for a
/// generation ends the episode only if it is of that generation; one that
/// asks for none ends it whatever its generation.
pub open spec fn after_unjail(state: RegistryState, subject: u64, jail_id: Option<u64>)
    -> RegistryState {
    match jail_id {
        Some(generation) => if state.is_current(subject, generation) {
            state.without(subject)
        } else {
            state
        },
        None => state.without(subject),
    }
}

/// Whether the roles are to be stripped after a release of `subject`: for
/// a release that asks for a generation, where it ended the episode; for
/// one that asks for none, where it ended an episode or the subject is
/// still marked.
pub open spec fn unjail_strips(
    state: RegistryState,
    subject: u64,
    jail_id: Option<u64>,
    marked: bool,
) -> bool {
    match jail_id {
        Some(generation) => state.is_current(subject, generation),
        None => marked || state.episodes.dom().contains(subject),
    }
}

/// Releases a subject and says whether the roles are to be stripped. With
/// `jail_id` this is the release that was scheduled for the episode of
/// that generation: it ends the episode if that is still the one, and
/// does nothing at all where the episode was superseded or ended before.
/// Without, it is the unjail command: it ends the subject's episode
/// whatever its generation, and the roles are stripped wherever an
/// episode was ended or the subject is still marked.
pub fn unjail(registry: &mut Registry, subject: u64, jail_id: Option<u64>, marked: bool) -> (strip:
    bool)
    requires
        old(registry).wf(),
    ensures
        final(registry).wf(),
        final(registry)@ == after_unjail(old(registry)@, subject, jail_id),
        strip == unjail_strips(old(registry)@, subject, jail_id, marked),
{
    match jail_id {
        Some(generation) => registry.release_if_current(subject, generation),
        None => {
            let episode = registry.release_unconditional(subject);
            marked || episode.is_some()
        },
    }
}

/// Runs a release that has come due: ends the episode if it is still of
/// the release's generation, and says whether the roles are to be
/// stripped. A superseded release changes nothing.
pub fn release_due(registry: &mut Registry, release: Release) -> (strip: bool)
    requires
        old(registry).wf(),
    ensures
        final(registry).wf(),
        strip == old(registry)@.is_current(release.subject, release.generation),
        final(registry)@ == after_unjail(old(registry)@, release.subject, Some(release.generation)),
{
    unjail(registry, release.subject, Some(release.generation), false)
}

/// The notice after the attempt to strip the roles.
pub fn release_notice(subject: u64, stripped: bool) -> (text: String)
    ensures
        text@ == if stripped {
            released_text(subject)
        } else {
            "release failed"@
        },
{
    if stripped {
        let mut text = String::new();
        text.append("released ");
        push_mention(&mut text, subject);
        assert(text@ =~= released_text(subject));
        text
    } else {
        "release failed".to_owned()
    }
}

/// The sweep at startup: every member that carries a quarantine role is
/// released from the registry, whatever the registry holds. Returns those
/// subjects in the order of `members`; the roles of each are to be
/// stripped.
pub fn amnesty(registry: &mut Registry, members: &Vec<Member>, roles: QuarantineRoleSet) -> (freed:
    Vec<u64>)
    requires
        old(registry).wf(),
    ensures
        final(registry).wf(),
        freed@ == marked_among(members@, roles),
        final(registry)@ == without_each(old(registry)@, freed@),
{
    let mut freed: Vec<u64> = Vec::new();
    let mut i: usize = 0;
    assert(members@.take(0) =~= Seq::<Member>::empty());
    assert(registry@.episodes =~= without_each(old(registry)@, freed@).episodes);
    while i < members.len()
        invariant
            i <= members.len(),
            registry.wf(),
            freed@ == marked_among(members@.take(i as int), roles),
            registry@ == without_each(old(registry)@, freed@),
        decreases members.len() - i,
    {
        let ghost before = freed@;
        assert(members@.take(i + 1).drop_last() =~= members@.take(i as int));
        if roles.is_marked(&members[i].roles) {
            let subject = members[i].subject;
            registry.release_unconditional(subject);
            freed.push(subject);
            assert forall|s: u64| freed@.contains(s) <==> (before.contains(s) || s == subject) by {
                if before.contains(s) {
                    let k = choose|k: int| 0 <= k < before.len() && before[k] == s;
                    assert(freed@[k] == s);
                }
                if s == subject {
                    assert(freed@[before.len() as int] == s);
                }
            }
            assert(registry@.episodes =~= without_each(old(registry)@, freed@).episodes);
        }
        i = i + 1;
    }
    assert(members@.take(i as int) =~= members@);
    freed
}

/// A jail command for a free subject, with the roles applied, creates
/// its episode with the expiry `now` plus the term, says so, and
/// schedules the one release of that generation after the term.
pub proof fn lemma_jail_of_free_subject(state: RegistryState, subject: u64, term: Term, now: u64)
    requires
        state.wf(),
        state.episode_of(subject) is None,
        state.can_admit(),
    ensures
        jail_admission(state, subject, term, now, true) == Some(
            Admission::Admitted {
                generation: (state.issued + 1) as u64,
                expiry: (now + term.seconds) as u128,
            },
        ),
        after_jail(state, subject, term, now, true).episode_of(subject) == Some(
            Episode {
                subject,
                generation: (state.issued + 1) as u64,
                expiry: (now + term.seconds) as u128,
            },
        ),
        jail_release(subject, term, jail_admission(state, subject, term, now, true)) == Some(
            Release { subject, generation: (state.issued + 1) as u64, delay: term.seconds },
        ),
        outcome_text(subject, term, jail_admission(state, subject, term, now, true))
            == quarantined_text(subject, term.seconds),
{
}

/// A jail command for a subject whose episode lasts at least as long as
/// the term changes nothing in the registry, schedules nothing, and
/// answers that the subject is quarantined already, with the rest of its
/// term.
pub proof fn lemma_jail_of_longer_quarantined(
    state: RegistryState,
    subject: u64,
    term: Term,
    now: u64,
)
    requires
        state.wf(),
        state.outlasts(subject, now, term.seconds),
    ensures
        after_jail(state, subject, term, now, true) == state,
        jail_release(subject, term, jail_admission(state, subject, term, now, true)) is None,
        outcome_text(subject, term, jail_admission(state, subject, term, now, true))
            == already_text(
            subject,
            remaining_at(state.episodes[subject].expiry, now) as u128,
        ),
{
}

/// A jail command whose roles could not be applied changes nothing,
/// schedules nothing and reports the failure.
pub proof fn lemma_jail_without_roles(state: RegistryState, subject: u64, term: Term, now: u64)
    ensures
        after_jail(state, subject, term, now, false) == state,
        jail_release(subject, term, jail_admission(state, subject, term, now, false)) is None,
        outcome_text(subject, term, jail_admission(state, subject, term, now, false))
            == "quarantine failed"@,
{
}

/// Once a longer request has superseded an episode, the release that was
/// scheduled for the old generation does nothing when it comes due: the
/// registry stays as it is and no roles are stripped, whether or not the
/// subject is marked.
pub proof fn lemma_superseded_release_does_nothing(
    state: RegistryState,
    subject: u64,
    term: Term,
    now: u64,
    marked: bool,
)
    requires
        state.wf(),
        state.episode_of(subject) matches Some(episode) && episode.expiry - now < term.seconds,
        state.can_admit(),
    ensures
        ({
            let old_generation = state.episodes[subject].generation;
            let after = after_jail(state, subject, term, now, true);
            &&& after.episodes[subject].generation == state.issued + 1
            &&& after.episodes[subject].generation > old_generation
            &&& after.episodes[subject].expiry == now + term.seconds
            &&& after_unjail(after, subject, Some(old_generation)) == after
            &&& !unjail_strips(after, subject, Some(old_generation), marked)
            &&& unjail_strips(after, subject, Some(after.episodes[subject].generation), marked)
        }),
{
}

/// A release that asks for another generation than the subject's, or for
/// a subject that is free, changes nothing and strips nothing.
pub proof fn lemma_stale_release_does_nothing(
    state: RegistryState,
    subject: u64,
    generation: u64,
    marked: bool,
)
    requires
        !state.is_current(subject, generation),
    ensures
        after_unjail(state, subject, Some(generation)) == state,
        !unjail_strips(state, subject, Some(generation), marked),
{
}

/// An unjail command clears the subject's episode whatever its
/// generation, and strips the roles wherever there was an episode.
pub proof fn lemma_unjail_clears(state: RegistryState, subject: u64, marked: bool)
    requires
        state.wf(),
    ensures
        after_unjail(state, subject, None).wf(),
        after_unjail(state, subject, None).episode_of(subject) is None,
        state.episode_of(subject) is Some ==> unjail_strips(state, subject, None, marked),
        marked ==> unjail_strips(state, subject, None, marked),
{
}

} // verus!
