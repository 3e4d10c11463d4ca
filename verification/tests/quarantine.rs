use udamanami::quarantine::{
    amnesty, jail, plan_jail, release_due, release_notice, unjail, JailPlan, Member,
    QuarantineRoleSet, Release,
};
use udamanami::registry::{Admission, Episode, Registry};
use udamanami::term::{resolve_term, Term, TermError, TermRequest};

const A: u64 = 114941315417899012;
const B: u64 = 7;

fn term_of(request: TermRequest) -> Term {
    match plan_jail(A, request) {
        JailPlan::ApplyRoles { subject, term } => {
            assert_eq!(subject, A);
            term
        }
        JailPlan::Reply { text, .. } => panic!("no term: {}", text),
    }
}

#[test]
fn default_term_is_released_when_due() {
    let mut registry = Registry::new();
    let term = term_of(TermRequest::Default);
    assert_eq!(term, Term { seconds: 15, clamped: false });
    let report = jail(&mut registry, A, term, 0, true);
    assert_eq!(report.admission, Some(Admission::Admitted { generation: 1, expiry: 15 }));
    assert_eq!(report.reply, "quarantined <@114941315417899012> for 15s");
    assert_eq!(report.release, Some(Release { subject: A, generation: 1, delay: 15 }));
    assert_eq!(registry.lookup(A), Some(Episode { subject: A, generation: 1, expiry: 15 }));
    let release = report.release.unwrap();
    assert!(release_due(&mut registry, release));
    assert_eq!(registry.lookup(A), None);
    assert_eq!(release_notice(A, true), "released <@114941315417899012>");
}

#[test]
fn longer_term_supersedes_and_orphans_the_release() {
    let mut registry = Registry::new();
    let first = jail(&mut registry, A, term_of(TermRequest::Evaluated(10)), 0, true);
    assert_eq!(first.admission, Some(Admission::Admitted { generation: 1, expiry: 10 }));
    let second = jail(&mut registry, A, term_of(TermRequest::Evaluated(30)), 2, true);
    assert_eq!(second.admission, Some(Admission::Admitted { generation: 2, expiry: 32 }));
    assert_eq!(registry.lookup(A), Some(Episode { subject: A, generation: 2, expiry: 32 }));
    assert!(!release_due(&mut registry, first.release.unwrap()));
    assert_eq!(registry.lookup(A), Some(Episode { subject: A, generation: 2, expiry: 32 }));
    assert!(release_due(&mut registry, second.release.unwrap()));
    assert_eq!(registry.lookup(A), None);
}

#[test]
fn long_term_is_clamped_with_a_warning() {
    let mut registry = Registry::new();
    let term = term_of(TermRequest::Evaluated(999999));
    assert_eq!(term, Term { seconds: 3600, clamped: true });
    let report = jail(&mut registry, A, term, 100, true);
    assert_eq!(report.admission, Some(Admission::Admitted { generation: 1, expiry: 3700 }));
    assert_eq!(
        report.reply,
        "quarantined <@114941315417899012> for 3600s\nterm too long, clamped to 3600s"
    );
    assert_eq!(registry.lookup(A).unwrap().expiry, 3700);
}

#[test]
fn negative_term_plans_no_role_call() {
    assert_eq!(resolve_term(TermRequest::Evaluated(-5)), Err(TermError::TermNegative));
    let registry = Registry::new();
    assert_eq!(
        plan_jail(A, TermRequest::Evaluated(-5)),
        JailPlan::Reply { error: TermError::TermNegative, text: "刑期が負だよ".to_string() }
    );
    assert_eq!(registry.lookup(A), None);
    assert_eq!(registry.last_generation(), 0);
}

#[test]
fn amnesty_frees_marked_member_of_empty_registry() {
    let mut registry = Registry::new();
    let roles = QuarantineRoleSet { mark: 1305240882923962451, main: 1305228980697305119 };
    let members = vec![
        Member { subject: A, roles: vec![5, 6] },
        Member { subject: B, roles: vec![5, 1305228980697305119] },
    ];
    let freed = amnesty(&mut registry, &members, roles);
    assert_eq!(freed, vec![B]);
    assert_eq!(release_notice(B, true), "released <@7>");
    assert_eq!(registry.lookup(B), None);
}

#[test]
fn amnesty_ends_episodes_of_marked_members_only() {
    let mut registry = Registry::new();
    jail(&mut registry, A, Term { seconds: 50, clamped: false }, 0, true);
    jail(&mut registry, B, Term { seconds: 50, clamped: false }, 0, true);
    jail(&mut registry, 9, Term { seconds: 50, clamped: false }, 0, true);
    let roles = QuarantineRoleSet { mark: 1, main: 2 };
    let members = vec![
        Member { subject: 9, roles: vec![2] },
        Member { subject: A, roles: vec![] },
        Member { subject: B, roles: vec![3, 1] },
        Member { subject: 11, roles: vec![1, 2] },
    ];
    assert_eq!(amnesty(&mut registry, &members, roles), vec![9, B, 11]);
    assert_eq!(registry.lookup(9), None);
    assert_eq!(registry.lookup(B), None);
    assert_eq!(registry.lookup(A), Some(Episode { subject: A, generation: 1, expiry: 50 }));
}

#[test]
fn role_set_marks_either_role() {
    let roles = QuarantineRoleSet { mark: 1, main: 2 };
    assert!(roles.is_marked(&vec![4, 1]));
    assert!(roles.is_marked(&vec![2]));
    assert!(!roles.is_marked(&vec![3, 4]));
    assert!(!roles.is_marked(&vec![]));
}

#[test]
fn failed_role_call_leaves_registry_alone() {
    let mut registry = Registry::new();
    let report = jail(&mut registry, A, Term { seconds: 15, clamped: false }, 0, false);
    assert_eq!(report.admission, None);
    assert_eq!(report.reply, "quarantine failed");
    assert_eq!(report.release, None);
    assert_eq!(registry.lookup(A), None);
    assert_eq!(registry.last_generation(), 0);
}

#[test]
fn shorter_or_equal_request_is_rejected() {
    let mut registry = Registry::new();
    jail(&mut registry, A, Term { seconds: 30, clamped: false }, 0, true);
    let equal = jail(&mut registry, A, Term { seconds: 25, clamped: false }, 5, true);
    assert_eq!(equal.admission, Some(Admission::Rejected { remaining: 25 }));
    assert_eq!(equal.reply, "<@114941315417899012> already quarantined, 25s left");
    assert_eq!(equal.release, None);
    let shorter = jail(&mut registry, A, Term { seconds: 3, clamped: false }, 5, true);
    assert_eq!(shorter.admission, Some(Admission::Rejected { remaining: 25 }));
    assert_eq!(registry.lookup(A), Some(Episode { subject: A, generation: 1, expiry: 30 }));
    assert_eq!(registry.last_generation(), 1);
}

#[test]
fn expired_episode_is_superseded_by_any_request() {
    let mut registry = Registry::new();
    jail(&mut registry, A, Term { seconds: 10, clamped: false }, 0, true);
    let zero = jail(&mut registry, A, Term { seconds: 0, clamped: false }, 20, true);
    assert_eq!(zero.admission, Some(Admission::Admitted { generation: 2, expiry: 20 }));
    assert_eq!(zero.release, Some(Release { subject: A, generation: 2, delay: 0 }));
    let one = jail(&mut registry, A, Term { seconds: 1, clamped: false }, 25, true);
    assert_eq!(one.admission, Some(Admission::Admitted { generation: 3, expiry: 26 }));
}

#[test]
fn episode_at_its_expiry_outlasts_a_request_of_nothing() {
    let mut registry = Registry::new();
    jail(&mut registry, A, Term { seconds: 10, clamped: false }, 0, true);
    let zero = jail(&mut registry, A, Term { seconds: 0, clamped: false }, 10, true);
    assert_eq!(zero.admission, Some(Admission::Rejected { remaining: 0 }));
    assert_eq!(zero.reply, "<@114941315417899012> already quarantined, 0s left");
    let one = jail(&mut registry, A, Term { seconds: 1, clamped: false }, 10, true);
    assert_eq!(one.admission, Some(Admission::Admitted { generation: 2, expiry: 11 }));
    let same = jail(&mut registry, A, Term { seconds: 1, clamped: false }, 10, true);
    assert_eq!(same.admission, Some(Admission::Rejected { remaining: 1 }));
    let more = jail(&mut registry, A, Term { seconds: 2, clamped: false }, 10, true);
    assert_eq!(more.admission, Some(Admission::Admitted { generation: 3, expiry: 12 }));
}

#[test]
fn generations_are_shared_by_all_subjects() {
    let mut registry = Registry::new();
    let mut last = 0;
    for subject in [A, B, A, 9, B] {
        let now = last * 100;
        match registry.admit_or_supersede(subject, now, 60 + last) {
            Admission::Admitted { generation, expiry } => {
                assert_eq!(generation, last + 1);
                assert_eq!(expiry, (now + 60 + last) as u128);
                last = generation;
            }
            other => panic!("not admitted: {:?}", other),
        }
    }
    assert_eq!(registry.last_generation(), 5);
}

#[test]
fn expiry_is_exact_at_the_end_of_the_clock() {
    let mut registry = Registry::new();
    let report = jail(&mut registry, A, Term { seconds: 15, clamped: false }, u64::MAX - 3, true);
    assert_eq!(
        report.admission,
        Some(Admission::Admitted { generation: 1, expiry: u64::MAX as u128 + 12 })
    );
    assert_eq!(report.release, Some(Release { subject: A, generation: 1, delay: 15 }));
    assert!(!report.revoke);
    assert_eq!(
        registry.admit_or_supersede(B, u64::MAX, u64::MAX),
        Admission::Admitted { generation: 2, expiry: 2 * (u64::MAX as u128) }
    );
    assert_eq!(
        registry.admit_or_supersede(B, 0, u64::MAX),
        Admission::Rejected { remaining: 2 * (u64::MAX as u128) }
    );
}

#[test]
fn unjail_clears_whatever_the_generation() {
    let mut registry = Registry::new();
    jail(&mut registry, A, Term { seconds: 10, clamped: false }, 0, true);
    jail(&mut registry, A, Term { seconds: 100, clamped: false }, 1, true);
    assert!(unjail(&mut registry, A, None, false));
    assert_eq!(registry.lookup(A), None);
    assert!(!unjail(&mut registry, A, None, false));
    assert!(unjail(&mut registry, A, None, true));
    assert_eq!(release_notice(A, false), "release failed");
}

#[test]
fn release_of_a_free_subject_does_nothing() {
    let mut registry = Registry::new();
    assert!(!registry.release_if_current(A, 1));
    assert_eq!(registry.release_unconditional(A), None);
    jail(&mut registry, A, Term { seconds: 10, clamped: false }, 0, true);
    assert!(!registry.release_if_current(B, 1));
    assert_eq!(
        registry.release_unconditional(A),
        Some(Episode { subject: A, generation: 1, expiry: 10 })
    );
}

#[test]
fn terms_resolve() {
    assert_eq!(resolve_term(TermRequest::Default), Ok(Term { seconds: 15, clamped: false }));
    assert_eq!(resolve_term(TermRequest::Unevaluable), Err(TermError::TermInvalid));
    assert_eq!(resolve_term(TermRequest::Evaluated(0)), Ok(Term { seconds: 0, clamped: false }));
    assert_eq!(
        resolve_term(TermRequest::Evaluated(3600)),
        Ok(Term { seconds: 3600, clamped: false })
    );
    assert_eq!(
        resolve_term(TermRequest::Evaluated(3601)),
        Ok(Term { seconds: 3600, clamped: true })
    );
    assert_eq!(
        resolve_term(TermRequest::Evaluated(i64::MAX)),
        Ok(Term { seconds: 3600, clamped: true })
    );
    assert_eq!(resolve_term(TermRequest::Evaluated(-1)), Err(TermError::TermNegative));
    assert_eq!(resolve_term(TermRequest::Evaluated(i64::MIN)), Err(TermError::TermNegative));
}

#[test]
fn clamp_warning_follows_every_outcome() {
    let mut registry = Registry::new();
    let clamped = Term { seconds: 3600, clamped: true };
    let failed = jail(&mut registry, A, clamped, 0, false);
    assert_eq!(failed.reply, "quarantine failed\nterm too long, clamped to 3600s");
    jail(&mut registry, A, clamped, 0, true);
    let rejected = jail(&mut registry, A, clamped, 0, true);
    assert_eq!(rejected.admission, Some(Admission::Rejected { remaining: 3600 }));
    assert_eq!(
        rejected.reply,
        "<@114941315417899012> already quarantined, 3600s left\nterm too long, clamped to 3600s"
    );
    assert_eq!(rejected.release, None);
}

#[test]
fn invalid_term_plans_no_role_call() {
    assert_eq!(
        plan_jail(A, TermRequest::Unevaluable),
        JailPlan::Reply { error: TermError::TermInvalid, text: "term invalid".to_string() }
    );
    assert_eq!(TermError::TermInvalid.text(), "term invalid");
    assert_eq!(TermError::TermNegative.text(), "刑期が負だよ");
    assert_ne!(
        plan_jail(A, TermRequest::Unevaluable),
        plan_jail(A, TermRequest::Evaluated(i64::MIN))
    );
    assert_eq!(
        plan_jail(B, TermRequest::Evaluated(0)),
        JailPlan::ApplyRoles { subject: B, term: Term { seconds: 0, clamped: false } }
    );
}

#[test]
fn evaluations_make_requests() {
    assert_eq!(TermRequest::from_evaluation(None), TermRequest::Default);
    assert_eq!(TermRequest::from_evaluation(Some(None)), TermRequest::Unevaluable);
    assert_eq!(TermRequest::from_evaluation(Some(Some(-5))), TermRequest::Evaluated(-5));
}

#[test]
fn roles_stay_where_a_generation_was_left() {
    let mut registry = Registry::new();
    let admitted = jail(&mut registry, A, Term { seconds: 15, clamped: false }, 0, true);
    assert!(!admitted.revoke);
    let rejected = jail(&mut registry, A, Term { seconds: 15, clamped: false }, 0, true);
    assert!(!rejected.revoke);
    let failed = jail(&mut registry, B, Term { seconds: 15, clamped: false }, 0, false);
    assert!(!failed.revoke);
}

#[test]
fn release_with_a_generation_ends_only_that_episode() {
    let mut registry = Registry::new();
    jail(&mut registry, A, Term { seconds: 10, clamped: false }, 0, true);
    jail(&mut registry, A, Term { seconds: 30, clamped: false }, 2, true);
    assert!(!unjail(&mut registry, A, Some(1), true));
    assert_eq!(registry.lookup(A), Some(Episode { subject: A, generation: 2, expiry: 32 }));
    assert!(!unjail(&mut registry, B, Some(2), true));
    assert!(unjail(&mut registry, A, Some(2), false));
    assert_eq!(registry.lookup(A), None);
    assert!(!unjail(&mut registry, A, Some(2), true));
}
