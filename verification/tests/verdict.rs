use core::time::Duration;
use handan::{judge, judge_signalled, RetryAdvice, Verdict};

#[test]
fn the_ordinary_categories() {
    assert_eq!(judge(200, None).verdict(), Verdict::Success);
    assert_eq!(judge(204, None).verdict(), Verdict::Success);
    assert_eq!(judge(304, None).verdict(), Verdict::Unchanged);
    assert_eq!(judge(404, None).verdict(), Verdict::Absent);
    assert_eq!(judge(410, None).verdict(), Verdict::Absent);
    assert_eq!(judge(401, None).verdict(), Verdict::Unauthorized);
    assert_eq!(judge(429, None).verdict(), Verdict::Throttled);
    assert_eq!(judge(500, None).verdict(), Verdict::ServerError);
    assert_eq!(judge(418, None).verdict(), Verdict::Other);
}

/// The distinction a status-only classifier structurally cannot make.
#[test]
fn a_403_with_retry_advice_is_a_throttle_not_an_auth_failure() {
    let secondary_limit = judge(403, Some("60"));
    assert_eq!(secondary_limit.verdict(), Verdict::Throttled);
    assert!(secondary_limit.is_transient(), "GitHub's secondary rate limit is retryable");

    let real_denial = judge(403, None);
    assert_eq!(real_denial.verdict(), Verdict::Unauthorized);
    assert!(!real_denial.is_transient(), "a genuine 403 must not be retried");
}

/// Distinct causes must not render the same bytes. Compared at a CONSTANT status where
/// that is meaningful, and across statuses otherwise.
#[test]
fn no_two_causes_render_the_same_verdict_bytes() {
    // Same status, different advice: different verdict.
    let a = judge(403, Some("60")).verdict().to_string();
    let b = judge(403, None).verdict().to_string();
    assert_ne!(a, b, "403±Retry-After must not render alike");

    // Every arm renders distinctly.
    let arms = [
        Verdict::Success,
        Verdict::Unchanged,
        Verdict::Absent,
        Verdict::Unauthorized,
        Verdict::Throttled,
        Verdict::ServerError,
        Verdict::Other,
    ];
    let mut seen = std::collections::HashSet::new();
    for arm in arms {
        assert!(seen.insert(arm.to_string()), "{arm:?} renders as an existing arm");
    }
    assert_eq!(seen.len(), 7, "an arm was added without a distinct rendering");
}

#[test]
fn advice_is_carried_through_in_both_forms() {
    assert_eq!(
        judge(429, Some("30")).advice(),
        Some(RetryAdvice::After(Duration::from_secs(30)))
    );
    assert_eq!(
        judge(503, Some("Sun, 06 Nov 1994 08:49:37 GMT")).advice(),
        Some(RetryAdvice::At {
            unix_secs: 784_111_777
        })
    );
    // Unparseable advice is *absent* advice, never a fabricated zero.
    assert_eq!(judge(429, Some("soon")).advice(), None);
    assert_eq!(judge(429, Some("soon")).delay_from(0), None);
}

/// A `429` with an unreadable header must still be judged a throttle: the
/// classification must not depend on the advice parsing.
#[test]
fn an_unreadable_header_does_not_downgrade_the_verdict() {
    let j = judge(429, Some("whenever"));
    assert_eq!(j.verdict(), Verdict::Throttled);
    assert!(j.is_transient());
    assert_eq!(j.advice(), None);
}

#[test]
fn transience_agrees_with_the_status_set_except_where_advice_overrides() {
    assert!(judge(503, None).is_transient());
    assert!(judge(408, None).is_transient());
    assert!(!judge(501, None).is_transient(), "501 is permanent");
    assert!(!judge(404, None).is_transient());
    assert!(!judge(200, None).is_transient());
}

/// `judge_signalled` must reach the same verdict as `judge` for every status, given the
/// same boolean.
#[test]
fn both_entry_points_agree_on_every_status() {
    for code in 100u16..600 {
        assert_eq!(
            judge_signalled(code, false).verdict(),
            judge(code, None).verdict(),
            "{code} disagreed with no signal"
        );
        assert_eq!(
            judge_signalled(code, true).verdict(),
            judge(code, Some("30")).verdict(),
            "{code} disagreed with a signal"
        );
    }
}

/// The out-of-band form must not invent advice it never received.
#[test]
fn a_signalled_judgment_carries_no_fabricated_advice() {
    let j = judge_signalled(403, true);
    assert_eq!(j.verdict(), Verdict::Throttled);
    assert!(j.is_transient());
    assert_eq!(j.advice(), None, "no header was read, so no advice may be reported");
    assert_eq!(j.delay_from(0), None);
}

#[test]
fn a_judgment_cannot_be_built_inconsistently() {
    // There is no public constructor other than the two entry points, so the status
    // and verdict cannot disagree.
    let j = judge(429, None);
    assert_eq!(j.status().code(), 429);
    assert_eq!(j.verdict(), Verdict::Throttled);
}

#[test]
fn every_verdict_renders_under_its_name() {
    assert_eq!(Verdict::Success.to_string(), "success");
    assert_eq!(Verdict::Unchanged.to_string(), "unchanged");
    assert_eq!(Verdict::Absent.to_string(), "absent");
    assert_eq!(Verdict::Unauthorized.to_string(), "unauthorized");
    assert_eq!(Verdict::Throttled.to_string(), "throttled");
    assert_eq!(Verdict::ServerError.to_string(), "server-error");
    assert_eq!(Verdict::Other.to_string(), "other");
}

#[test]
fn the_signal_decides_on_statuses_that_are_not_settled() {
    for code in 0u16..=u16::MAX {
        let settled = matches!(code, 200..=299 | 304 | 404 | 410 | 500..=599);
        let bare = judge_signalled(code, false).verdict();
        let signalled = judge_signalled(code, true).verdict();
        assert_eq!(signalled, if settled { bare } else { Verdict::Throttled }, "{code}");
    }
    // Any other status that carries advice is a throttle.
    let teapot = judge(418, Some("60"));
    assert_eq!(teapot.verdict(), Verdict::Throttled);
    assert!(teapot.is_transient());
    assert_eq!(teapot.delay_from(0), Some(Duration::from_secs(60)));
    assert_eq!(judge(418, Some("soon")).verdict(), Verdict::Other);
    // A server error stays one, with its advice beside it.
    let busy = judge(503, Some("30"));
    assert_eq!(busy.verdict(), Verdict::ServerError);
    assert_eq!(busy.delay_from(0), Some(Duration::from_secs(30)));
    assert_eq!(judge(200, Some("30")).verdict(), Verdict::Success);
}

#[test]
fn an_unreadable_header_is_judged_as_no_header() {
    for code in 0u16..=999 {
        assert_eq!(judge(code, Some("soon")), judge(code, None), "{code}");
    }
}

#[test]
fn advice_makes_every_status_retryable_that_is_not_settled() {
    for code in 0u16..=999 {
        let settled = matches!(code, 200..=299 | 304 | 404 | 410 | 500..=599);
        let expected = judge(code, None).is_transient() || !settled;
        assert_eq!(judge(code, Some("1")).is_transient(), expected, "{code}");
    }
}

#[test]
fn codes_outside_every_class_are_other() {
    for code in [0u16, 100, 199, 300, 301, 307, 400, 405, 418, 499, 600, 999, u16::MAX] {
        assert_eq!(judge(code, None).verdict(), Verdict::Other, "{code}");
        assert_eq!(judge(code, None).status().code(), code);
    }
}

#[test]
fn a_judgment_resolves_its_date_against_the_clock() {
    let j = judge(503, Some("Sun, 06 Nov 1994 08:49:37 GMT"));
    assert_eq!(j.delay_from(784_111_677), Some(Duration::from_secs(100)));
    assert_eq!(j.delay_from(784_111_777), Some(Duration::ZERO));
    assert_eq!(j.delay_from(u64::MAX), Some(Duration::ZERO));
    assert_eq!(judge(503, None).delay_from(0), None);
}
