//! The judgment itself: which of a closed set of things the response said.

use crate::advice::{self, parse_retry_after, AdviceView, RetryAdvice};
use crate::status::{self, Status};
use crate::time;
use core::time::Duration;
use vstd::prelude::*;

verus! {

/// What a response *meant*, as a closed set.
///
/// An answer says *which* of these things happened, and no two of them are rendered
/// alike. Each has a *different remedy*, and a caller that holds a string cannot
/// branch on the remedy:
///
/// | verdict | remedy |
/// |---|---|
/// | `Success` | use the body |
/// | `Unchanged` | keep the cached copy |
/// | `Absent` | stop; the thing is not there |
/// | `Unauthorized` | stop; fix credentials, retrying cannot help |
/// | `Throttled` | wait (see the advice), or fetch the bytes by another way |
/// | `ServerError` | wait; the same request may succeed |
/// | `Other` | escalate with the code preserved |
///
/// `Throttled` is separate from `ServerError` even though both say "wait", because
/// only `Throttled` admits the second remedy: the upstream *has* the content and is
/// refusing to serve it to *us*.
#[derive(Debug, Clone, Copy, PartialEq, Eq, Hash, Structural)]
#[non_exhaustive]
pub enum Verdict {
    /// `2xx`: the request succeeded.
    Success,
    /// `304`: the caller's cached copy is still current.
    Unchanged,
    /// `404` / `410`: the resource is not there.
    ///
    /// A `404` does not prove absence on a private resource: a host may answer
    /// `404` rather than `401` there, so as not to disclose that the resource
    /// exists. This is the safe generic reading, and a caller that knows more
    /// should override it.
    Absent,
    /// `401` / `403` with no retry advice: the caller lacks authority.
    Unauthorized,
    /// `429`, or any status carrying retry advice: refused, but not forever.
    ///
    /// A status that has a meaning of its own keeps it beside its advice: `2xx`, `304`,
    /// `404`, `410` and `5xx` are judged as without.
    Throttled,
    /// `5xx`: the upstream broke.
    ServerError,
    /// Anything else. The code is preserved on the [`Judgment`].
    Other,
}

impl Verdict {
    /// The name under which a verdict is rendered.
    pub open spec fn name(self) -> Seq<char> {
        match self {
            Verdict::Success => "success"@,
            Verdict::Unchanged => "unchanged"@,
            Verdict::Absent => "absent"@,
            Verdict::Unauthorized => "unauthorized"@,
            Verdict::Throttled => "throttled"@,
            Verdict::ServerError => "server-error"@,
            Verdict::Other => "other"@,
        }
    }

    /// The name of the verdict.
    #[must_use]
    pub fn to_string(&self) -> (s: String)
        ensures
            s@ == self.name(),
    {
        let s: &str = match self {
            Verdict::Success => "success",
            Verdict::Unchanged => "unchanged",
            Verdict::Absent => "absent",
            Verdict::Unauthorized => "unauthorized",
            Verdict::Throttled => "throttled",
            Verdict::ServerError => "server-error",
            Verdict::Other => "other",
        };
        s.to_owned()
    }
}

/// The statuses that mean the same whether or not the server signals a temporary
/// refusal: success, an unchanged or an absent resource, and a broken upstream.
pub open spec fn settled_code(code: u16) -> bool {
    status::success_code(code) || code == 304 || code == 404 || code == 410
        || status::server_error_code(code)
}

/// The one classification rule: what a code means, given whether the server has
/// signalled that the refusal is temporary.
pub open spec fn verdict_of(code: u16, temporary_refusal_signalled: bool) -> Verdict {
    if status::success_code(code) {
        Verdict::Success
    } else if code == 304 {
        Verdict::Unchanged
    } else if code == 404 || code == 410 {
        Verdict::Absent
    } else if status::server_error_code(code) {
        Verdict::ServerError
    } else if code == 429 || temporary_refusal_signalled {
        Verdict::Throttled
    } else if code == 401 || code == 403 {
        Verdict::Unauthorized
    } else {
        Verdict::Other
    }
}

/// What a [`Judgment`] holds.
pub struct JudgmentView {
    /// The status code.
    pub code: u16,
    /// Which of the closed set happened.
    pub verdict: Verdict,
    /// The advice that was given, if any was.
    pub advice: Option<AdviceView>,
}

impl JudgmentView {
    /// Whether the verdict is one that the classification rule gives for the code,
    /// and the one it gives with the signal if there is advice.
    pub open spec fn consistent(self) -> bool {
        ||| self.verdict == verdict_of(self.code, true)
        ||| self.verdict == verdict_of(self.code, false) && self.advice is None
    }

    /// Whether sending the identical request later could plausibly succeed.
    pub open spec fn transient(self) -> bool {
        self.verdict == Verdict::Throttled || status::transient_code(self.code)
    }

    /// How long to wait, in nanoseconds, when it is `now` seconds after the Unix
    /// epoch, if the server said.
    pub open spec fn delay_nanos(self, now: int) -> Option<nat> {
        match self.advice {
            Some(advice) => Some(advice.delay_nanos(now)),
            None => None,
        }
    }
}

/// The advice that a `Retry-After` header gives, if it is there and can be read.
pub open spec fn header_advice(retry_after: Option<Seq<char>>) -> Option<AdviceView> {
    match retry_after {
        Some(value) => advice::advice_of(value),
        None => None,
    }
}

/// The judgment of a status code and a `Retry-After` header.
pub open spec fn judged(code: u16, retry_after: Option<Seq<char>>) -> JudgmentView {
    JudgmentView {
        code,
        verdict: verdict_of(code, header_advice(retry_after) is Some),
        advice: header_advice(retry_after),
    }
}

/// The judgment of a status code and an out-of-band signal.
pub open spec fn judged_signalled(code: u16, temporary_refusal_signalled: bool) -> JudgmentView {
    JudgmentView { code, verdict: verdict_of(code, temporary_refusal_signalled), advice: None }
}

/// The text of a header that may be there.
pub open spec fn header_text(retry_after: Option<&str>) -> Option<Seq<char>> {
    match retry_after {
        Some(value) => Some(value@),
        None => None,
    }
}

/// A status, its verdict, and the server's retry advice, as one value.
///
/// The fields are private on purpose. A `Judgment` can only be produced by [`judge`]
/// and [`judge_signalled`], so a value claiming `Success` while carrying
/// status `429` has no constructor: status and verdict cannot disagree.
#[derive(Debug, Clone, Copy, PartialEq, Eq)]
pub struct Judgment {
    status: Status,
    verdict: Verdict,
    advice: Option<RetryAdvice>,
}

impl View for Judgment {
    type V = JudgmentView;

    closed spec fn view(&self) -> JudgmentView {
        JudgmentView {
            code: self.status@,
            verdict: self.verdict,
            advice: advice::advice_view(self.advice),
        }
    }
}

impl Judgment {
    /// No judgment has a verdict that its status does not bear out.
    #[verifier::type_invariant]
    spec fn well_formed(self) -> bool {
        self@.consistent()
    }

    /// The raw status.
    #[must_use]
    pub fn status(&self) -> (status: Status)
        ensures
            status@ == self@.code,
            self@.consistent(),
    {
        proof {
            use_type_invariant(self);
        }
        self.status
    }

    /// Which of the closed set happened.
    #[must_use]
    pub fn verdict(&self) -> (verdict: Verdict)
        ensures
            verdict == self@.verdict,
            self@.consistent(),
    {
        proof {
            use_type_invariant(self);
        }
        self.verdict
    }

    /// The server's own advice, if it gave any and it was parseable.
    #[must_use]
    pub fn advice(&self) -> (advice: Option<RetryAdvice>)
        ensures
            advice::advice_view(advice) == self@.advice,
            self@.consistent(),
    {
        proof {
            use_type_invariant(self);
        }
        self.advice
    }

    /// Whether sending the identical request later could plausibly succeed.
    ///
    /// Not to be derived from the status alone: a `403` carrying `Retry-After` is
    /// judged `Throttled` and *is* retryable, while `403` is not in the transient
    /// status set.
    #[must_use]
    pub fn is_transient(&self) -> (b: bool)
        ensures
            b == self@.transient(),
            b == (self@.verdict == Verdict::Throttled || self@.code == 408 || self@.code == 429
                || self@.code == 500 || self@.code == 502 || self@.code == 503 || self@.code
                == 504),
    {
        matches!(self.verdict, Verdict::Throttled) || self.status.is_transient()
    }

    /// How long to wait before retrying, if the server said.
    ///
    /// `None` means *no advice was given*: the caller falls back to its own backoff.
    /// It does *not* mean "wait zero".
    #[must_use]
    pub fn delay_from(&self, now_unix_secs: u64) -> (delay: Option<Duration>)
        ensures
            match delay {
                Some(d) => self@.delay_nanos(now_unix_secs as int) == Some(time::duration_nanos(d)),
                None => self@.delay_nanos(now_unix_secs as int) is None,
            },
            match (delay, self@.advice) {
                (Some(d), Some(advice)) => time::duration_nanos(d) == advice.delay_nanos(
                    now_unix_secs as int,
                ),
                (None, None) => true,
                _ => false,
            },
    {
        match self.advice {
            Some(a) => Some(a.delay_from(now_unix_secs)),
            None => None,
        }
    }
}

/// Judge a response: status code plus the raw `Retry-After` header, if present.
///
/// Takes `u16` and `&str` rather than any HTTP library's types, so the same judgment
/// serves every client, or a status recovered from a subprocess.
///
/// The header is an input to the classification. A `403` means two entirely
/// different things depending on it, and the remedies are opposites: with
/// `Retry-After` it is a temporary refusal that a caller should wait out, and without
/// it a genuine authorization failure, where retrying is waste.
#[must_use]
pub fn judge(status: u16, retry_after: Option<&str>) -> (judgment: Judgment)
    ensures
        judgment@ == judged(status, header_text(retry_after)),
        judgment@.code == status,
        judgment@.advice == (match retry_after {
            Some(value) => advice::advice_of(value@),
            None => None,
        }),
        judgment@.verdict == verdict_of(status, judgment@.advice is Some),
{
    let advice: Option<RetryAdvice> = match retry_after {
        Some(value) => parse_retry_after(value),
        None => None,
    };
    Judgment {
        status: Status::new(status),
        verdict: classify(status, advice.is_some()),
        advice,
    }
}

/// Judge from a status plus an out-of-band signal that the refusal is temporary.
///
/// Use this when you have the *signal* but no parseable value: a `Retry-After` you
/// could not read, a vendor header, or a message recovered from another tool's
/// output. The header's only contribution to the *verdict* is whether the server
/// volunteered that it would serve this later; its value contributes to the *delay*,
/// which a caller with no header does not get.
#[must_use]
pub fn judge_signalled(status: u16, temporary_refusal_signalled: bool) -> (judgment: Judgment)
    ensures
        judgment@ == judged_signalled(status, temporary_refusal_signalled),
        judgment@.code == status,
        judgment@.advice is None,
        judgment@.verdict == verdict_of(status, temporary_refusal_signalled),
{
    Judgment {
        status: Status::new(status),
        verdict: classify(status, temporary_refusal_signalled),
        advice: None,
    }
}

/// The one classification rule, shared by both entry points.
fn classify(code: u16, temporary_refusal_signalled: bool) -> (verdict: Verdict)
    ensures
        verdict == verdict_of(code, temporary_refusal_signalled),
{
    let status: Status = Status::new(code);

    if status.is_success() {
        Verdict::Success
    } else if code == 304 {
        Verdict::Unchanged
    } else if matches!(code, 404 | 410) {
        Verdict::Absent
    } else if status.is_server_error() {
        Verdict::ServerError
    } else if status.is_rate_limited() || temporary_refusal_signalled {
        // On what is left, the signal decides.
        Verdict::Throttled
    } else if matches!(code, 401 | 403) {
        Verdict::Unauthorized
    } else {
        Verdict::Other
    }
}

} // verus!
