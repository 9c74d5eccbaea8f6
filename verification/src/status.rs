//! The status code itself, as a type rather than a bare `u16`.

use crate::text::{self, decimal_string};
use core::cmp::Ordering;
use vstd::prelude::*;

verus! {

/// `2xx`.
pub open spec fn success_code(code: u16) -> bool {
    200 <= code < 300
}

/// `4xx`.
pub open spec fn client_error_code(code: u16) -> bool {
    400 <= code < 500
}

/// `5xx`.
pub open spec fn server_error_code(code: u16) -> bool {
    500 <= code < 600
}

/// The codes after which an identical request, sent later, could plausibly succeed.
pub open spec fn transient_code(code: u16) -> bool {
    code == 408 || code == 429 || code == 500 || code == 502 || code == 503 || code == 504
}

/// An HTTP response status code.
///
/// A newtype rather than a bare `u16`, which offers no vocabulary for asking what
/// it *means*. The predicates below are that vocabulary.
#[derive(Debug, Clone, Copy, PartialEq, Eq, Ord, Hash, Structural)]
pub struct Status(u16);

impl View for Status {
    type V = u16;

    closed spec fn view(&self) -> u16 {
        self.0
    }
}

impl Status {
    /// Wrap a raw code.
    #[must_use]
    pub fn new(code: u16) -> (status: Self)
        ensures
            status@ == code,
    {
        Self(code)
    }

    /// The raw code.
    #[must_use]
    pub fn code(self) -> (code: u16)
        ensures
            code == self@,
    {
        self.0
    }

    /// `2xx`.
    #[must_use]
    pub fn is_success(self) -> (b: bool)
        ensures
            b == success_code(self@),
            b == (200 <= self@ <= 299),
    {
        self.0 >= 200 && self.0 < 300
    }

    /// `4xx`.
    #[must_use]
    pub fn is_client_error(self) -> (b: bool)
        ensures
            b == client_error_code(self@),
            b == (400 <= self@ <= 499),
    {
        self.0 >= 400 && self.0 < 500
    }

    /// `5xx`.
    #[must_use]
    pub fn is_server_error(self) -> (b: bool)
        ensures
            b == server_error_code(self@),
            b == (500 <= self@ <= 599),
    {
        self.0 >= 500 && self.0 < 600
    }

    /// `429 Too Many Requests`.
    #[must_use]
    pub fn is_rate_limited(self) -> (b: bool)
        ensures
            b == (self@ == 429),
    {
        self.0 == 429
    }

    /// Whether an identical request, sent later, could plausibly succeed.
    ///
    /// An explicit set, and not every `5xx`: `501 Not Implemented` and
    /// `505 HTTP Version Not Supported` are *permanent* refusals, so retrying them
    /// is waste that also consumes attempts which a genuinely transient failure
    /// needed. `408 Request Timeout` is the one `4xx` whose entire meaning is "try
    /// again".
    #[must_use]
    pub fn is_transient(self) -> (b: bool)
        ensures
            b == transient_code(self@),
            b == (self@ == 408 || self@ == 429 || self@ == 500 || self@ == 502 || self@ == 503
                || self@ == 504),
    {
        matches!(self.0, 408 | 429 | 500 | 502 | 503 | 504)
    }

    /// The code in decimal.
    #[must_use]
    pub fn to_string(&self) -> (s: String)
        ensures
            s@ == text::decimal(self@ as nat),
    {
        decimal_string(self.0 as u64)
    }
}

impl From<u16> for Status {
    fn from(code: u16) -> (status: Self)
        ensures
            status@ == code,
    {
        Self(code)
    }
}

impl vstd::std_specs::convert::FromSpecImpl<u16> for Status {
    open spec fn obeys_from_spec() -> bool {
        true
    }

    closed spec fn from_spec(code: u16) -> Self {
        Self(code)
    }
}

impl PartialOrd for Status {
    fn partial_cmp(&self, other: &Self) -> (order: Option<Ordering>) {
        if self.0 < other.0 {
            Some(Ordering::Less)
        } else if self.0 == other.0 {
            Some(Ordering::Equal)
        } else {
            Some(Ordering::Greater)
        }
    }
}

impl vstd::std_specs::cmp::PartialOrdSpecImpl for Status {
    open spec fn obeys_partial_cmp_spec() -> bool {
        true
    }

    open spec fn partial_cmp_spec(&self, other: &Self) -> Option<Ordering> {
        if self@ < other@ {
            Some(Ordering::Less)
        } else if self@ == other@ {
            Some(Ordering::Equal)
        } else {
            Some(Ordering::Greater)
        }
    }
}

/// Converting from a code gives the one status that has it, which is also the one that
/// [`Status::new`] gives.
pub proof fn conversion_wraps_the_code(status: Status)
    ensures
        <Status as vstd::std_specs::convert::FromSpec<u16>>::from_spec(status@) == status,
{
}

/// A status is its code: two statuses with the same code are the same status, and
/// statuses are ordered by code.
pub proof fn statuses_are_their_codes(a: Status, b: Status)
    ensures
        a == b <==> a@ == b@,
        vstd::std_specs::cmp::PartialOrdSpec::partial_cmp_spec(&a, &b) == Some(Ordering::Less)
            <==> a@ < b@,
        vstd::std_specs::cmp::PartialOrdSpec::partial_cmp_spec(&a, &b) == Some(Ordering::Equal)
            <==> a == b,
        vstd::std_specs::cmp::PartialOrdSpec::partial_cmp_spec(&a, &b) == Some(Ordering::Greater)
            <==> a@ > b@,
{
}

} // verus!
