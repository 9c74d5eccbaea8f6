//! # handan: judgment of an HTTP response
//!
//! *handan* is Japanese for *judgment*: the crate looks at what a server answered
//! and says which of a closed set of things happened, and how long to wait. It has
//! no async runtime and no HTTP client: it takes a `u16` and a `&str`, so one
//! judgment serves any client, or a status recovered from another tool's output.
//!
//! ```
//! use handan::judge;
//!
//! // A secondary rate limit: a 403 that is really a throttle.
//! let j = judge(403, Some("60"));
//! assert_eq!(j.verdict().to_string(), "throttled");
//! assert!(j.is_transient());
//!
//! // A genuine authorization failure, same status code.
//! assert_eq!(judge(403, None).verdict().to_string(), "unauthorized");
//! ```
//!
//! ## It classifies the status, never the situation
//!
//! The judgment is a reading of what the *protocol* said. Where a caller knows more
//! about the *situation*, it should override rather than defer. A `404` does not
//! prove absence on a private resource: some hosts answer `404` rather than `401`
//! there, so that a `401` does not disclose that the resource exists.
//! `Absent` is the safe *generic* reading of a `404`, not a proof.
//!
//! ## What it deliberately does not do
//!
//! It renders no error type and owns no retry loop.
//!
//! ## Layout
//!
//! - [`status`]: the status code and its classes
//! - [`verdict`]: the judgment
//! - [`advice`]: the `Retry-After` header
//! - [`calendar`]: dates as numbers of days
//! - [`text`]: words, numbers and letter case
//! - [`time`]: what is taken from the standard library's clock
//! - [`laws`]: what holds of the library as a whole
//! - [`meaning`]: what the answers are, in plain numbers and characters

pub mod advice;
pub mod calendar;
pub mod laws;
pub mod meaning;
pub mod status;
pub mod text;
pub mod time;
pub mod verdict;

pub use advice::{parse_retry_after, RetryAdvice};
pub use status::Status;
pub use verdict::{judge, judge_signalled, Judgment, Verdict};
