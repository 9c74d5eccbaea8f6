# handan

Judgment of an HTTP response: which of a closed set of things a server answered,
and how long to wait. A Verus library with no dependencies.

```rust
use handan::judge;

// A secondary rate limit: a 403 that is really a throttle.
let j = judge(403, Some("60"));
assert_eq!(j.verdict().to_string(), "throttled");
assert!(j.is_transient());

// A genuine authorization failure: the same status code.
assert_eq!(judge(403, None).verdict().to_string(), "unauthorized");
```

It takes a `u16` and a `&str`, so one judgment serves any HTTP client, or a status
recovered from another tool's output.

- `501` is not retryable. The transient statuses are an explicit set: `408`, `429`,
  `500`, `502`, `503`, `504`.
- `Retry-After` is read in both forms, delta-seconds and IMF-fixdate.
- The header takes part in the verdict, since a `403` means opposite things with and
  without it. Callers that hold the signal but no parseable value use
  `judge_signalled`.
- It classifies the status, never the situation: a `404` does not prove absence on a
  private resource.

## What is proved

Every function says in its contract exactly what it returns; of `delay_now`, which
reads the system clock, the contract says that some reading of a clock gives the
delay. `src/laws.rs` states what holds of the library as a whole, such as that every date written as RFC 9110
has it is read back, that no two verdicts are rendered alike, and that both entry
points agree. What is trusted is in `src/time.rs`: three functions of the standard
library's `Duration` and `SystemTime`, and the reading of the clock.

`Status` and `Verdict` are rendered by their method `to_string`.
