use handan::Status;

#[test]
fn classes_partition_the_space() {
    assert!(Status::new(200).is_success());
    assert!(Status::new(404).is_client_error());
    assert!(Status::new(503).is_server_error());
    // A class predicate must not claim a code outside its own range.
    for code in [200u16, 299, 404, 499, 500, 599] {
        let s = Status::new(code);
        let claimed = u8::from(s.is_success())
            + u8::from(s.is_client_error())
            + u8::from(s.is_server_error());
        assert_eq!(claimed, 1, "{code} was claimed by {claimed} classes");
    }
}

/// 501 and 505 are 5xx but are NOT retryable, so `is_transient` must not simply be
/// `is_server_error`.
#[test]
fn permanent_5xx_refusals_are_not_transient() {
    assert!(Status::new(501).is_server_error());
    assert!(!Status::new(501).is_transient(), "501 is a permanent refusal");
    assert!(!Status::new(505).is_transient(), "505 is a permanent refusal");
    // ...while the four transient 5xx still are.
    for code in [500u16, 502, 503, 504] {
        assert!(Status::new(code).is_transient(), "{code} must be transient");
    }
}

#[test]
fn the_one_transient_4xx_is_covered() {
    assert!(Status::new(408).is_transient());
    assert!(Status::new(429).is_transient());
    assert!(!Status::new(404).is_transient());
    assert!(!Status::new(403).is_transient());
}

#[test]
fn no_code_is_in_two_classes() {
    for code in 0u16..=u16::MAX {
        let s = Status::new(code);
        let claimed = u8::from(s.is_success())
            + u8::from(s.is_client_error())
            + u8::from(s.is_server_error());
        let expected = u8::from((200..300).contains(&code) || (400..600).contains(&code));
        assert_eq!(claimed, expected, "{code}");
    }
}

#[test]
fn only_429_is_rate_limited() {
    for code in 0u16..=u16::MAX {
        assert_eq!(Status::new(code).is_rate_limited(), code == 429, "{code}");
    }
}

#[test]
fn transient_codes_are_six() {
    let transient: Vec<u16> = (0u16..=u16::MAX)
        .filter(|code| Status::new(*code).is_transient())
        .collect();
    assert_eq!(transient, [408, 429, 500, 502, 503, 504]);
}

#[test]
fn a_status_wraps_its_code() {
    assert_eq!(Status::new(418).code(), 418);
    assert_eq!(Status::from(418), Status::new(418));
    let converted: Status = 503u16.into();
    assert_eq!(converted.code(), 503);
    assert!(Status::new(200) < Status::new(404));
}

#[test]
fn statuses_are_compared_by_code() {
    for a in (0u16..=u16::MAX).step_by(257) {
        assert_eq!(Status::from(a), Status::new(a));
        for b in (0u16..=u16::MAX).step_by(251) {
            let (x, y) = (Status::new(a), Status::new(b));
            assert_eq!(x.partial_cmp(&y), Some(a.cmp(&b)));
            assert_eq!(x.cmp(&y), a.cmp(&b));
            assert_eq!(x == y, a == b);
        }
    }
}

#[test]
fn a_status_renders_in_decimal() {
    assert_eq!(Status::new(0).to_string(), "0");
    assert_eq!(Status::new(7).to_string(), "7");
    assert_eq!(Status::new(404).to_string(), "404");
    assert_eq!(Status::new(u16::MAX).to_string(), "65535");
    for code in 0u16..=u16::MAX {
        assert_eq!(Status::new(code).to_string().parse(), Ok(code));
    }
}
