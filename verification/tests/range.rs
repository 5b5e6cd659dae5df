use kosmos_downloader::client::range::{
    check_range_reply, has_strong_validator, is_strong_etag, parse_content_range,
    parse_content_range_total, parse_unsatisfied_total, range_request, validate_range_response,
    verification_end, ContentRange, SampleCheck,
};
use kosmos_downloader::client::{ClientError, HttpStatus};
use reqwest::header::{HeaderMap, CONTENT_LENGTH, CONTENT_RANGE, ETAG, LAST_MODIFIED};

#[test]
fn test_parse_content_range_total() {
    assert_eq!(
        parse_content_range_total(Some("bytes 0-0/10485760")),
        Some(10485760)
    );
    assert_eq!(
        parse_content_range_total(Some("bytes 100-200/5000")),
        Some(5000)
    );
    assert_eq!(parse_content_range_total(Some("bytes 0-0/*")), None);
    assert_eq!(parse_content_range_total(None), None);
}

#[test]
fn changed_range_total_takes_priority_over_shortened_end() {
    let mut headers = HeaderMap::new();
    for content_range in ["bytes 0-79/80", "bytes 0-99/120"] {
        headers.insert(CONTENT_RANGE, content_range.parse().unwrap());
        assert!(matches!(
            validate_range_response(&headers, 0, Some(99), Some(100), None),
            Err(ClientError::ContentChanged)
        ));
    }
    for content_range in ["bytes 0-79/100", "bytes 0-79/*"] {
        headers.insert(CONTENT_RANGE, content_range.parse().unwrap());
        assert!(matches!(
            validate_range_response(&headers, 0, Some(99), Some(100), None),
            Err(ClientError::InvalidRangeResponse(_))
        ));
    }
}

#[test]
fn range_headers_must_match_requested_bytes() {
    let mut headers = HeaderMap::new();
    assert!(validate_range_response(&headers, 2, Some(3), Some(8), None).is_err());
    headers.insert(CONTENT_RANGE, "bytes 2-3/8".parse().unwrap());
    headers.insert(CONTENT_LENGTH, "2".parse().unwrap());
    assert!(validate_range_response(&headers, 2, Some(3), Some(8), None).is_ok());
    headers.insert(ETAG, "\"v1\"".parse().unwrap());
    assert!(validate_range_response(&headers, 2, Some(3), Some(8), Some("\"v1\"")).is_ok());
    assert!(validate_range_response(&headers, 2, Some(3), Some(8), Some("\"v2\"")).is_err());
    let modified = "Wed, 16 Sep 2026 12:00:00 GMT";
    headers.insert(LAST_MODIFIED, modified.parse().unwrap());
    assert!(validate_range_response(&headers, 2, Some(3), Some(8), Some(modified)).is_ok());
    assert!(validate_range_response(
        &headers,
        2,
        Some(3),
        Some(8),
        Some("Thu, 17 Sep 2026 12:00:00 GMT")
    )
    .is_err());
    for invalid in [
        "items 2-3/8",
        "bytes 1-3/8",
        "bytes 2-4/8",
        "bytes 2-3/9",
        "bytes 2-3/*",
        "bytes 3-2/8",
        "bytes 2-3/3",
        "bytes 2-3/8 extra",
    ] {
        headers.insert(CONTENT_RANGE, invalid.parse().unwrap());
        assert!(
            validate_range_response(&headers, 2, Some(3), Some(8), None).is_err(),
            "{invalid}"
        );
    }
    headers.insert(CONTENT_RANGE, "bytes 2-3/8".parse().unwrap());
    for invalid in ["1", "3", "invalid"] {
        headers.insert(CONTENT_LENGTH, invalid.parse().unwrap());
        assert!(validate_range_response(&headers, 2, Some(3), Some(8), None).is_err());
    }
    headers.insert(
        CONTENT_RANGE,
        "bytes 0-18446744073709551615/*".parse().unwrap(),
    );
    headers.insert(CONTENT_LENGTH, "0".parse().unwrap());
    assert!(validate_range_response(&headers, 0, Some(u64::MAX), None, None).is_err());
}

#[test]
fn content_ranges_are_parsed_or_refused() {
    assert_eq!(
        parse_content_range("bytes 2-5/8"),
        Some(ContentRange { start: 2, end: 5, total: Some(8) })
    );
    assert_eq!(
        parse_content_range("bytes 2-5/*"),
        Some(ContentRange { start: 2, end: 5, total: None })
    );
    assert_eq!(parse_content_range("bytes 5-2/8"), None);
    assert_eq!(parse_content_range("bytes 2-8/8"), None);
    assert_eq!(parse_unsatisfied_total("bytes */8"), Some(8));
    assert_eq!(parse_unsatisfied_total("bytes 2-5/8"), None);
}

#[test]
fn only_strong_validators_are_sent_with_a_range() {
    assert!(is_strong_etag("\"v1\""));
    assert!(!is_strong_etag("W/\"v1\""));
    assert!(!is_strong_etag("unquoted"));
    assert!(has_strong_validator(Some("\"v1\"")));
    assert!(!has_strong_validator(Some("Wed, 16 Sep 2026 12:00:00 GMT")));
    assert!(!has_strong_validator(None));

    let strong = range_request(2, Some(5), Some("\"v1\""));
    assert_eq!(strong.range.as_deref(), Some("bytes=2-5"));
    assert_eq!(strong.if_range.as_deref(), Some("\"v1\""));
    let dated = range_request(2, None, Some("Wed, 16 Sep 2026 12:00:00 GMT"));
    assert_eq!(dated.range.as_deref(), Some("bytes=2-"));
    assert_eq!(dated.if_range, None, "an unproven date must not be sent as If-Range");
    assert_eq!(range_request(0, None, None).range, None);
}

#[test]
fn unsatisfied_ranges_tell_whether_the_file_changed() {
    let unsatisfied = HttpStatus::new(416).unwrap();
    for (content_range, changed) in
        [("bytes */7", true), ("bytes */8", false), ("bytes */invalid", false)]
    {
        let mut headers = HeaderMap::new();
        headers.insert(CONTENT_RANGE, content_range.parse().unwrap());
        match check_range_reply(unsatisfied, &headers, 2, Some(5), Some(8), None) {
            Err(ClientError::ContentChanged) => assert!(changed, "{content_range}"),
            Err(ClientError::BadStatus(status, _)) => {
                assert!(!changed, "{content_range}");
                assert_eq!(status.code(), 416);
            }
            other => panic!("{content_range}: {other:?}"),
        }
    }
    let mut headers = HeaderMap::new();
    headers.insert(CONTENT_RANGE, "bytes 2-5/8".parse().unwrap());
    let partial = HttpStatus::new(206).unwrap();
    assert!(check_range_reply(partial, &headers, 2, Some(5), Some(8), None).is_ok());
}

#[test]
fn samples_are_compared_byte_by_byte_and_in_full() {
    for (pieces, outcome) in [
        (vec!["ab", "cd"], "match"),
        (vec!["abXd"], "changed"),
        (vec!["ab"], "invalid"),
        (vec!["abcd", "e"], "invalid"),
    ] {
        let mut check = SampleCheck::new(b"abcd".to_vec());
        let mut result = Ok(());
        for piece in &pieces {
            result = check.accept(piece.as_bytes());
            if result.is_err() {
                break;
            }
        }
        if result.is_ok() {
            result = check.finish();
        }
        match outcome {
            "match" => assert!(result.is_ok()),
            "changed" => assert!(matches!(result, Err(ClientError::ContentChanged))),
            _ => assert!(matches!(result, Err(ClientError::InvalidRangeResponse(_)))),
        }
    }
    assert_eq!(verification_end(2, 4).unwrap(), 5);
    assert!(verification_end(u64::MAX, 2).is_err());
}
