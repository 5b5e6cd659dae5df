use kosmos_downloader::client::filename::{
    clean_decoded, percent_bytes, sanitize_filename, suggested_name, urlencoding_decode,
};
use kosmos_downloader::client::metadata::{
    after_range_probe, check_url, head_outcome, probe_outcome, HeadOutcome,
};
use kosmos_downloader::client::{
    extract_filename, ClientError, HttpFault, HttpStatus, RemoteFileInfo,
};
use reqwest::header::{
    HeaderMap, HeaderValue, ACCEPT_RANGES, CONTENT_DISPOSITION, CONTENT_LENGTH, CONTENT_RANGE, ETAG,
    LAST_MODIFIED,
};

#[test]
fn test_extract_filename_from_url() {
    assert_eq!(
        extract_filename("https://example.com/files/archive.zip", None),
        "archive.zip"
    );
    assert_eq!(
        extract_filename("https://example.com/downloads/setup.exe?key=123", None),
        "setup.exe"
    );
    assert_eq!(
        extract_filename("https://example.com/spaced%20file%20name.pdf", None),
        "spaced file name.pdf"
    );
}

#[test]
fn decoded_names_are_plain_text_without_surrounding_spaces() {
    assert_eq!(
        extract_filename("https://example.com/%20caf%C3%A9.zip%20", None),
        "caf\u{e9}.zip"
    );
    assert_eq!(
        extract_filename("https://example.com/%e2%82%ac%F0%9F%98%80.bin", None),
        "\u{20ac}\u{1f600}.bin"
    );
    assert_eq!(
        extract_filename(
            "https://example.com/get",
            Some("attachment; filename*=UTF-8''%20na%C3%AFve.txt")
        ),
        "na\u{ef}ve.txt"
    );
}

#[test]
fn test_extract_filename_content_disposition() {
    let disp = "attachment; filename=\"report_2026.docx\"";
    assert_eq!(
        extract_filename("https://example.com/get", Some(disp)),
        "report_2026.docx"
    );

    let disp_unquoted = "attachment; filename=image.png; size=1234";
    assert_eq!(
        extract_filename("https://example.com/get", Some(disp_unquoted)),
        "image.png"
    );

    let disp_utf8 = "attachment; filename*=UTF-8''my%20data%20sheet.csv";
    assert_eq!(
        extract_filename("https://example.com/get", Some(disp_utf8)),
        "my data sheet.csv"
    );
}

#[test]
fn test_extract_filename_sanitization() {
    let disp = "attachment; filename=\"bad:file*name?.iso\"";
    assert_eq!(
        extract_filename("https://example.com/test", Some(disp)),
        "bad_file_name_.iso"
    );
}

#[test]
fn test_extract_filename_trailing_slash_and_reserved_names() {
    assert_eq!(
        extract_filename("https://example.com/files/archive.tar.gz/", None),
        "archive.tar.gz"
    );
    assert_eq!(extract_filename("https://example.com/nul", None), "_nul");
    assert_eq!(
        extract_filename("https://example.com/con.txt", None),
        "_con.txt"
    );
}

#[test]
fn metadata_headers_preserve_fields_and_handle_missing_values() {
    let url = "https://example.com/fallback.bin";
    let mut headers = HeaderMap::new();
    assert_eq!(
        RemoteFileInfo::from_headers(url, &headers),
        RemoteFileInfo {
            content_length: None,
            accepts_ranges: false,
            filename: "fallback.bin".into(),
            etag: None,
            last_modified: None,
        }
    );

    headers.insert(CONTENT_LENGTH, HeaderValue::from_static("64"));
    headers.insert(ACCEPT_RANGES, HeaderValue::from_static("Bytes"));
    headers.insert(
        CONTENT_DISPOSITION,
        HeaderValue::from_static("attachment; filename=report.zip"),
    );
    headers.insert(ETAG, HeaderValue::from_static("\"v1\""));
    headers.insert(
        LAST_MODIFIED,
        HeaderValue::from_static("Wed, 16 Sep 2026 12:00:00 GMT"),
    );
    assert_eq!(
        RemoteFileInfo::from_headers(url, &headers),
        RemoteFileInfo {
            content_length: Some(64),
            accepts_ranges: true,
            filename: "report.zip".into(),
            etag: Some("\"v1\"".into()),
            last_modified: Some("Wed, 16 Sep 2026 12:00:00 GMT".into()),
        }
    );

    headers.insert(CONTENT_LENGTH, HeaderValue::from_static("invalid"));
    headers.insert(ACCEPT_RANGES, HeaderValue::from_static("none"));
    headers.insert(
        CONTENT_DISPOSITION,
        HeaderValue::from_bytes(b"\xff").unwrap(),
    );
    headers.insert(ETAG, HeaderValue::from_bytes(b"\xff").unwrap());
    headers.insert(LAST_MODIFIED, HeaderValue::from_bytes(b"\xff").unwrap());
    let info = RemoteFileInfo::from_headers(url, &headers);
    assert_eq!(info.content_length, None);
    assert!(!info.accepts_ranges);
    assert_eq!(info.filename, "fallback.bin");
    assert_eq!(info.etag, None);
    assert_eq!(info.last_modified, None);

    for (value, expected) in [
        ("0", Some(0)),
        ("18446744073709551615", Some(u64::MAX)),
        ("18446744073709551616", None),
    ] {
        headers.insert(CONTENT_LENGTH, HeaderValue::from_static(value));
        assert_eq!(
            RemoteFileInfo::from_headers(url, &headers).content_length,
            expected
        );
    }
}

#[test]
fn resume_requires_matching_metadata_before_byte_verification() {
    let mut previous = RemoteFileInfo {
        content_length: Some(8),
        accepts_ranges: true,
        filename: "file.bin".into(),
        etag: Some("\"v1\"".into()),
        last_modified: None,
    };
    assert!(previous.resume_metadata_matches(&previous));
    let mut latest = previous.clone();
    latest.content_length = Some(9);
    assert!(!previous.resume_metadata_matches(&latest));
    latest.content_length = Some(8);
    latest.etag = Some("\"v2\"".into());
    assert!(!previous.resume_metadata_matches(&latest));
    latest.etag = None;
    assert!(!previous.resume_metadata_matches(&latest));
    for invalid in ["", "unquoted", "W/\"v1\"", "\"unclosed"] {
        previous.etag = Some(invalid.into());
        assert!(previous.resume_metadata_matches(&previous), "{invalid}");
    }
    previous.etag = None;
    assert!(previous.resume_metadata_matches(&previous));
    previous.last_modified = Some("Wed, 16 Sep 2026 12:00:00 GMT".into());
    assert!(previous.resume_metadata_matches(&previous));
    previous.etag = Some("W/\"v1\"".into());
    latest = previous.clone();
    latest.etag = Some("W/\"v2\"".into());
    assert!(!previous.resume_metadata_matches(&latest));
    previous.etag = None;
    latest = previous.clone();
    latest.last_modified = Some("Thu, 17 Sep 2026 12:00:00 GMT".into());
    assert!(!previous.resume_metadata_matches(&latest));
}

#[test]
fn percent_escapes_are_decoded_and_invalid_ones_kept() {
    assert_eq!(percent_bytes(b"a%20b%2"), b"a b%2");
    assert_eq!(percent_bytes(b"%zz%C3%A9"), b"%zz\xc3\xa9");
    assert_eq!(urlencoding_decode("caf%C3%A9+au"), "caf\u{e9}+au");
    assert_eq!(urlencoding_decode("bad%ff"), "bad\u{fffd}");
    assert_eq!(urlencoding_decode("%41%c3%A9%25"), "A\u{e9}%");
}

#[test]
fn names_from_the_url_or_the_header_are_cleaned() {
    assert_eq!(suggested_name(Some("/a/b%20c.bin"), None).as_deref(), Some("b%20c.bin"));
    assert_eq!(
        suggested_name(Some("/a/b.bin"), Some("attachment; filename=\"c.bin\"")).as_deref(),
        Some("c.bin")
    );
    assert_eq!(clean_decoded("dir/part<1>.bin"), "dir_part_1_.bin");
    assert_eq!(sanitize_filename("a/b\\c|d"), "a_b_c_d");
    assert_eq!(sanitize_filename("trailing. ."), "trailing.");
    assert_eq!(sanitize_filename("COM1.log"), "_COM1.log");
    let unusable = extract_filename("no url at all", None);
    assert!(!unusable.is_empty());
    assert_eq!(extract_filename("https://example.com/", None), unusable);
}

#[test]
fn only_web_addresses_are_requested() {
    assert!(check_url("https://example.com/a").is_ok());
    assert!(check_url("http://example.com").is_ok());
    match check_url("not a url") {
        Err(error) => {
            assert!(matches!(error, ClientError::InvalidUrl(_)));
            assert!(!error.is_retryable());
            assert!(!error.is_content_changed());
        }
        Ok(()) => panic!("an address without a scheme must be rejected"),
    }
}

#[test]
fn a_failed_head_request_falls_back_to_the_first_byte() {
    let headers = HeaderMap::new();
    assert!(matches!(
        head_outcome("https://example.com/a.bin", None, &headers),
        HeadOutcome::Fallback
    ));
    assert!(matches!(
        head_outcome("https://example.com/a.bin", HttpStatus::new(405), &headers),
        HeadOutcome::Fallback
    ));

    let mut described = HeaderMap::new();
    described.insert(CONTENT_LENGTH, HeaderValue::from_static("10"));
    let info = match head_outcome("https://example.com/a.bin", HttpStatus::new(200), &described) {
        HeadOutcome::ProbeRanges(info) => info,
        _ => panic!("unstated range support has to be probed"),
    };
    assert!(!info.accepts_ranges);
    assert!(after_range_probe(info.clone(), HttpStatus::new(206)).accepts_ranges);
    assert!(!after_range_probe(info.clone(), HttpStatus::new(200)).accepts_ranges);
    assert!(!after_range_probe(info, None).accepts_ranges);

    described.insert(ACCEPT_RANGES, HeaderValue::from_static("bytes"));
    assert!(matches!(
        head_outcome("https://example.com/a.bin", HttpStatus::new(200), &described),
        HeadOutcome::Done(info) if info.accepts_ranges && info.content_length == Some(10)
    ));
}

#[test]
fn the_reply_to_the_first_byte_describes_the_file() {
    let mut headers = HeaderMap::new();
    headers.insert(CONTENT_LENGTH, HeaderValue::from_static("1"));
    headers.insert(CONTENT_RANGE, HeaderValue::from_static("bytes 0-0/512"));
    let partial = HttpStatus::new(206).unwrap();
    let info = probe_outcome("https://example.com/a.bin", partial, &headers).unwrap();
    assert!(info.accepts_ranges);
    assert_eq!(info.content_length, Some(512));

    let missing = HttpStatus::new(404).unwrap();
    match probe_outcome("https://example.com/a.bin", missing, &headers) {
        Err(ClientError::BadStatus(status, _)) => assert_eq!(status.code(), 404),
        _ => panic!("a missing file is an error"),
    }
}

#[test]
fn statuses_are_named_and_classified() {
    let unavailable = HttpStatus::new(503).unwrap();
    assert_eq!(unavailable.text(), "503 Service Unavailable");
    assert!(unavailable.is_server_error());
    assert!(!unavailable.is_success());
    assert_eq!(HttpStatus::new(299).unwrap().text(), "299 <unknown status code>");
    assert!(HttpStatus::new(99).is_none());
    assert!(HttpStatus::new(1000).is_none());
}

fn fault() -> HttpFault {
    HttpFault {
        message: "connection refused".into(),
        builder: false,
        decode: false,
        connect: false,
        timeout: false,
        request: false,
        body: false,
    }
}

#[test]
fn transport_failures_are_retried_where_that_can_help() {
    let mut connect = fault();
    connect.connect = true;
    assert!(connect.is_retryable_request_error());
    let mut builder = fault();
    builder.builder = true;
    assert!(!builder.is_retryable_request_error());
    let mut body = fault();
    body.body = true;
    assert!(body.is_retryable_body_error());
    assert!(ClientError::Http(connect).is_retryable());
    assert!(ClientError::BadStatus(HttpStatus::new(500).unwrap(), "u".into()).is_retryable());
    assert!(!ClientError::BadStatus(HttpStatus::new(404).unwrap(), "u".into()).is_retryable());
    assert!(ClientError::ContentChanged.is_content_changed());
    assert!(!ClientError::ContentChanged.is_retryable());
}

#[test]
fn a_matching_description_keeps_its_strong_validator() {
    let info = RemoteFileInfo {
        content_length: Some(8),
        accepts_ranges: true,
        filename: "file.bin".into(),
        etag: Some("\"v1\"".into()),
        last_modified: None,
    };
    assert_eq!(info.resume_validator(), Some("\"v1\""));
    assert!(info.uses_range_workers());
    assert_eq!(info.copy(), info);
    let mut weak = info.clone();
    weak.etag = Some("W/\"v1\"".into());
    weak.last_modified = Some("Wed, 16 Sep 2026 12:00:00 GMT".into());
    assert_eq!(weak.resume_validator(), Some("Wed, 16 Sep 2026 12:00:00 GMT"));
    weak.content_length = None;
    assert!(!weak.uses_range_workers());
}
