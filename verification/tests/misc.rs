use ipwned::misc::{shard_prefix, status_text, DownloadError, DownloadStatus, MAX_COUNT, NOT_MODIFIED};

#[test]
fn shard_prefix_has_five_upper_case_digits() {
    assert_eq!(shard_prefix(0), "00000");
    assert_eq!(shard_prefix(0x0ABCD), "0ABCD");
    assert_eq!(shard_prefix(0xFFFFF), "FFFFF");
    assert_eq!(shard_prefix(0x1F), "0001F");
    assert_eq!(shard_prefix(MAX_COUNT), "FFFFF");
}

#[test]
fn shard_prefix_agrees_with_std_formatting() {
    let ids: [u32; 12] = [
        0, 1, 9, 10, 15, 16, 0xFFFF, 0x10000, 0xFFFFF, 0x100000, 0x1234567, 0xFFFFFFFF,
    ];
    for id in ids {
        assert_eq!(shard_prefix(id), format!("{:0>5X}", id));
    }
}

#[test]
fn max_count_is_the_last_shard() {
    assert_eq!(MAX_COUNT, 1_048_575);
    assert_eq!(MAX_COUNT, 16_u32.pow(5) - 1);
}

#[test]
fn status_text_is_decimal() {
    assert_eq!(status_text(0), "0");
    assert_eq!(status_text(7), "7");
    assert_eq!(status_text(10), "10");
    assert_eq!(status_text(304), "304");
    assert_eq!(status_text(1000), "1000");
    assert_eq!(status_text(65535), "65535");
    assert_eq!(status_text(40004), "40004");
}

#[test]
fn download_error_message() {
    let with_status = DownloadError { status_code: Some(503) };
    assert_eq!(with_status.message(), "Failed to download hash list. HTTP status: 503");
    let without = DownloadError { status_code: None };
    assert_eq!(
        without.message(),
        "Failed to download hash list. HTTP status: connection error"
    );
}

#[test]
fn download_error_not_modified() {
    assert_eq!(NOT_MODIFIED, 304);
    assert!(DownloadError::from_status(Some(304)).is_not_modified());
    assert!(!DownloadError::from_status(Some(200)).is_not_modified());
    assert!(!DownloadError::from_status(Some(0)).is_not_modified());
    assert!(!DownloadError::from_status(None).is_not_modified());
    assert_eq!(DownloadError::from_status(Some(404)).status_code, Some(404));
}

#[test]
fn download_error_from_request_error_without_response() {
    let error = reqwest::Client::new().get("no address").build().unwrap_err();
    assert_eq!(DownloadError::from(error), DownloadError { status_code: None });
}

#[test]
fn download_error_from_header_that_is_no_text() {
    let value = reqwest::header::HeaderValue::from_bytes(b"\xff").unwrap();
    let error = value.to_str().unwrap_err();
    assert_eq!(DownloadError::from(error), DownloadError { status_code: None });
}

#[test]
fn download_status_variants_differ() {
    assert_ne!(DownloadStatus::Skipped(), DownloadStatus::NotOutdated());
    assert_ne!(
        DownloadStatus::InternalError(),
        DownloadStatus::HTTPError(DownloadError { status_code: None })
    );
}

#[test]
fn download_error_from_request_error_with_response() {
    let answer = http::Response::builder().status(503).body("").unwrap();
    let error = reqwest::Response::from(answer).error_for_status().unwrap_err();
    assert_eq!(DownloadError::from(error), DownloadError { status_code: Some(503) });
    let answer = http::Response::builder().status(404).body("").unwrap();
    let error = reqwest::Response::from(answer).error_for_status().unwrap_err();
    assert_eq!(DownloadError::from(error).status_code, Some(404));
}
