use ipwned::downloader::{
    backoff, check_status, download_remote_hashlist, download_retry, shard_url, DownloadResult, Retry, RetryStep,
    FIRST_DELAY_MILLIS, HTTP_OK,
};
use ipwned::misc::DownloadError;

fn body() -> Result<DownloadResult, DownloadError> {
    Ok(DownloadResult { data: vec![1, 2, 3], etag: Some(String::from("\"abc\"")) })
}

fn failure(status: Option<u16>) -> Result<DownloadResult, DownloadError> {
    Err(DownloadError { status_code: status })
}

#[test]
fn url_is_base_and_prefix() {
    assert_eq!(
        shard_url("https://api.pwnedpasswords.com/range/", "0ABCD"),
        "https://api.pwnedpasswords.com/range/0ABCD"
    );
    assert_eq!(shard_url("", ""), "");
}

#[test]
fn only_status_200_carries_a_body() {
    assert_eq!(HTTP_OK, 200);
    assert_eq!(check_status(200), Ok(()));
    assert_eq!(check_status(304), Err(DownloadError { status_code: Some(304) }));
    assert_eq!(check_status(404), Err(DownloadError { status_code: Some(404) }));
    assert_eq!(check_status(201), Err(DownloadError { status_code: Some(201) }));
    assert_eq!(check_status(0), Err(DownloadError { status_code: Some(0) }));
}

#[test]
fn response_with_body() {
    let found = download_remote_hashlist(200, Some(String::from("W/\"tag\"")), vec![7, 8]).unwrap();
    assert_eq!(found.data, vec![7, 8]);
    assert_eq!(found.etag, Some(String::from("W/\"tag\"")));
    let bare = download_remote_hashlist(200, None, Vec::new()).unwrap();
    assert!(bare.data.is_empty());
    assert_eq!(bare.etag, None);
}

#[test]
fn response_without_body() {
    let error = download_remote_hashlist(304, Some(String::from("x")), Vec::new()).unwrap_err();
    assert_eq!(error.status_code, Some(304));
    let error = download_remote_hashlist(500, None, vec![1]).unwrap_err();
    assert_eq!(error.status_code, Some(500));
}

#[test]
fn delays_start_at_half_a_second_and_double() {
    assert_eq!(FIRST_DELAY_MILLIS, 500);
    assert_eq!(backoff(0), 0);
    assert_eq!(backoff(1), 500);
    assert_eq!(backoff(2), 1000);
    assert_eq!(backoff(3), 2000);
    assert_eq!(backoff(10), 256_000);
}

#[test]
fn delay_stops_at_the_largest_number() {
    assert_eq!(backoff(56), 500 * (1u64 << 55));
    assert_eq!(backoff(57), u64::MAX);
    assert_eq!(backoff(58), u64::MAX);
    assert_eq!(backoff(u16::MAX), u64::MAX);
}

#[test]
fn no_attempt_where_none_is_allowed() {
    let retry = Retry::new(0);
    match retry.start() {
        RetryStep::Done(Err(error)) => assert_eq!(error.status_code, None),
        other => panic!("unexpected step {:?}", other),
    }
}

#[test]
fn body_ends_the_fetch() {
    let mut retry = Retry::new(10);
    assert!(matches!(retry.start(), RetryStep::Attempt));
    match download_retry(&mut retry, body()) {
        RetryStep::Done(Ok(found)) => {
            assert_eq!(found.data, vec![1, 2, 3]);
            assert_eq!(found.etag, Some(String::from("\"abc\"")));
        }
        other => panic!("unexpected step {:?}", other),
    }
    assert_eq!(retry.attempts, 1);
}

#[test]
fn not_modified_is_never_tried_again() {
    let mut retry = Retry::new(10);
    match download_retry(&mut retry, failure(Some(304))) {
        RetryStep::Done(Err(error)) => assert_eq!(error.status_code, Some(304)),
        other => panic!("unexpected step {:?}", other),
    }
    assert_eq!(retry.attempts, 1);
}

#[test]
fn failures_are_tried_again_until_the_attempts_are_used_up() {
    let mut retry = Retry::new(4);
    let mut waits = Vec::new();
    let mut last = None;
    let mut attempts = 0;
    loop {
        attempts += 1;
        let result = if attempts % 2 == 0 { failure(None) } else { failure(Some(500)) };
        match download_retry(&mut retry, result) {
            RetryStep::Wait { millis } => waits.push(millis),
            RetryStep::Done(result) => {
                last = Some(result);
                break;
            }
            RetryStep::Attempt => panic!("an attempt without a delay"),
        }
    }
    assert_eq!(attempts, 4);
    assert_eq!(retry.attempts, 4);
    assert_eq!(waits, vec![500, 1000, 2000]);
    assert_eq!(last.unwrap().unwrap_err().status_code, None);
}

#[test]
fn single_attempt_is_not_followed_by_a_delay() {
    let mut retry = Retry::new(1);
    match download_retry(&mut retry, failure(Some(503))) {
        RetryStep::Done(Err(error)) => assert_eq!(error.status_code, Some(503)),
        other => panic!("unexpected step {:?}", other),
    }
}

#[test]
fn result_beyond_the_allowed_attempts_ends_the_fetch() {
    let mut retry = Retry { max_retries: 2, attempts: 2 };
    assert!(matches!(download_retry(&mut retry, failure(Some(500))), RetryStep::Done(Err(_))));
    assert_eq!(retry.attempts, 2);
}
