//! Fetching one shard: what a response comes to, and when a failed fetch is
//! tried again.
//!
//! The request itself is the caller's. A fetch asks for the address of the
//! shard and, where the state store holds an ETag for it, sends that along so
//! that the remote can answer that nothing has changed.

use vstd::prelude::*;
use vstd::arithmetic::power2::{lemma2_to64, lemma_pow2_strictly_increases, lemma_pow2_unfold, pow2};
use crate::misc::DownloadError;

verus! {

/// The status of a response that carries a body.
pub const HTTP_OK: u16 = 200;

/// Milliseconds to wait after the first failed attempt.
pub const FIRST_DELAY_MILLIS: u64 = 500;

/// The body of a shard and the ETag that came with it.
#[derive(Clone, Debug)]
pub struct DownloadResult {
    pub data: Vec<u8>,
    pub etag: Option<String>,
}

/// The address of a shard: the base address with the text of the shard
/// identifier behind it.
pub fn shard_url(base_url: &str, prefix: &str) -> (url: String)
    ensures
        url@ == base_url@ + prefix@,
{
    let mut url = String::from_str(base_url);
    url.append(prefix);
    url
}

/// Whether a response with this status carries the body of the shard. For
/// every other status the body is not read.
pub fn check_status(status: u16) -> (r: Result<(), DownloadError>)
    ensures
        status == HTTP_OK ==> r is Ok,
        status != HTTP_OK ==> r == Err::<(), DownloadError>(
            DownloadError { status_code: Some(status) },
        ),
{
    if status == HTTP_OK {
        Ok(())
    } else {
        Err(DownloadError { status_code: Some(status) })
    }
}

/// What a response comes to: its body and ETag where the status is 200, an
/// error with the status otherwise.
pub fn download_remote_hashlist(status: u16, etag: Option<String>, body: Vec<u8>) -> (r: Result<
    DownloadResult,
    DownloadError,
>)
    ensures
        status == HTTP_OK ==> r == Ok::<DownloadResult, DownloadError>(
            DownloadResult { data: body, etag },
        ),
        status != HTTP_OK ==> r == Err::<DownloadResult, DownloadError>(
            DownloadError { status_code: Some(status) },
        ),
{
    match check_status(status) {
        Ok(_) => Ok(DownloadResult { data: body, etag }),
        Err(error) => Err(error),
    }
}

/// Milliseconds to wait after `failed` attempts in a row have failed, before
/// the next: 500 after the first, and twice as long after each further one.
pub open spec fn backoff_millis(failed: nat) -> nat {
    if failed == 0 {
        0
    } else {
        FIRST_DELAY_MILLIS as nat * pow2((failed - 1) as nat)
    }
}

/// Each delay is twice the one before.
pub proof fn lemma_backoff_doubles(failed: nat)
    requires
        failed >= 1,
    ensures
        backoff_millis(1) == 500,
        backoff_millis(failed + 1) == 2 * backoff_millis(failed),
{
    lemma2_to64();
    lemma_pow2_unfold(failed);
    assert(500 * (2 * pow2((failed - 1) as nat)) == 2 * (500 * pow2((failed - 1) as nat)))
        by (nonlinear_arith);
}

/// The delay as far as a `u64` holds it: the largest such number where the
/// delay is longer.
pub open spec fn capped_backoff_millis(failed: nat) -> nat {
    if backoff_millis(failed) <= u64::MAX {
        backoff_millis(failed)
    } else {
        u64::MAX as nat
    }
}

/// Milliseconds to wait after `failed` attempts in a row have failed; the
/// largest number that fits where the delay does not.
pub fn backoff(failed: u16) -> (millis: u64)
    ensures
        millis == capped_backoff_millis(failed as nat),
{
    if failed == 0 {
        return 0;
    }
    let mut millis: u64 = FIRST_DELAY_MILLIS;
    let mut done: u16 = 1;
    proof {
        lemma2_to64();
    }
    while done < failed
        invariant
            1 <= done <= failed,
            millis == backoff_millis(done as nat),
        decreases failed - done,
    {
        proof {
            lemma_backoff_doubles(done as nat);
        }
        if millis > u64::MAX / 2 {
            proof {
                if done + 1 < failed {
                    lemma_pow2_strictly_increases(done as nat, (failed - 1) as nat);
                    assert(500 * pow2(done as nat) <= 500 * pow2((failed - 1) as nat))
                        by (nonlinear_arith)
                        requires
                            pow2(done as nat) < pow2((failed - 1) as nat),
                    ;
                }
            }
            return u64::MAX;
        }
        millis = millis * 2;
        done += 1;
    }
    millis
}

/// How far the fetch of one shard has come.
#[derive(Clone, Copy, Debug, PartialEq, Eq, Structural)]
pub struct Retry {
    /// The largest number of attempts.
    pub max_retries: u16,
    /// The number of attempts that have ended.
    pub attempts: u16,
}

/// What is to be done next for the fetch of one shard.
#[derive(Debug)]
pub enum RetryStep {
    /// Send the request.
    Attempt,
    /// Wait so many milliseconds, then send the request.
    Wait { millis: u64 },
    /// The fetch has ended, with this result.
    Done(Result<DownloadResult, DownloadError>),
}

impl Retry {
    /// Whether no more attempts were counted than are allowed.
    pub open spec fn wf(self) -> bool {
        self.attempts <= self.max_retries
    }

    /// Whether a further attempt is allowed.
    pub open spec fn may_attempt(self) -> bool {
        self.attempts < self.max_retries
    }

    /// A fetch of which no attempt has ended, with `max_retries` attempts
    /// allowed.
    pub fn new(max_retries: u16) -> (retry: Retry)
        ensures
            retry.max_retries == max_retries,
            retry.attempts == 0,
            retry.wf(),
    {
        Retry { max_retries, attempts: 0 }
    }

    /// The first step: an attempt, or the end without one where none is
    /// allowed.
    pub fn start(&self) -> (step: RetryStep)
        ensures
            self.max_retries > 0 ==> step is Attempt,
            self.max_retries == 0 ==> step == RetryStep::Done(
                Err(DownloadError { status_code: None }),
            ),
    {
        if self.max_retries > 0 {
            RetryStep::Attempt
        } else {
            RetryStep::Done(Err(DownloadError { status_code: None }))
        }
    }
}

/// The step after an attempt has ended with `result`. A body ends the
/// fetch, and so does the answer that nothing has changed: it is never
/// tried again. Any other failure is tried again after a delay, unless
/// the allowed attempts are used up: then it ends the fetch.
pub fn download_retry(retry: &mut Retry, result: Result<DownloadResult, DownloadError>) -> (step:
    RetryStep)
    ensures
        final(retry).max_retries == old(retry).max_retries,
        final(retry).attempts == if old(retry).may_attempt() {
            old(retry).attempts + 1
        } else {
            old(retry).attempts as int
        },
        old(retry).wf() ==> final(retry).wf(),
        match result {
            Ok(_) => step == RetryStep::Done(result),
            Err(error) => if error.not_modified() || !final(retry).may_attempt() {
                step == RetryStep::Done(result)
            } else {
                step == (RetryStep::Wait {
                    millis: capped_backoff_millis(final(retry).attempts as nat) as u64,
                })
            },
        },
{
    if retry.attempts < retry.max_retries {
        retry.attempts += 1;
    }
    match result {
        Ok(found) => RetryStep::Done(Ok(found)),
        Err(error) => {
            if error.is_not_modified() || retry.attempts >= retry.max_retries {
                RetryStep::Done(Err(error))
            } else {
                RetryStep::Wait { millis: backoff(retry.attempts) }
            }
        },
    }
}

} // verus!
