//! Pagination arithmetic and the retry rule shared by all providers.

use vstd::prelude::*;

verus! {

/// Clamps `page_size` to the range `[1, max]`.
pub fn clamp_page_size(page_size: usize, max: usize) -> (r: usize)
    requires
        max >= 1,
    ensures
        r == (if page_size < 1 {
            1
        } else if page_size > max {
            max
        } else {
            page_size
        }),
{
    if page_size < 1 {
        1
    } else if page_size > max {
        max
    } else {
        page_size
    }
}

/// Converts a 1-based cursor page into a 0-based item offset.
pub fn page_to_offset(cursor_page: usize, page_size: usize) -> (r: usize)
    requires
        (if cursor_page == 0 { 0 } else { cursor_page - 1 }) * page_size <= usize::MAX,
    ensures
        r == (if cursor_page == 0 { 0 } else { cursor_page - 1 }) * page_size,
{
    let p: usize = if cursor_page == 0 {
        0
    } else {
        cursor_page - 1
    };
    p * page_size
}

/// The longest wait a `Duration` holds, in whole milliseconds
/// (`u64::MAX` seconds and 999 milliseconds).
pub const MAX_DELAY_MS: u128 = 18446744073709551615999;

/// What to do after a "429 Too Many Requests" answer.
#[derive(Debug, Clone, Copy, PartialEq, Eq, Structural)]
pub enum RetryStep {
    /// No attempts are left: the rate-limit error is returned.
    GiveUp,
    /// Sleep `sleep_ms` milliseconds and try again; the following wait
    /// (without a server hint) is `next_delay_ms`.
    Wait { sleep_ms: u128, next_delay_ms: u128 },
}

/// The wait before the next attempt: the server's `Retry-After` seconds
/// plus one second when given, else the current delay.
pub open spec fn retry_wait_ms(delay_ms: u128, retry_after_secs: Option<u64>) -> int {
    match retry_after_secs {
        Some(s) => (s + 1) * 1000,
        None => delay_ms as int,
    }
}

/// The retry rule for rate-limited requests: the last attempt gives up;
/// otherwise the server's `Retry-After` seconds (plus one second) replace
/// the current delay, the request sleeps that long, and the delay doubles.
/// A wait whose double no `Duration` can hold is not asked for.
pub fn retry_after_rate_limit(
    attempt: u32,
    max_retries: u32,
    delay_ms: u128,
    retry_after_secs: Option<u64>,
) -> (r: RetryStep)
    requires
        attempt < max_retries ==> (retry_after_secs matches Some(s) ==> s < u64::MAX),
        attempt < max_retries ==> retry_wait_ms(delay_ms, retry_after_secs) * 2 <= MAX_DELAY_MS,
    ensures
        attempt >= max_retries ==> r == RetryStep::GiveUp,
        attempt < max_retries ==> r == (RetryStep::Wait {
            sleep_ms: retry_wait_ms(delay_ms, retry_after_secs) as u128,
            next_delay_ms: (retry_wait_ms(delay_ms, retry_after_secs) * 2) as u128,
        }),
{
    if attempt >= max_retries {
        return RetryStep::GiveUp;
    }
    let d: u128 = match retry_after_secs {
        Some(s) => ((s + 1) as u128) * 1000,
        None => delay_ms,
    };
    RetryStep::Wait { sleep_ms: d, next_delay_ms: d * 2 }
}

} // verus!
