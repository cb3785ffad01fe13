//! Wall-clock time.
use vstd::prelude::*;

verus! {

#[verifier::external_type_specification]
#[verifier::external_body]
pub struct ExSystemTime(std::time::SystemTime);

#[verifier::external_type_specification]
#[verifier::external_body]
pub struct ExSystemTimeError(std::time::SystemTimeError);

/// `std::time::SystemTime::now`. Nothing is promised of the time.
#[verifier::external_body]
fn system_now() -> (out: std::time::SystemTime) {
    std::time::SystemTime::now()
}

/// What `std::time::SystemTime::duration_since` the Unix epoch returns: the
/// time from the epoch to `time`, or an error where `time` lies before it.
pub uninterp spec fn since_unix_epoch(time: std::time::SystemTime) -> Result<
    std::time::Duration,
    std::time::SystemTimeError,
>;

/// What `std::time::Duration::as_secs` returns.
pub uninterp spec fn seconds_of(span: std::time::Duration) -> u64;

/// The whole seconds of a time since the Unix epoch, zero before the epoch.
pub open spec fn seconds_or_zero(
    since: Result<std::time::Duration, std::time::SystemTimeError>,
) -> u64 {
    match since {
        Ok(span) => seconds_of(span),
        Err(_) => 0,
    }
}

/// The Unix timestamp of `time`, zero before the epoch.
pub open spec fn unix_timestamp(time: std::time::SystemTime) -> u64 {
    seconds_or_zero(since_unix_epoch(time))
}

/// `std::time::SystemTime::duration_since` the Unix epoch; an error where
/// the time lies before it. The result depends on the time alone.
#[verifier::external_body]
fn since_epoch(time: std::time::SystemTime) -> (out: Result<
    std::time::Duration,
    std::time::SystemTimeError,
>)
    ensures
        out == since_unix_epoch(time),
{
    time.duration_since(std::time::UNIX_EPOCH)
}

/// `std::time::Duration::as_secs`: the whole seconds. The result depends on
/// the span alone.
#[verifier::external_body]
fn whole_seconds(span: std::time::Duration) -> (out: u64)
    ensures
        out == seconds_of(span),
{
    span.as_secs()
}

/// The whole seconds of a time since the Unix epoch, zero where the clock
/// stands before it.
fn epoch_seconds(since: Result<std::time::Duration, std::time::SystemTimeError>) -> (out: u64)
    ensures
        out == seconds_or_zero(since),
{
    match since {
        Ok(span) => whole_seconds(span),
        Err(_) => 0,
    }
}

/// Seconds since the Unix epoch, or zero where the clock stands before it:
/// the timestamp of what the clock shows. Which time that is, is not stated.
pub fn unix_now() -> (out: u64)
    ensures
        exists|time: std::time::SystemTime| out == #[trigger] unix_timestamp(time),
{
    let time = system_now();
    let out: u64 = epoch_seconds(since_epoch(time));
    assert(out == unix_timestamp(time));
    out
}

} // verus!
