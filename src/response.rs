//! The success envelope and the clock that stamps it.
use std::time::{SystemTime, SystemTimeError};
use vstd::prelude::*;

verus! {

/// std::time::SystemTime, carried through opaquely: an instant of the
/// system clock.
#[verifier::external_type_specification]
#[verifier::external_body]
pub struct ExSystemTime(SystemTime);

/// std::time::SystemTimeError, carried through opaquely: a clock reading
/// earlier than the instant it was measured from.
#[verifier::external_type_specification]
#[verifier::external_body]
pub struct ExSystemTimeError(SystemTimeError);

/// Relies on SystemTime::now to read the clock; nothing is promised of the
/// instant it returns.
pub assume_specification[ SystemTime::now ]() -> SystemTime;

/// Relies on SystemTime::duration_since to measure the time elapsed since an
/// earlier instant; it returns an error, and does not panic, where the
/// instant is later.
pub assume_specification[ SystemTime::duration_since ](
    t: &SystemTime,
    earlier: SystemTime,
) -> Result<core::time::Duration, SystemTimeError>;

/// Relies on Duration::as_secs for the whole seconds of a duration.
pub assume_specification[ core::time::Duration::as_secs ](d: &core::time::Duration) -> u64;

/// Relies on std::time::UNIX_EPOCH: the instant that Unix time counts from.
#[verifier::external_body]
fn unix_epoch() -> SystemTime {
    std::time::UNIX_EPOCH
}

/// The current time in whole seconds since the Unix epoch; zero where the
/// clock is set before the epoch.
pub fn get_timestamp() -> u64 {
    match SystemTime::now().duration_since(unix_epoch()) {
        Ok(elapsed) => elapsed.as_secs(),
        Err(_) => 0,
    }
}

/// The headers of a success envelope.
#[derive(Debug, Clone, Copy, PartialEq, Eq, Structural)]
pub struct ResponseHeaders {
    /// Unix seconds at which the response was built.
    pub timestamp: u64,
    /// The number of items, for list responses.
    pub count: Option<usize>,
}

/// A success envelope: the data and its headers.
#[derive(Debug, Clone)]
pub struct ApiResponse<T> {
    pub data: T,
    pub headers: ResponseHeaders,
}

impl<T> ApiResponse<T> {
    /// An envelope stamped with the given time.
    pub fn new(data: T, count: Option<usize>, timestamp: u64) -> (r: ApiResponse<T>)
        ensures
            r.data == data,
            r.headers.count == count,
            r.headers.timestamp == timestamp,
    {
        ApiResponse { data, headers: ResponseHeaders { timestamp, count } }
    }
}

/// An envelope stamped with the current time.
pub fn create_response<T>(data: T, count: Option<usize>) -> (r: ApiResponse<T>)
    ensures
        r.data == data,
        r.headers.count == count,
{
    ApiResponse::new(data, count, get_timestamp())
}

} // verus!
