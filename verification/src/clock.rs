//! The wall clock, read in milliseconds since the Unix epoch.

use vstd::prelude::*;
use crate::error::StoreError;

verus! {

/// `core::time::Duration::as_millis`, the whole milliseconds of a
/// duration. Nothing is claimed of the number.
pub assume_specification[ core::time::Duration::as_millis ](
    duration: &core::time::Duration,
) -> (millis: u128);

/// Calls `std::time::SystemTime::elapsed` on the Unix epoch: the time that
/// has passed since then by the wall clock, or `None` where the clock
/// stands before the epoch. Two calls may differ; nothing is claimed of the
/// result.
#[verifier::external_body]
fn since_epoch() -> (elapsed: Option<core::time::Duration>) {
    match std::time::UNIX_EPOCH.elapsed() {
        Ok(duration) => Some(duration),
        Err(_) => None,
    }
}

/// The time that a number of milliseconds since the epoch stands for, if
/// it can be held.
pub open spec fn time_of(millis: Option<u128>) -> Result<i64, StoreError> {
    match millis {
        Some(ms) if ms <= i64::MAX => Ok(ms as i64),
        _ => Err(StoreError::Clock),
    }
}

/// Turns the milliseconds read from the clock into a time: the same
/// number where it fits, the clock error where it does not or where the
/// clock gave nothing.
pub fn time_from(millis: Option<u128>) -> (r: Result<i64, StoreError>)
    ensures
        r == time_of(millis),
{
    match millis {
        Some(ms) => {
            if ms <= 0x7fff_ffff_ffff_ffff {
                Ok(ms as i64)
            } else {
                Err(StoreError::Clock)
            }
        },
        None => Err(StoreError::Clock),
    }
}

/// The wall clock's time in milliseconds since the Unix epoch.
pub fn epoch_time() -> (r: Result<i64, StoreError>)
    ensures
        r matches Ok(now) ==> now >= 0,
        r matches Err(e) ==> e is Clock,
{
    let millis: Option<u128> = match since_epoch() {
        Some(duration) => Some(duration.as_millis()),
        None => None,
    };
    time_from(millis)
}

} // verus!
