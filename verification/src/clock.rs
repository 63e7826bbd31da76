//! The one place the library reads a clock.

use vstd::prelude::*;

verus! {

/// Relies on `time::OffsetDateTime::now_utc` and `unix_timestamp`: the
/// current wall-clock time as whole seconds since the Unix epoch. The
/// value depends on the clock, so nothing is promised of it.
#[verifier::external_body]
pub(crate) fn now_unix_timestamp() -> i64 {
    time::OffsetDateTime::now_utc().unix_timestamp()
}

} // verus!
