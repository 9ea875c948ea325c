//! The wall clock, read where a record has to be stamped.

use vstd::prelude::*;

verus! {

/// `chrono::Utc::now`, rendered by `DateTime::to_rfc3339`. The result is the
/// time of the call, of which nothing is promised. The system clock is
/// taken to stand at or after the start of 1970; `Utc::now` does not return
/// on a clock set before that.
#[verifier::external_body]
pub(crate) fn current_timestamp() -> (now: String) {
    chrono::Utc::now().to_rfc3339()
}

} // verus!
