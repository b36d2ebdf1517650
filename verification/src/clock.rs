//! The wall clock, read through the `time` crate.
use vstd::prelude::*;

use time::OffsetDateTime;

verus! {

/// An instant with a UTC offset, from the `time` crate.
#[verifier::external_type_specification]
#[verifier::external_body]
pub struct ExOffsetDateTime(OffsetDateTime);

/// The current instant in UTC (`time::OffsetDateTime::now_utc`). It depends
/// on the clock, so nothing is stated of it.
#[verifier::external_body]
pub(crate) fn now_utc() -> OffsetDateTime {
    OffsetDateTime::now_utc()
}

/// The instant written as RFC 3339 text (`OffsetDateTime::format` with the
/// `Rfc3339` description); `None` where the crate reports that the instant
/// cannot be written in that form.
#[verifier::external_body]
pub(crate) fn format_rfc3339(instant: OffsetDateTime) -> Option<String> {
    instant.format(&time::format_description::well_known::Rfc3339).ok()
}

} // verus!
