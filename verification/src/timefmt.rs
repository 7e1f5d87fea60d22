//! Timestamps as text.
//!
//! The ledger keeps a moment as the number of nanoseconds since the Unix
//! epoch, in an `i64`. Its text is written by chrono.

use vstd::prelude::*;

verus! {

/// The RFC 3339 text of the moment that lies `nanos` nanoseconds after the
/// Unix epoch, in UTC, as chrono writes it. Nothing is proved of this text:
/// it is whatever chrono returns, and the same for the same moment.
pub uninterp spec fn rfc3339_text(nanos: int) -> Seq<char>;

/// Calls chrono's `DateTime::<Utc>::from_timestamp_nanos` and then
/// `DateTime::to_rfc3339` on the result.
///
/// The contract claims only that the text returned is the one that
/// [`rfc3339_text`] names. The first call accepts every `i64`; the second
/// writes into a `String`, which does not fail.
#[verifier::external_body]
pub(crate) fn iso8601(nanos: i64) -> (text: String)
    ensures
        text@ == rfc3339_text(nanos as int),
{
    chrono::DateTime::<chrono::Utc>::from_timestamp_nanos(nanos).to_rfc3339()
}

} // verus!
