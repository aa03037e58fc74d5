//! Fresh identifiers and timestamps.
use vstd::prelude::*;

verus! {

/// A fresh identifier: `uuid::Uuid::now_v7()` in its hyphenated text form.
/// Its value depends on the clock and on chance, so only its length is stated:
/// the hyphenated form of a UUID has 36 characters.
#[verifier::external_body]
pub fn new_id() -> (id: String)
    ensures
        id@.len() == 36,
{
    uuid::Uuid::now_v7().to_string()
}

/// The current UTC time formatted as RFC 3339
/// (`time::OffsetDateTime::now_utc().format(&Rfc3339)`). Its value depends on the
/// clock, so nothing is stated of it. The format refuses only years outside
/// 0 to 9999, which the clock does not give; the text would then be empty.
#[verifier::external_body]
pub fn utc_now() -> String {
    time::OffsetDateTime::now_utc().format(&time::format_description::well_known::Rfc3339).unwrap_or_default()
}

} // verus!
