use vstd::prelude::*;

verus! {

/// Relies on chrono's `Utc::now` and `DateTime::to_rfc3339`: the current UTC
/// time rendered as an RFC 3339 date-time string, which is never empty. The
/// value depends on the clock, so nothing more is claimed of it.
#[verifier::external_body]
fn now_rfc3339() -> (r: String)
    ensures
        r@.len() > 0,
{
    chrono::Utc::now().to_rfc3339()
}

/// The timestamp a publish records as a release date.
pub fn current_timestamp() -> (r: String)
    ensures
        r@.len() > 0,
{
    now_rfc3339()
}

} // verus!
