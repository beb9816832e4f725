use vstd::prelude::*;
use vstd::utf8::is_ascii_chars;

verus! {

/// Relies on `chrono::Utc::now().to_rfc2822()`: the current instant of the
/// host clock, rendered as an RFC 2822 date-time string such as
/// `Thu, 01 Jan 2026 00:00:00 +0000`. Whatever instant the clock reads,
/// the rendering starts with a weekday name, so it is never empty, and
/// every piece of it — English weekday and month names, decimal digits,
/// and the separators and numeric offset — is ASCII. The value depends on
/// the host clock, so nothing more is stated of it. The call assumes the
/// host clock reads an instant at or after the Unix epoch, in a year
/// RFC 2822 can carry (0 through 9999).
#[verifier::external_body]
pub(crate) fn now_rfc2822() -> (r: String)
    ensures
        r@.len() > 0,
        is_ascii_chars(r@),
{
    chrono::Utc::now().to_rfc2822()
}

} // verus!
