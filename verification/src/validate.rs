//! Caller-side validation of an upload's expiration date: the string must
//! be non-empty, parse as RFC 3339, and name an instant strictly in the
//! future.  Parsing itself is chrono's; everything around it is verified
//! against the name given to chrono's result.

use vstd::prelude::*;

verus! {

/// The instant, in milliseconds since the Unix epoch, that chrono reads
/// out of an RFC 3339 string — or nothing, when the string does not
/// parse.  A function of the string alone.
pub uninterp spec fn rfc3339_millis(s: Seq<char>) -> Option<i64>;

/// Relies on chrono's `DateTime::parse_from_rfc3339` and
/// `DateTime::timestamp_millis`: the parse depends on the characters
/// alone, and an empty string is never a valid RFC 3339 date-time.
#[verifier::external_body]
fn parse_rfc3339_millis(s: &str) -> (r: Option<i64>)
    ensures
        r == rfc3339_millis(s@),
        s@.len() == 0 ==> r is None,
{
    match chrono::DateTime::parse_from_rfc3339(s) {
        Ok(d) => Some(d.timestamp_millis()),
        Err(_) => None,
    }
}

/// Why an expiration date was rejected.
#[derive(Debug, PartialEq, Eq, Structural, Clone, Copy)]
pub enum ExpirationDateError {
    /// The string was empty.
    Required,
    /// The string is not RFC 3339.
    InvalidFormat,
    /// The instant does not lie strictly in the future.
    NotInFuture,
}

/// Accepts exactly the non-empty RFC 3339 strings naming an instant
/// strictly after `now_millis` (milliseconds since the Unix epoch, read
/// from the single consistent clock); each rejection names the first
/// failed check, in the order empty, unparseable, not in the future.
pub fn validate_expiration_date(expiration_date: &str, now_millis: i64) -> (r: Result<
    i64,
    ExpirationDateError,
>)
    ensures
        match r {
            Ok(t) => {
                &&& expiration_date@.len() > 0
                &&& rfc3339_millis(expiration_date@) == Some(t)
                &&& t > now_millis
            },
            Err(e) => {
                &&& (e == ExpirationDateError::Required <==> expiration_date@.len() == 0)
                &&& (e == ExpirationDateError::InvalidFormat <==> expiration_date@.len() > 0
                    && rfc3339_millis(expiration_date@) is None)
                &&& (e == ExpirationDateError::NotInFuture <==> expiration_date@.len() > 0
                    && rfc3339_millis(expiration_date@) is Some && rfc3339_millis(
                    expiration_date@,
                )->0 <= now_millis)
            },
        },
        r is Ok <==> expiration_date@.len() > 0 && rfc3339_millis(expiration_date@) is Some
            && rfc3339_millis(expiration_date@)->0 > now_millis,
{
    if expiration_date.is_empty() {
        return Err(ExpirationDateError::Required);
    }
    match parse_rfc3339_millis(expiration_date) {
        None => Err(ExpirationDateError::InvalidFormat),
        Some(t) => {
            if t <= now_millis {
                Err(ExpirationDateError::NotInFuture)
            } else {
                Ok(t)
            }
        },
    }
}

} // verus!
