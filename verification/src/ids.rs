use vstd::prelude::*;

verus! {

/// A fresh random id: `uuid::Uuid::new_v4()` in its hyphenated text form,
/// which the `uuid` source writes as 36 characters. Which id comes out is left
/// open.
#[verifier::external_body]
pub fn new_id() -> (r: String)
    ensures
        r@.len() == 36,
{
    uuid::Uuid::new_v4().to_string()
}

/// 128 random bits: `uuid::Uuid::new_v4().as_u128()`. Nothing is claimed of the value.
#[verifier::external_body]
pub fn random_bits() -> u128 {
    uuid::Uuid::new_v4().as_u128()
}

/// The current time as RFC 3339 text: `chrono::Utc::now().to_rfc3339()`,
/// which always writes a date. Which time comes out is left open.
#[verifier::external_body]
pub fn now_rfc3339() -> (r: String)
    ensures
        r@.len() > 0,
{
    chrono::Utc::now().to_rfc3339()
}

} // verus!
