use vstd::prelude::*;

verus! {

/// The host's account identifier; the relay only stores and copies it.
#[verifier::external_type_specification]
#[verifier::external_body]
pub struct ExAccountId(near_sdk::AccountId);

/// The host's description of a failed promise.
#[verifier::external_type_specification]
#[verifier::external_body]
pub struct ExPromiseError(near_sdk::PromiseError);

/// Relies on the derived `Clone` of `near_sdk::AccountId` (a boxed `str`):
/// the copy equals the value it was made from.
pub assume_specification[ <near_sdk::AccountId as Clone>::clone ](a: &near_sdk::AccountId) -> (r: near_sdk::AccountId)
    ensures
        r == *a,
;

} // verus!
