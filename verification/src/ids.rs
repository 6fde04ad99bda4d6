use uuid::Uuid;
use vstd::prelude::*;

verus! {

#[verifier::external_type_specification]
#[verifier::external_body]
pub struct ExUuid(Uuid);

/// Calls `uuid::Uuid::new_v4`, which draws a random identifier: nothing is
/// promised of the value that comes back.
#[verifier::external_body]
pub(crate) fn random_id() -> (r: Uuid) {
    Uuid::new_v4()
}

/// Calls `uuid::Uuid::nil`, the identifier whose bits are all zero; the value is
/// carried through and never inspected, so nothing is stated of it.
#[verifier::external_body]
pub(crate) fn nil_id() -> (r: Uuid) {
    Uuid::nil()
}

} // verus!
