//! Standard (11-bit) CAN identifiers of `embedded-can`.
use vstd::prelude::*;

verus! {

#[verifier::external_type_specification]
#[verifier::external_body]
pub struct ExStandardId(embedded_can::StandardId);

/// The raw 11-bit value of a standard identifier.
pub uninterp spec fn standard_id_raw(id: embedded_can::StandardId) -> u16;

/// `embedded_can::StandardId::new`: an identifier exactly when the raw value
/// is at most `0x7FF`, holding that raw value.
#[verifier::external_body]
pub(crate) fn standard_id_new(raw: u16) -> (r: Option<embedded_can::StandardId>)
    ensures
        r is Some <==> raw <= 0x7FF,
        r matches Some(id) ==> standard_id_raw(id) == raw,
{
    embedded_can::StandardId::new(raw)
}

} // verus!
