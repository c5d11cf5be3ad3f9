//! Random identifiers made with the `uuid` crate.
use vstd::prelude::*;

use uuid::Uuid;

verus! {

/// `uuid::Uuid`, carried through as an opaque value.
#[verifier::external_type_specification]
#[verifier::external_body]
pub struct ExUuid(Uuid);

/// `Uuid::new_v4`: a random version-4 identifier. Nothing is claimed of
/// its value.
#[verifier::external_body]
pub(crate) fn new_v4() -> Uuid {
    Uuid::new_v4()
}

/// `Uuid::as_u128`: the identifier as a 128-bit number. What number comes
/// out is left unsaid here: nothing depends on it but equality.
#[verifier::external_body]
pub(crate) fn as_u128(id: &Uuid) -> u128 {
    id.as_u128()
}

/// Whether a character is a lower-case hexadecimal digit.
pub open spec fn is_lower_hex(c: char) -> bool {
    ('0' <= c && c <= '9') || ('a' <= c && c <= 'f')
}

/// The shape of a hyphenated identifier: 36 characters, hyphens at
/// positions 8, 13, 18 and 23, lower-case hexadecimal digits elsewhere.
pub open spec fn is_hyphenated(s: Seq<char>) -> bool {
    &&& s.len() == 36
    &&& forall|i: int| 0 <= i < 36 ==> if i == 8 || i == 13 || i == 18 || i == 23 {
        s[i] == '-'
    } else {
        is_lower_hex(#[trigger] s[i])
    }
}

/// `Uuid::to_string` (its `Display`, which writes the hyphenated form in
/// lower case): 32 lower-case hexadecimal digits in groups of 8, 4, 4, 4
/// and 12, joined by hyphens. Which digits is left open.
#[verifier::external_body]
pub(crate) fn to_hyphenated_string(id: &Uuid) -> (r: String)
    ensures
        is_hyphenated(r@),
{
    id.to_string()
}

/// A fresh random identifier in its textual form.
pub fn random_uuid() -> (r: String)
    ensures
        is_hyphenated(r@),
{
    let id = new_v4();
    to_hyphenated_string(&id)
}

} // verus!
