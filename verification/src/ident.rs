use uuid::Uuid;
use vstd::prelude::*;

verus! {

/// `uuid::Uuid`: a 128-bit identifier, opaque to the proofs.
#[verifier::external_type_specification]
#[verifier::external_body]
pub struct ExUuid(uuid::Uuid);

/// `Uuid`'s `==` holds of two identifiers exactly when they are the same
/// identifier.
pub assume_specification[ <uuid::Uuid as PartialEq>::eq ](a: &uuid::Uuid, b: &uuid::Uuid) -> (r:
    bool)
    ensures
        r == (*a == *b),
;

/// The text that `Uuid`'s `Display` writes for an identifier: its
/// thirty-two lower-case hexadecimal digits in five hyphenated groups.
pub uninterp spec fn uuid_text(u: Uuid) -> Seq<char>;

/// Calls `to_string` on an identifier. Not proved: the text depends on the
/// identifier alone.
#[verifier::external_body]
pub(crate) fn uuid_to_text(u: &Uuid) -> (r: String)
    ensures
        r@ == uuid_text(*u),
{
    u.to_string()
}

} // verus!
