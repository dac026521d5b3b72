use chrono::NaiveDate;
use vstd::prelude::*;

verus! {

/// `chrono::NaiveDate`: a calendar date, opaque to the proofs.
#[verifier::external_type_specification]
#[verifier::external_body]
pub struct ExNaiveDate(chrono::NaiveDate);

/// `NaiveDate`'s `==` holds of two dates exactly when they are the same
/// date.
pub assume_specification[ <chrono::NaiveDate as PartialEq>::eq ](
    a: &chrono::NaiveDate,
    b: &chrono::NaiveDate,
) -> (r: bool)
    ensures
        r == (*a == *b),
;

/// The text that `NaiveDate`'s `Display` writes for a date: year, month
/// and day, joined by hyphens.
pub uninterp spec fn date_text(d: NaiveDate) -> Seq<char>;

/// Calls `to_string` on a date. Not proved: the text depends on the date
/// alone.
#[verifier::external_body]
pub(crate) fn date_to_text(d: &NaiveDate) -> (r: String)
    ensures
        r@ == date_text(*d),
{
    d.to_string()
}

} // verus!
