use rust_decimal::Decimal;
use std::str::FromStr;
use vstd::prelude::*;

verus! {

/// `rust_decimal::Decimal`: a decimal number, opaque to the proofs.
#[verifier::external_type_specification]
#[verifier::external_body]
pub struct ExDecimal(rust_decimal::Decimal);

/// `rust_decimal::Error`: why a text is no decimal, opaque to the proofs.
#[verifier::external_type_specification]
#[verifier::external_body]
pub struct ExDecimalError(rust_decimal::Error);

/// The unscaled integer of a decimal, sign included: what
/// `Decimal::mantissa` returns. The number that a decimal stands for is its
/// mantissa divided by ten to the power of its scale.
pub uninterp spec fn decimal_mantissa(d: Decimal) -> int;

/// The number of digits after the decimal point: what `Decimal::scale`
/// returns.
pub uninterp spec fn decimal_scale(d: Decimal) -> nat;

/// The text that `Decimal`'s `Display` writes for a decimal when no
/// precision is asked for.
pub uninterp spec fn decimal_text(d: Decimal) -> Seq<char>;

/// What `Decimal::from_str` makes of a text: the decimal it reads, or the
/// reason why it reads none.
pub uninterp spec fn decimal_parsed(text: Seq<char>) -> Result<Decimal, rust_decimal::Error>;

/// Whether two decimals are equal to `Decimal`'s `==`, which compares the
/// numbers they stand for: a different scale alone does not tell two
/// decimals apart.
pub uninterp spec fn decimal_equal(a: Decimal, b: Decimal) -> bool;

/// Compares two decimals with `Decimal`'s `==`. Not proved: the answer
/// depends on the two decimals alone, and a decimal is equal to itself.
#[verifier::external_body]
pub(crate) fn decimal_eq(a: &Decimal, b: &Decimal) -> (r: bool)
    ensures
        r == decimal_equal(*a, *b),
        *a == *b ==> r,
{
    a == b
}

/// Calls `Decimal::from` on a signed integer. Not proved: the decimal
/// returned has the integer as its mantissa and scale zero, so it stands
/// for exactly that integer.
#[verifier::external_body]
pub(crate) fn decimal_from_i64(n: i64) -> (d: Decimal)
    ensures
        decimal_mantissa(d) == n,
        decimal_scale(d) == 0,
{
    Decimal::from(n)
}

/// Calls `Decimal::from` on an unsigned integer. Not proved: the decimal
/// returned has the integer as its mantissa and scale zero, so it stands
/// for exactly that integer.
#[verifier::external_body]
pub(crate) fn decimal_from_u64(n: u64) -> (d: Decimal)
    ensures
        decimal_mantissa(d) == n,
        decimal_scale(d) == 0,
{
    Decimal::from(n)
}

/// Calls `Decimal::from_str`. Not proved: the outcome depends on the text
/// alone.
#[verifier::external_body]
pub(crate) fn parse_decimal(text: &str) -> (r: Result<Decimal, rust_decimal::Error>)
    ensures
        r == decimal_parsed(text@),
{
    Decimal::from_str(text)
}

/// Calls `to_string` on a decimal. Not proved: the text depends on the
/// decimal alone.
#[verifier::external_body]
pub(crate) fn decimal_to_text(d: &Decimal) -> (r: String)
    ensures
        r@ == decimal_text(*d),
{
    d.to_string()
}

} // verus!
