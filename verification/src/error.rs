use crate::cel_type::CelType;
use vstd::prelude::*;

verus! {

/// What a conversion reports when it cannot give what was asked for.
#[derive(Debug, PartialEq)]
pub enum CelError {
    /// A value of one category stood where another was required: the
    /// category expected, then the category found.
    BadType(CelType, CelType),
    /// The category named has no form in the representation asked for.
    UnsupportedConversion(CelType),
    /// The text of a decimal literal is not a decimal that can be held.
    DecimalError(rust_decimal::Error),
}

} // verus!
