use crate::decimal::{decimal_parsed, parse_decimal};
use crate::error::CelError;
use crate::value::{CelValue, ValueModel};
use rust_decimal::Decimal;
use std::rc::Rc;
use vstd::prelude::*;

verus! {

/// A literal as a parser hands it over: one node for each category of
/// literal syntax. A decimal literal comes as its text.
#[derive(Debug, PartialEq)]
pub enum Literal {
    Int(i64),
    UInt(u64),
    Double(Rc<String>),
    String(Rc<String>),
    Bytes(Rc<Vec<u8>>),
    Bool(bool),
    Null,
}

/// The value that a parsed decimal literal gives: the decimal, or the
/// reason why the text is none.
pub open spec fn decimal_lifted(parsed: Result<Decimal, rust_decimal::Error>) -> Result<
    CelValue,
    CelError,
> {
    match parsed {
        Ok(d) => Ok(CelValue::Double(d)),
        Err(e) => Err(CelError::DecimalError(e)),
    }
}

/// The value that a literal stands for. Each category of literal gives the
/// value of the same category with the same payload; a decimal literal
/// gives the decimal that its text reads as, and an error where it reads
/// as none.
pub open spec fn lifted(l: Literal) -> Result<CelValue, CelError> {
    match l {
        Literal::Int(i) => Ok(CelValue::Int(i)),
        Literal::UInt(u) => Ok(CelValue::UInt(u)),
        Literal::Double(d) => decimal_lifted(decimal_parsed(d@)),
        Literal::String(s) => Ok(CelValue::String(s)),
        Literal::Bytes(b) => Ok(CelValue::Bytes(b)),
        Literal::Bool(b) => Ok(CelValue::Bool(b)),
        Literal::Null => Ok(CelValue::Null),
    }
}

impl CelValue {
    /// Turns what the reading of a decimal literal gave into a value, or
    /// into the error that reports why there is none.
    pub fn from_parsed_decimal(parsed: Result<Decimal, rust_decimal::Error>) -> (r: Result<
        CelValue,
        CelError,
    >)
        ensures
            r == decimal_lifted(parsed),
    {
        match parsed {
            Ok(d) => Ok(CelValue::Double(d)),
            Err(e) => Err(CelError::DecimalError(e)),
        }
    }
}

impl<'a> TryFrom<&'a Literal> for CelValue {
    type Error = CelError;

    /// Lifts a literal to the value it stands for. Text and bytes are
    /// shared with the literal. Only a decimal literal can fail: where its
    /// text is no decimal that can be held, the error says why.
    fn try_from(l: &'a Literal) -> (r: Result<CelValue, CelError>)
        ensures
            r == lifted(*l),
    {
        match l {
            Literal::Int(i) => Ok(CelValue::Int(*i)),
            Literal::UInt(u) => Ok(CelValue::UInt(*u)),
            Literal::Double(d) => CelValue::from_parsed_decimal(parse_decimal(d.as_str())),
            Literal::String(s) => Ok(CelValue::String(s.clone())),
            Literal::Bytes(b) => Ok(CelValue::Bytes(b.clone())),
            Literal::Bool(b) => Ok(CelValue::Bool(*b)),
            Literal::Null => Ok(CelValue::Null),
        }
    }
}

impl<'a> vstd::std_specs::convert::TryFromSpecImpl<&'a Literal> for CelValue {
    open spec fn obeys_try_from_spec() -> bool {
        true
    }

    open spec fn try_from_spec(l: &'a Literal) -> Result<CelValue, CelError> {
        lifted(*l)
    }
}

} // verus!
