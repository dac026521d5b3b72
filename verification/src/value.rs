use crate::cel_type::CelType;
use crate::decimal::{
    decimal_eq, decimal_equal, decimal_from_i64, decimal_from_u64, decimal_mantissa,
    decimal_scale,
};
use crate::dict::CelMap;
use crate::error::CelError;
use crate::key::{text_outcome, KeyModel};
use chrono::NaiveDate;
use rust_decimal::Decimal;
use std::rc::Rc;
use uuid::Uuid;
use vstd::prelude::*;
use vstd::std_specs::cmp::PartialEqSpecImpl;
use vstd::string::*;

verus! {

/// What a value is: its category, with the payload as a plain value. A
/// dictionary is the sequence of its entries in ascending order of their
/// keys.
pub enum ValueModel {
    Dict(Seq<(KeyModel, ValueModel)>),
    Int(i64),
    UInt(u64),
    Double(Decimal),
    Text(Seq<char>),
    Bytes(Seq<u8>),
    Bool(bool),
    Null,
    Date(NaiveDate),
    Uuid(Uuid),
}

/// A runtime value. Text, bytes and dictionaries are shared, so a clone
/// never copies a payload.
#[derive(Debug)]
pub enum CelValue {
    Dict(Rc<CelMap>),
    Int(i64),
    UInt(u64),
    Double(Decimal),
    String(Rc<String>),
    Bytes(Rc<Vec<u8>>),
    Bool(bool),
    Null,
    Date(NaiveDate),
    Uuid(Uuid),
}

impl CelValue {
    /// The value as a plain value.
    pub open spec fn model(&self) -> ValueModel
        decreases self,
    {
        match self {
            CelValue::Dict(m) => ValueModel::Dict(m.model()),
            CelValue::Int(n) => ValueModel::Int(*n),
            CelValue::UInt(n) => ValueModel::UInt(*n),
            CelValue::Double(d) => ValueModel::Double(*d),
            CelValue::String(s) => ValueModel::Text(s@),
            CelValue::Bytes(b) => ValueModel::Bytes(b@),
            CelValue::Bool(b) => ValueModel::Bool(*b),
            CelValue::Null => ValueModel::Null,
            CelValue::Date(d) => ValueModel::Date(*d),
            CelValue::Uuid(u) => ValueModel::Uuid(*u),
        }
    }
}

impl View for CelValue {
    type V = ValueModel;

    open spec fn view(&self) -> ValueModel {
        self.model()
    }
}

/// The category of a value.
pub open spec fn tag(v: ValueModel) -> CelType {
    match v {
        ValueModel::Dict(_) => CelType::Dict,
        ValueModel::Int(_) => CelType::Int,
        ValueModel::UInt(_) => CelType::UInt,
        ValueModel::Double(_) => CelType::Double,
        ValueModel::Text(_) => CelType::String,
        ValueModel::Bytes(_) => CelType::Bytes,
        ValueModel::Bool(_) => CelType::Bool,
        ValueModel::Null => CelType::Null,
        ValueModel::Date(_) => CelType::Date,
        ValueModel::Uuid(_) => CelType::Uuid,
    }
}

/// Two values are equal: they have the same category and equal payloads.
/// Values of different categories are never equal, whatever they hold.
/// Decimals are equal when they stand for the same number; dictionaries
/// are equal when they have the same keys with equal values.
pub open spec fn same_value(a: ValueModel, b: ValueModel) -> bool
    decreases a,
{
    match (a, b) {
        (ValueModel::Dict(x), ValueModel::Dict(y)) => same_entries(x, y),
        (ValueModel::Int(x), ValueModel::Int(y)) => x == y,
        (ValueModel::UInt(x), ValueModel::UInt(y)) => x == y,
        (ValueModel::Double(x), ValueModel::Double(y)) => decimal_equal(x, y),
        (ValueModel::Text(x), ValueModel::Text(y)) => x == y,
        (ValueModel::Bytes(x), ValueModel::Bytes(y)) => x == y,
        (ValueModel::Bool(x), ValueModel::Bool(y)) => x == y,
        (ValueModel::Null, ValueModel::Null) => true,
        (ValueModel::Date(x), ValueModel::Date(y)) => x == y,
        (ValueModel::Uuid(x), ValueModel::Uuid(y)) => x == y,
        _ => false,
    }
}

/// Two sequences of entries are equal: they are as long as each other, and
/// at each place they have the same key with equal values.
pub open spec fn same_entries(
    x: Seq<(KeyModel, ValueModel)>,
    y: Seq<(KeyModel, ValueModel)>,
) -> bool
    decreases x,
{
    &&& x.len() == y.len()
    &&& forall|i: int|
        0 <= i < x.len() ==> (#[trigger] x[i]).0 == y[i].0 && same_value(x[i].1, y[i].1)
}

/// The outcome of an extraction that succeeds with `x`.
pub open spec fn extracted<T>(x: T) -> Result<T, CelError> {
    Ok(x)
}

/// The outcome of an extraction that asked for the category `expected` and
/// found `v`, a value of another: the error that names the category
/// expected and the category found.
pub open spec fn mismatch<T>(expected: CelType, v: ValueModel) -> Result<T, CelError> {
    Err(CelError::BadType(expected, tag(v)))
}

/// The boolean that a value holds; any value but a boolean is a type
/// mismatch.
pub open spec fn bool_of(v: ValueModel) -> Result<bool, CelError> {
    match v {
        ValueModel::Bool(b) => extracted(b),
        _ => mismatch(CelType::Bool, v),
    }
}

/// The signed integer that a value holds; any value but a signed integer
/// is a type mismatch.
pub open spec fn int_of(v: ValueModel) -> Result<i64, CelError> {
    match v {
        ValueModel::Int(n) => extracted(n),
        _ => mismatch(CelType::Int, v),
    }
}

/// The text that a value holds; any value but text is a type mismatch.
pub open spec fn text_of(v: ValueModel) -> Result<Seq<char>, CelError> {
    match v {
        ValueModel::Text(s) => extracted(s),
        _ => mismatch(CelType::String, v),
    }
}

/// The date that a value holds; any value but a date is a type mismatch.
pub open spec fn date_of(v: ValueModel) -> Result<NaiveDate, CelError> {
    match v {
        ValueModel::Date(d) => extracted(d),
        _ => mismatch(CelType::Date, v),
    }
}

/// The identifier that a value holds; any value but an identifier is a
/// type mismatch.
pub open spec fn uuid_of(v: ValueModel) -> Result<Uuid, CelError> {
    match v {
        ValueModel::Uuid(u) => extracted(u),
        _ => mismatch(CelType::Uuid, v),
    }
}

/// `r` is what the extraction of a decimal gives for `v`: the decimal that
/// a decimal value holds; for an integer value, signed or unsigned, a
/// decimal that stands for exactly that integer; and a type mismatch for
/// any other value.
pub open spec fn is_decimal_of(v: ValueModel, r: Result<Decimal, CelError>) -> bool {
    match v {
        ValueModel::Double(d) => r == extracted(d),
        ValueModel::Int(n) => r matches Ok(d) && decimal_mantissa(d) == n && decimal_scale(d)
            == 0,
        ValueModel::UInt(n) => r matches Ok(d) && decimal_mantissa(d) == n && decimal_scale(d)
            == 0,
        _ => r == mismatch::<Decimal>(CelType::Double, v),
    }
}

/// A conversion's outcome with the shared text taken by its characters.
pub open spec fn shared_text_outcome(r: Result<Rc<String>, CelError>) -> Result<
    Seq<char>,
    CelError,
> {
    match r {
        Ok(s) => Ok(s@),
        Err(e) => Err(e),
    }
}

impl PartialEq for CelValue {
    /// Two values are equal when they have the same category and equal
    /// payloads.
    fn eq(&self, other: &CelValue) -> (r: bool) {
        self.equals(other)
    }
}

impl PartialEqSpecImpl for CelValue {
    open spec fn obeys_eq_spec() -> bool {
        true
    }

    open spec fn eq_spec(&self, other: &CelValue) -> bool {
        same_value(self@, other@)
    }
}

impl Clone for CelValue {
    /// A second handle on the same value: shared payloads are shared, not
    /// copied.
    fn clone(&self) -> (r: CelValue)
        ensures
            r == *self,
    {
        match self {
            CelValue::Dict(m) => CelValue::Dict(m.clone()),
            CelValue::Int(n) => CelValue::Int(*n),
            CelValue::UInt(n) => CelValue::UInt(*n),
            CelValue::Double(d) => CelValue::Double(*d),
            CelValue::String(s) => CelValue::String(s.clone()),
            CelValue::Bytes(b) => CelValue::Bytes(b.clone()),
            CelValue::Bool(b) => CelValue::Bool(*b),
            CelValue::Null => CelValue::Null,
            CelValue::Date(d) => CelValue::Date(*d),
            CelValue::Uuid(u) => CelValue::Uuid(*u),
        }
    }
}

impl CelValue {
    /// Says whether two values are equal.
    pub fn equals(&self, other: &CelValue) -> (r: bool)
        ensures
            r == same_value(self@, other@),
        decreases self@,
    {
        match (self, other) {
            (CelValue::Dict(x), CelValue::Dict(y)) => {
                assert(decreases_to!(self@ => self@->Dict_0));
                x.equals(y)
            },
            (CelValue::Int(x), CelValue::Int(y)) => *x == *y,
            (CelValue::UInt(x), CelValue::UInt(y)) => *x == *y,
            (CelValue::Double(x), CelValue::Double(y)) => decimal_eq(x, y),
            (CelValue::String(x), CelValue::String(y)) => **x == **y,
            (CelValue::Bytes(x), CelValue::Bytes(y)) => {
                let r = **x == **y;
                assert(r == (x@ =~= y@));
                r
            },
            (CelValue::Bool(x), CelValue::Bool(y)) => *x == *y,
            (CelValue::Null, CelValue::Null) => true,
            (CelValue::Date(x), CelValue::Date(y)) => *x == *y,
            (CelValue::Uuid(x), CelValue::Uuid(y)) => *x == *y,
            _ => false,
        }
    }

    /// Extracts the boolean of a boolean value, for use as a condition. No
    /// other value counts as true or false.
    pub fn try_bool(&self) -> (r: Result<bool, CelError>)
        ensures
            r == bool_of(self@),
    {
        if let CelValue::Bool(val) = self {
            Ok(*val)
        } else {
            Err(CelError::BadType(CelType::Bool, CelType::from(self)))
        }
    }

    /// Extracts the integer of a signed integer value. Nothing is narrowed
    /// to an integer: a decimal or an unsigned integer is a type mismatch.
    pub fn try_int(&self) -> (r: Result<i64, CelError>)
        ensures
            r == int_of(self@),
    {
        if let CelValue::Int(n) = self {
            Ok(*n)
        } else {
            Err(CelError::BadType(CelType::Int, CelType::from(self)))
        }
    }
}

impl<'a> From<&'a CelValue> for CelType {
    /// The category of a value.
    fn from(v: &'a CelValue) -> (r: CelType)
        ensures
            r == tag(v@),
    {
        match v {
            CelValue::Dict(_) => CelType::Dict,
            CelValue::Int(_) => CelType::Int,
            CelValue::UInt(_) => CelType::UInt,
            CelValue::Double(_) => CelType::Double,
            CelValue::String(_) => CelType::String,
            CelValue::Bytes(_) => CelType::Bytes,
            CelValue::Bool(_) => CelType::Bool,
            CelValue::Null => CelType::Null,
            CelValue::Date(_) => CelType::Date,
            CelValue::Uuid(_) => CelType::Uuid,
        }
    }
}

impl<'a> vstd::std_specs::convert::FromSpecImpl<&'a CelValue> for CelType {
    open spec fn obeys_from_spec() -> bool {
        true
    }

    open spec fn from_spec(v: &'a CelValue) -> CelType {
        tag(v@)
    }
}

impl From<CelMap> for CelValue {
    /// A dictionary value that holds the dictionary.
    fn from(m: CelMap) -> (r: CelValue)
        ensures
            r@ == ValueModel::Dict(m.model()),
    {
        CelValue::Dict(Rc::new(m))
    }
}

impl vstd::std_specs::convert::FromSpecImpl<CelMap> for CelValue {
    open spec fn obeys_from_spec() -> bool {
        true
    }

    open spec fn from_spec(m: CelMap) -> CelValue {
        CelValue::Dict(Rc::new(m))
    }
}

impl From<i64> for CelValue {
    /// A signed integer value.
    fn from(i: i64) -> (r: CelValue)
        ensures
            r@ == ValueModel::Int(i),
    {
        CelValue::Int(i)
    }
}

impl vstd::std_specs::convert::FromSpecImpl<i64> for CelValue {
    open spec fn obeys_from_spec() -> bool {
        true
    }

    open spec fn from_spec(i: i64) -> CelValue {
        CelValue::Int(i)
    }
}

impl From<Decimal> for CelValue {
    /// A decimal value.
    fn from(d: Decimal) -> (r: CelValue)
        ensures
            r@ == ValueModel::Double(d),
    {
        CelValue::Double(d)
    }
}

impl vstd::std_specs::convert::FromSpecImpl<Decimal> for CelValue {
    open spec fn obeys_from_spec() -> bool {
        true
    }

    open spec fn from_spec(d: Decimal) -> CelValue {
        CelValue::Double(d)
    }
}

impl From<NaiveDate> for CelValue {
    /// A date value.
    fn from(d: NaiveDate) -> (r: CelValue)
        ensures
            r@ == ValueModel::Date(d),
    {
        CelValue::Date(d)
    }
}

impl vstd::std_specs::convert::FromSpecImpl<NaiveDate> for CelValue {
    open spec fn obeys_from_spec() -> bool {
        true
    }

    open spec fn from_spec(d: NaiveDate) -> CelValue {
        CelValue::Date(d)
    }
}

impl<'a> From<&'a str> for CelValue {
    /// A text value that holds a copy of the text.
    fn from(s: &'a str) -> (r: CelValue)
        ensures
            r@ == ValueModel::Text(s@),
    {
        CelValue::String(Rc::new(String::from_str(s)))
    }
}

impl<'a> vstd::std_specs::convert::FromSpecImpl<&'a str> for CelValue {
    open spec fn obeys_from_spec() -> bool {
        false
    }

    open spec fn from_spec(s: &'a str) -> CelValue {
        arbitrary()
    }
}

impl<'a> TryFrom<&'a CelValue> for Rc<String> {
    type Error = CelError;

    /// Extracts the text of a text value, shared with the value.
    fn try_from(v: &'a CelValue) -> (r: Result<Rc<String>, CelError>)
        ensures
            shared_text_outcome(r) == text_of(v@),
    {
        if let CelValue::String(s) = v {
            Ok(s.clone())
        } else {
            Err(CelError::BadType(CelType::String, CelType::from(v)))
        }
    }
}

impl<'a> vstd::std_specs::convert::TryFromSpecImpl<&'a CelValue> for Rc<String> {
    open spec fn obeys_try_from_spec() -> bool {
        true
    }

    open spec fn try_from_spec(v: &'a CelValue) -> Result<Rc<String>, CelError> {
        match v {
            CelValue::String(s) => Ok(*s),
            _ => Err(CelError::BadType(CelType::String, tag(v@))),
        }
    }
}

impl TryFrom<CelValue> for NaiveDate {
    type Error = CelError;

    /// Extracts the date of a date value.
    fn try_from(v: CelValue) -> (r: Result<NaiveDate, CelError>)
        ensures
            r == date_of(v@),
    {
        if let CelValue::Date(d) = v {
            Ok(d)
        } else {
            Err(CelError::BadType(CelType::Date, CelType::from(&v)))
        }
    }
}

impl vstd::std_specs::convert::TryFromSpecImpl<CelValue> for NaiveDate {
    open spec fn obeys_try_from_spec() -> bool {
        true
    }

    open spec fn try_from_spec(v: CelValue) -> Result<NaiveDate, CelError> {
        date_of(v@)
    }
}

impl TryFrom<CelValue> for Uuid {
    type Error = CelError;

    /// Extracts the identifier of an identifier value.
    fn try_from(v: CelValue) -> (r: Result<Uuid, CelError>)
        ensures
            r == uuid_of(v@),
    {
        if let CelValue::Uuid(id) = v {
            Ok(id)
        } else {
            Err(CelError::BadType(CelType::Uuid, CelType::from(&v)))
        }
    }
}

impl vstd::std_specs::convert::TryFromSpecImpl<CelValue> for Uuid {
    open spec fn obeys_try_from_spec() -> bool {
        true
    }

    open spec fn try_from_spec(v: CelValue) -> Result<Uuid, CelError> {
        uuid_of(v@)
    }
}

impl TryFrom<CelValue> for String {
    type Error = CelError;

    /// Extracts a copy of the text of a text value.
    fn try_from(v: CelValue) -> (r: Result<String, CelError>)
        ensures
            text_outcome(r) == text_of(v@),
    {
        if let CelValue::String(s) = &v {
            Ok((**s).clone())
        } else {
            Err(CelError::BadType(CelType::String, CelType::from(&v)))
        }
    }
}

impl vstd::std_specs::convert::TryFromSpecImpl<CelValue> for String {
    open spec fn obeys_try_from_spec() -> bool {
        true
    }

    open spec fn try_from_spec(v: CelValue) -> Result<String, CelError> {
        match v {
            CelValue::String(s) => Ok(*s),
            _ => Err(CelError::BadType(CelType::String, tag(v@))),
        }
    }
}

impl TryFrom<CelValue> for Decimal {
    type Error = CelError;

    /// Extracts a decimal from a numeric value. A decimal value gives its
    /// decimal; an integer value, signed or unsigned, widens to the decimal
    /// that stands for exactly that integer.
    fn try_from(v: CelValue) -> (r: Result<Decimal, CelError>)
        ensures
            is_decimal_of(v@, r),
    {
        match v {
            CelValue::Double(n) => Ok(n),
            CelValue::Int(n) => Ok(decimal_from_i64(n)),
            CelValue::UInt(n) => Ok(decimal_from_u64(n)),
            _ => Err(CelError::BadType(CelType::Double, CelType::from(&v))),
        }
    }
}

impl vstd::std_specs::convert::TryFromSpecImpl<CelValue> for Decimal {
    open spec fn obeys_try_from_spec() -> bool {
        false
    }

    open spec fn try_from_spec(v: CelValue) -> Result<Decimal, CelError> {
        arbitrary()
    }
}

} // verus!
