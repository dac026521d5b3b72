use crate::cel_type::CelType;
use crate::error::CelError;
use crate::text::{
    i64_text, int_text, lemma_int_text_injective, lemma_nat_text_injective, nat_text, u64_text,
};
use std::rc::Rc;
use vstd::prelude::*;
use vstd::string::*;

verus! {

/// What a key is: one of the four categories that may index a map, with its
/// payload as a plain value.
pub enum KeyModel {
    Int(i64),
    UInt(u64),
    Bool(bool),
    Text(Seq<char>),
}

/// A dictionary key. Only integers, booleans and text can be keys: the
/// other value categories have no variant here.
#[derive(Debug, Eq, Hash, Ord)]
pub enum CelKey {
    Int(i64),
    UInt(u64),
    Bool(bool),
    String(Rc<String>),
}

impl View for CelKey {
    type V = KeyModel;

    open spec fn view(&self) -> KeyModel {
        match self {
            CelKey::Int(n) => KeyModel::Int(*n),
            CelKey::UInt(n) => KeyModel::UInt(*n),
            CelKey::Bool(b) => KeyModel::Bool(*b),
            CelKey::String(s) => KeyModel::Text(s@),
        }
    }
}

/// The category of a key.
pub open spec fn key_tag(k: KeyModel) -> CelType {
    match k {
        KeyModel::Int(_) => CelType::Int,
        KeyModel::UInt(_) => CelType::UInt,
        KeyModel::Bool(_) => CelType::Bool,
        KeyModel::Text(_) => CelType::String,
    }
}

/// The text under which a key appears where only text can name a member:
/// the decimal numeral of an integer, `true` or `false` for a boolean, and
/// a text key as it is.
pub open spec fn key_text(k: KeyModel) -> Seq<char> {
    match k {
        KeyModel::Int(n) => int_text(n as int),
        KeyModel::UInt(n) => nat_text(n as nat),
        KeyModel::Bool(b) => if b {
            "true"@
        } else {
            "false"@
        },
        KeyModel::Text(s) => s,
    }
}

impl CelKey {
    /// Writes the key as the text that names it where only text can.
    pub fn to_text(&self) -> (r: String)
        ensures
            r@ == key_text(self@),
    {
        match self {
            CelKey::Int(n) => i64_text(*n),
            CelKey::UInt(n) => u64_text(*n),
            CelKey::Bool(b) => if *b {
                String::from_str("true")
            } else {
                String::from_str("false")
            },
            CelKey::String(s) => String::from_str(s.as_str()),
        }
    }
}

impl<'a> From<&'a str> for CelKey {
    /// A text key that holds a copy of the text.
    fn from(s: &'a str) -> (r: CelKey)
        ensures
            r@ == KeyModel::Text(s@),
    {
        CelKey::String(Rc::new(String::from_str(s)))
    }
}

impl<'a> vstd::std_specs::convert::FromSpecImpl<&'a str> for CelKey {
    open spec fn obeys_from_spec() -> bool {
        false
    }

    open spec fn from_spec(s: &'a str) -> CelKey {
        arbitrary()
    }
}

impl From<String> for CelKey {
    /// A text key that holds the text.
    fn from(s: String) -> (r: CelKey)
        ensures
            r@ == KeyModel::Text(s@),
    {
        CelKey::String(Rc::new(s))
    }
}

impl vstd::std_specs::convert::FromSpecImpl<String> for CelKey {
    open spec fn obeys_from_spec() -> bool {
        true
    }

    open spec fn from_spec(s: String) -> CelKey {
        CelKey::String(Rc::new(s))
    }
}

impl<'a> From<&'a Rc<String>> for CelKey {
    /// A text key that shares the text.
    fn from(s: &'a Rc<String>) -> (r: CelKey)
        ensures
            r@ == KeyModel::Text(s@),
    {
        CelKey::String(s.clone())
    }
}

impl<'a> vstd::std_specs::convert::FromSpecImpl<&'a Rc<String>> for CelKey {
    open spec fn obeys_from_spec() -> bool {
        true
    }

    open spec fn from_spec(s: &'a Rc<String>) -> CelKey {
        CelKey::String(*s)
    }
}

impl<'a> From<&'a CelKey> for CelType {
    /// The category of a key.
    fn from(k: &'a CelKey) -> (r: CelType)
        ensures
            r == key_tag(k@),
    {
        match k {
            CelKey::Int(_) => CelType::Int,
            CelKey::UInt(_) => CelType::UInt,
            CelKey::Bool(_) => CelType::Bool,
            CelKey::String(_) => CelType::String,
        }
    }
}

impl<'a> vstd::std_specs::convert::FromSpecImpl<&'a CelKey> for CelType {
    open spec fn obeys_from_spec() -> bool {
        true
    }

    open spec fn from_spec(k: &'a CelKey) -> CelType {
        key_tag(k@)
    }
}

/// The text of a key that is text; any other key is a type mismatch.
pub open spec fn key_text_of(k: KeyModel) -> Result<Seq<char>, CelError> {
    match k {
        KeyModel::Text(s) => Ok(s),
        _ => Err(CelError::BadType(CelType::String, key_tag(k))),
    }
}

/// A conversion's outcome with the text taken by its characters.
pub open spec fn text_outcome(r: Result<String, CelError>) -> Result<Seq<char>, CelError> {
    match r {
        Ok(s) => Ok(s@),
        Err(e) => Err(e),
    }
}

impl<'a> TryFrom<&'a CelKey> for String {
    type Error = CelError;

    /// Extracts the text of a text key.
    fn try_from(k: &'a CelKey) -> (r: Result<String, CelError>)
        ensures
            text_outcome(r) == key_text_of(k@),
    {
        match k {
            CelKey::String(s) => Ok((**s).clone()),
            _ => Err(CelError::BadType(CelType::String, CelType::from(k))),
        }
    }
}

impl<'a> vstd::std_specs::convert::TryFromSpecImpl<&'a CelKey> for String {
    open spec fn obeys_try_from_spec() -> bool {
        true
    }

    open spec fn try_from_spec(k: &'a CelKey) -> Result<String, CelError> {
        match k {
            CelKey::String(s) => Ok(**s),
            _ => Err(CelError::BadType(CelType::String, key_tag(k@))),
        }
    }
}

/// Keys of one category have different texts unless they are the same
/// key: where the texts of two keys of a dictionary coincide, the keys are
/// of different categories.
pub proof fn lemma_key_text_injective(a: KeyModel, b: KeyModel)
    requires
        key_tag(a) == key_tag(b),
        key_text(a) == key_text(b),
    ensures
        a == b,
{
    match (a, b) {
        (KeyModel::Int(x), KeyModel::Int(y)) => {
            lemma_int_text_injective(x as int, y as int);
        },
        (KeyModel::UInt(x), KeyModel::UInt(y)) => {
            lemma_nat_text_injective(x as nat, y as nat);
        },
        (KeyModel::Bool(x), KeyModel::Bool(y)) => {
            reveal_strlit("true");
            reveal_strlit("false");
            assert("true"@.len() == 4);
            assert("false"@.len() == 5);
        },
        _ => {},
    }
}

} // verus!
