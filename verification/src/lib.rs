//! The values of an expression language: what a value can be, how values
//! are made from literals and from native data, how native data is taken
//! out of them again, which of them can be keys of a dictionary, and how a
//! value is lowered to a JSON tree.

pub mod cel_type;
pub mod date;
pub mod decimal;
pub mod dict;
pub mod error;
pub mod ident;
pub mod json;
pub mod key;
pub mod key_order;
pub mod laws;
pub mod literal;
pub mod text;
pub mod value;

pub use crate::cel_type::CelType;
pub use crate::dict::CelMap;
pub use crate::error::CelError;
pub use crate::key::CelKey;
pub use crate::key_order::KeyOrder;
pub use crate::literal::Literal;
pub use crate::value::CelValue;
