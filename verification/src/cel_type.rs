use vstd::prelude::*;

verus! {

/// The category of a value or of a key. A tag carries no data: it labels
/// what a conversion expected and what it found.
#[derive(Debug, Clone, Copy, PartialEq, Eq, Hash, Structural)]
pub enum CelType {
    Dict,
    Int,
    UInt,
    Double,
    String,
    Bytes,
    Bool,
    Null,
    Date,
    Uuid,
}

impl CelType {
    /// The name under which the category appears in diagnostics.
    pub open spec fn name_of(self) -> Seq<char> {
        match self {
            CelType::Dict => "Map"@,
            CelType::Int => "Int"@,
            CelType::UInt => "UInt"@,
            CelType::Double => "Double"@,
            CelType::String => "String"@,
            CelType::Bytes => "Bytes"@,
            CelType::Bool => "Bool"@,
            CelType::Null => "Null"@,
            CelType::Date => "Date"@,
            CelType::Uuid => "Uuid"@,
        }
    }

    /// The name of the category, for messages.
    pub fn name(&self) -> (r: &'static str)
        ensures
            r@ == self.name_of(),
    {
        match self {
            CelType::Dict => "Map",
            CelType::Int => "Int",
            CelType::UInt => "UInt",
            CelType::Double => "Double",
            CelType::String => "String",
            CelType::Bytes => "Bytes",
            CelType::Bool => "Bool",
            CelType::Null => "Null",
            CelType::Date => "Date",
            CelType::Uuid => "Uuid",
        }
    }
}

} // verus!
