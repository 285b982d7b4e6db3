//! The store's tagged attribute values and the attribute type codes that
//! `attribute_type` conditions name.
use vstd::prelude::*;

use crate::table::AssocTable;

verus! {

/// A wire-level attribute value: exactly one variant holds data.
#[derive(Debug, PartialEq, Eq)]
pub enum AttributeValue {
    S(String),
    N(String),
    B(Vec<u8>),
    Bool(bool),
    Null,
    L(Vec<AttributeValue>),
    M(Vec<(String, AttributeValue)>),
    Ss(Vec<String>),
    Ns(Vec<String>),
    Bs(Vec<Vec<u8>>),
}

/// The table mapping value placeholders (`:token`) to attribute values, and
/// also the shape of one stored item (field name -> attribute value).
pub type AttrValueTable = AssocTable<AttributeValue>;

/// The table mapping name placeholders (`#alias`) to real field names.
pub type AttrNameTable = AssocTable<String>;

/// A wire attribute type, as named by `attribute_type` conditions.
#[derive(Debug, Clone, Copy, PartialEq, Eq)]
pub enum AttributeType {
    S,
    Ss,
    N,
    Ns,
    B,
    Bs,
    Bool,
    Null,
    L,
    M,
}

impl AttributeType {
    /// The store's type code for this type.
    pub open spec fn spec_code(self) -> Seq<char> {
        match self {
            AttributeType::S => "S"@,
            AttributeType::Ss => "SS"@,
            AttributeType::N => "N"@,
            AttributeType::Ns => "NS"@,
            AttributeType::B => "B"@,
            AttributeType::Bs => "BS"@,
            AttributeType::Bool => "BOOL"@,
            AttributeType::Null => "NULL"@,
            AttributeType::L => "L"@,
            AttributeType::M => "M"@,
        }
    }

    pub fn code(self) -> (r: &'static str)
        ensures
            r@ == self.spec_code(),
    {
        match self {
            AttributeType::S => "S",
            AttributeType::Ss => "SS",
            AttributeType::N => "N",
            AttributeType::Ns => "NS",
            AttributeType::B => "B",
            AttributeType::Bs => "BS",
            AttributeType::Bool => "BOOL",
            AttributeType::Null => "NULL",
            AttributeType::L => "L",
            AttributeType::M => "M",
        }
    }
}

} // verus!
