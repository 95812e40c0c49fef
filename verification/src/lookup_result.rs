//! One value of a column.

use vstd::prelude::*;
use vstd::std_specs::convert::FromSpecImpl;
use crate::record::text_of;

verus! {

/// A value taken from a record, or its absence, before it is handed to the
/// caller's runtime. A text is borrowed from the database; a coordinate is
/// the bits of its IEEE 754 double.
#[derive(Debug, PartialEq, Clone, Copy)]
pub enum LookupResult<'a> {
    String(Option<&'a str>),
    Float(Option<u64>),
    Int(Option<u16>),
}

/// A value of a column, a text as its characters.
pub enum LookupValue {
    String(Option<Seq<char>>),
    Float(Option<u64>),
    Int(Option<u16>),
}

impl<'a> View for LookupResult<'a> {
    type V = LookupValue;

    open spec fn view(&self) -> LookupValue {
        match *self {
            LookupResult::String(s) => LookupValue::String(text_of(s)),
            LookupResult::Float(f) => LookupValue::Float(f),
            LookupResult::Int(i) => LookupValue::Int(i),
        }
    }
}

/// The kinds of value there are.
#[derive(Debug, PartialEq, Eq, Structural, Clone, Copy)]
pub enum ValueKind {
    Text,
    Coordinate,
    Count,
}

impl LookupValue {
    /// The kind of the value, which it has whether it is there or absent.
    pub open spec fn kind(self) -> ValueKind {
        match self {
            LookupValue::String(_) => ValueKind::Text,
            LookupValue::Float(_) => ValueKind::Coordinate,
            LookupValue::Int(_) => ValueKind::Count,
        }
    }

    /// Whether the value is an absence, of whichever kind.
    pub open spec fn is_absent(self) -> bool {
        match self {
            LookupValue::String(s) => s is None,
            LookupValue::Float(f) => f is None,
            LookupValue::Int(i) => i is None,
        }
    }
}

/// The values of a column, texts as their characters.
pub open spec fn values_of(values: Seq<LookupResult<'_>>) -> Seq<LookupValue> {
    Seq::new(values.len(), |i: int| values[i]@)
}

impl<'a> From<Option<&'a str>> for LookupResult<'a> {
    fn from(s: Option<&'a str>) -> (res: Self) {
        LookupResult::String(s)
    }
}

impl<'a> FromSpecImpl<Option<&'a str>> for LookupResult<'a> {
    open spec fn obeys_from_spec() -> bool {
        true
    }

    open spec fn from_spec(s: Option<&'a str>) -> Self {
        LookupResult::String(s)
    }
}

impl<'a> From<Option<u16>> for LookupResult<'a> {
    fn from(v: Option<u16>) -> (res: Self) {
        LookupResult::Int(v)
    }
}

impl<'a> FromSpecImpl<Option<u16>> for LookupResult<'a> {
    open spec fn obeys_from_spec() -> bool {
        true
    }

    open spec fn from_spec(v: Option<u16>) -> Self {
        LookupResult::Int(v)
    }
}

} // verus!
