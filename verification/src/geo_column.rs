//! The columns that can be asked for, and their names.

use vstd::prelude::*;
use crate::errors::{ErrorModel, ExceptionKind, PandasMaxmindError};
use crate::text::str_eq;

verus! {

/// A column of the result: one attribute of the record that belongs to an
/// address.
#[derive(Debug, Hash, Eq, PartialEq, Structural, Copy, Clone)]
pub enum GeoColumn {
    Country,
    State,
    City,
    Postcode,
    Longitude,
    Latitude,
    AccuracyRadius,
}

/// The name under which a column is requested.
pub open spec fn column_name(column: GeoColumn) -> Seq<char> {
    match column {
        GeoColumn::Country => "Country"@,
        GeoColumn::State => "State"@,
        GeoColumn::City => "City"@,
        GeoColumn::Postcode => "Postcode"@,
        GeoColumn::Longitude => "Longitude"@,
        GeoColumn::Latitude => "Latitude"@,
        GeoColumn::AccuracyRadius => "AccuracyRadius"@,
    }
}

/// The column that a name stands for, if it stands for one.
pub open spec fn column_of(name: Seq<char>) -> Option<GeoColumn> {
    if name == column_name(GeoColumn::Country) {
        Some(GeoColumn::Country)
    } else if name == column_name(GeoColumn::State) {
        Some(GeoColumn::State)
    } else if name == column_name(GeoColumn::City) {
        Some(GeoColumn::City)
    } else if name == column_name(GeoColumn::Postcode) {
        Some(GeoColumn::Postcode)
    } else if name == column_name(GeoColumn::Longitude) {
        Some(GeoColumn::Longitude)
    } else if name == column_name(GeoColumn::Latitude) {
        Some(GeoColumn::Latitude)
    } else if name == column_name(GeoColumn::AccuracyRadius) {
        Some(GeoColumn::AccuracyRadius)
    } else {
        None
    }
}

/// The number of columns there are.
pub const COLUMN_COUNT: usize = 7;

/// The column at a place in the order in which the columns are declared.
pub open spec fn column_at(index: int) -> GeoColumn {
    if index == 0 {
        GeoColumn::Country
    } else if index == 1 {
        GeoColumn::State
    } else if index == 2 {
        GeoColumn::City
    } else if index == 3 {
        GeoColumn::Postcode
    } else if index == 4 {
        GeoColumn::Longitude
    } else if index == 5 {
        GeoColumn::Latitude
    } else {
        GeoColumn::AccuracyRadius
    }
}

impl GeoColumn {
    /// The place of the column in the order in which the columns are
    /// declared.
    pub open spec fn place(self) -> int {
        match self {
            GeoColumn::Country => 0,
            GeoColumn::State => 1,
            GeoColumn::City => 2,
            GeoColumn::Postcode => 3,
            GeoColumn::Longitude => 4,
            GeoColumn::Latitude => 5,
            GeoColumn::AccuracyRadius => 6,
        }
    }

    /// The place of the column in the order in which the columns are
    /// declared.
    pub fn index(self) -> (res: usize)
        ensures
            res == self.place(),
            res < COLUMN_COUNT,
    {
        match self {
            GeoColumn::Country => 0,
            GeoColumn::State => 1,
            GeoColumn::City => 2,
            GeoColumn::Postcode => 3,
            GeoColumn::Longitude => 4,
            GeoColumn::Latitude => 5,
            GeoColumn::AccuracyRadius => 6,
        }
    }

    /// The column at a place in that order.
    pub fn from_index(index: usize) -> (res: GeoColumn)
        requires
            index < COLUMN_COUNT,
        ensures
            res == column_at(index as int),
            res.place() == index,
    {
        if index == 0 {
            GeoColumn::Country
        } else if index == 1 {
            GeoColumn::State
        } else if index == 2 {
            GeoColumn::City
        } else if index == 3 {
            GeoColumn::Postcode
        } else if index == 4 {
            GeoColumn::Longitude
        } else if index == 5 {
            GeoColumn::Latitude
        } else {
            GeoColumn::AccuracyRadius
        }
    }

    /// Reads a column from its name. Any other text is refused, and the
    /// error carries that text.
    pub fn from_str(s: &str) -> (res: Result<GeoColumn, PandasMaxmindError>)
        ensures
            match res {
                Ok(column) => column_of(s@) == Some(column),
                Err(PandasMaxmindError::ParseColumnError(name)) => column_of(s@) is None && name@
                    == s@,
                Err(_) => false,
            },
    {
        if str_eq(s, "Country") {
            Ok(GeoColumn::Country)
        } else if str_eq(s, "State") {
            Ok(GeoColumn::State)
        } else if str_eq(s, "City") {
            Ok(GeoColumn::City)
        } else if str_eq(s, "Postcode") {
            Ok(GeoColumn::Postcode)
        } else if str_eq(s, "Longitude") {
            Ok(GeoColumn::Longitude)
        } else if str_eq(s, "Latitude") {
            Ok(GeoColumn::Latitude)
        } else if str_eq(s, "AccuracyRadius") {
            Ok(GeoColumn::AccuracyRadius)
        } else {
            Err(PandasMaxmindError::ParseColumnError(s.to_owned()))
        }
    }

    /// The name of the column.
    pub fn name(self) -> (res: &'static str)
        ensures
            res@ == column_name(self),
    {
        match self {
            GeoColumn::Country => "Country",
            GeoColumn::State => "State",
            GeoColumn::City => "City",
            GeoColumn::Postcode => "Postcode",
            GeoColumn::Longitude => "Longitude",
            GeoColumn::Latitude => "Latitude",
            GeoColumn::AccuracyRadius => "AccuracyRadius",
        }
    }
}

impl core::str::FromStr for GeoColumn {
    type Err = PandasMaxmindError;

    /// Reads a column from its name, where `str::parse` asks for one: the
    /// column of that name, or the refusal of the text with the text in it.
    fn from_str(s: &str) -> (res: Result<GeoColumn, PandasMaxmindError>)
        ensures
            match res {
                Ok(column) => column_of(s@) == Some(column),
                Err(PandasMaxmindError::ParseColumnError(name)) => column_of(s@) is None && name@
                    == s@,
                Err(_) => false,
            },
    {
        GeoColumn::from_str(s)
    }
}

/// No two columns share a name, so a column is read back from its name.
pub proof fn lemma_name_reads_back(column: GeoColumn)
    ensures
        column_of(column_name(column)) == Some(column),
{
    reveal_strlit("Country");
    reveal_strlit("State");
    reveal_strlit("City");
    reveal_strlit("Postcode");
    reveal_strlit("Longitude");
    reveal_strlit("Latitude");
    reveal_strlit("AccuracyRadius");
    assert("Country"@.len() == 7);
    assert("State"@.len() == 5);
    assert("City"@.len() == 4);
    assert("Postcode"@.len() == 8);
    assert("Longitude"@.len() == 9);
    assert("Latitude"@.len() == 8);
    assert("AccuracyRadius"@.len() == 14);
    assert("Postcode"@[0] == 'P');
    assert("Latitude"@[0] == 'L');
}

/// A name that stands for no column is refused as a key error that says
/// which name it was, whatever else the request holds.
pub proof fn lemma_unknown_name_is_key_error(name: Seq<char>)
    requires
        column_of(name) is None,
    ensures
        ErrorModel::ParseColumnError(name).exception_kind() == ExceptionKind::Key,
        ErrorModel::ParseColumnError(name).message() == "invalid geo column name: "@ + name,
{
}

} // verus!
