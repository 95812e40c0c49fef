//! The record that a database holds for an address, as far as the columns
//! read it.

use vstd::prelude::*;
use crate::geo_column::GeoColumn;
use crate::lookup_result::{LookupResult, LookupValue, ValueKind};
use crate::text::str_eq;

verus! {

/// The country group of a record.
#[derive(Debug, Clone, Copy)]
pub struct Country<'a> {
    pub iso_code: Option<&'a str>,
}

/// One subdivision of a record, the widest first.
#[derive(Debug, Clone, Copy)]
pub struct Subdivision<'a> {
    pub iso_code: Option<&'a str>,
}

/// The city group of a record: the city's names, as pairs of a language
/// and the name in it.
#[derive(Debug)]
pub struct Place<'a> {
    pub names: Option<Vec<(&'a str, &'a str)>>,
}

/// The postal group of a record.
#[derive(Debug, Clone, Copy)]
pub struct Postal<'a> {
    pub code: Option<&'a str>,
}

/// The location group of a record. A coordinate is held as the bits of its
/// IEEE 754 double.
#[derive(Debug, Clone, Copy)]
pub struct Location {
    pub longitude: Option<u64>,
    pub latitude: Option<u64>,
    pub accuracy_radius: Option<u16>,
}

/// A record. Every group can be absent, and so can every field in one.
#[derive(Debug)]
pub struct Record<'a> {
    pub country: Option<Country<'a>>,
    pub subdivisions: Option<Vec<Subdivision<'a>>>,
    pub city: Option<Place<'a>>,
    pub postal: Option<Postal<'a>>,
    pub location: Option<Location>,
}

/// What a record holds, texts as their characters. The outer `Option` of a
/// field says whether the group is there, the inner one whether the field
/// in it is.
pub struct RecordModel {
    /// `country.iso_code`
    pub country: Option<Option<Seq<char>>>,
    /// `iso_code` of each of `subdivisions`
    pub subdivisions: Option<Seq<Option<Seq<char>>>>,
    /// `city.names`, as pairs of language and name
    pub city: Option<Option<Seq<(Seq<char>, Seq<char>)>>>,
    /// `postal.code`
    pub postal: Option<Option<Seq<char>>>,
    /// `location`
    pub location: Option<Location>,
}

/// The characters of a text that may be absent.
pub open spec fn text_of(text: Option<&str>) -> Option<Seq<char>> {
    match text {
        Some(t) => Some(t@),
        None => None,
    }
}

/// The names of a city, texts as their characters.
pub open spec fn names_of(names: Seq<(&str, &str)>) -> Seq<(Seq<char>, Seq<char>)> {
    Seq::new(names.len(), |i: int| (names[i].0@, names[i].1@))
}

impl<'a> View for Record<'a> {
    type V = RecordModel;

    open spec fn view(&self) -> RecordModel {
        RecordModel {
            country: match self.country {
                Some(c) => Some(text_of(c.iso_code)),
                None => None,
            },
            subdivisions: match self.subdivisions {
                Some(s) => Some(Seq::new(s@.len(), |i: int| text_of(s@[i].iso_code))),
                None => None,
            },
            city: match self.city {
                Some(c) => Some(
                    match c.names {
                        Some(n) => Some(names_of(n@)),
                        None => None,
                    },
                ),
                None => None,
            },
            postal: match self.postal {
                Some(p) => Some(text_of(p.code)),
                None => None,
            },
            location: self.location,
        }
    }
}

/// The record behind a reference that may be absent, texts as their
/// characters.
pub open spec fn record_of(record: Option<&Record<'_>>) -> Option<RecordModel> {
    match record {
        Some(r) => Some(r@),
        None => None,
    }
}

/// The name under the given language: that of the first pair with it.
pub open spec fn name_in(names: Seq<(Seq<char>, Seq<char>)>, language: Seq<char>) -> Option<
    Seq<char>,
>
    decreases names.len(),
{
    if names.len() == 0 {
        None
    } else if names[0].0 == language {
        Some(names[0].1)
    } else {
        name_in(names.drop_first(), language)
    }
}

/// The text at the end of a path of two steps, absent where either step is.
pub open spec fn nested_text(group: Option<Option<Seq<char>>>) -> Option<Seq<char>> {
    match group {
        Some(field) => field,
        None => None,
    }
}

impl RecordModel {
    /// `country.iso_code`
    pub open spec fn country_code(self) -> Option<Seq<char>> {
        nested_text(self.country)
    }

    /// `subdivisions[0].iso_code`
    pub open spec fn state_code(self) -> Option<Seq<char>> {
        match self.subdivisions {
            Some(subdivisions) => if subdivisions.len() > 0 {
                subdivisions[0]
            } else {
                None
            },
            None => None,
        }
    }

    /// `city.names["en"]`
    pub open spec fn city_name(self) -> Option<Seq<char>> {
        match self.city {
            Some(Some(names)) => name_in(names, "en"@),
            _ => None,
        }
    }

    /// `postal.code`
    pub open spec fn postcode(self) -> Option<Seq<char>> {
        nested_text(self.postal)
    }

    /// `location.longitude`
    pub open spec fn longitude(self) -> Option<u64> {
        match self.location {
            Some(location) => location.longitude,
            None => None,
        }
    }

    /// `location.latitude`
    pub open spec fn latitude(self) -> Option<u64> {
        match self.location {
            Some(location) => location.latitude,
            None => None,
        }
    }

    /// `location.accuracy_radius`
    pub open spec fn accuracy_radius(self) -> Option<u16> {
        match self.location {
            Some(location) => location.accuracy_radius,
            None => None,
        }
    }
}

/// The kind of value that a column holds.
pub open spec fn column_kind(column: GeoColumn) -> ValueKind {
    match column {
        GeoColumn::Country | GeoColumn::State | GeoColumn::City | GeoColumn::Postcode =>
            ValueKind::Text,
        GeoColumn::Longitude | GeoColumn::Latitude => ValueKind::Coordinate,
        GeoColumn::AccuracyRadius => ValueKind::Count,
    }
}

/// The value of a column that has nothing to show.
pub open spec fn absent_value(column: GeoColumn) -> LookupValue {
    match column {
        GeoColumn::Country | GeoColumn::State | GeoColumn::City | GeoColumn::Postcode =>
            LookupValue::String(None),
        GeoColumn::Longitude | GeoColumn::Latitude => LookupValue::Float(None),
        GeoColumn::AccuracyRadius => LookupValue::Int(None),
    }
}

/// The value of a column for a record, or for the lack of one. Each column
/// has one path into the record and one kind of value; where any step of
/// the path is absent, so is the value.
pub open spec fn column_value(record: Option<RecordModel>, column: GeoColumn) -> LookupValue {
    match record {
        None => absent_value(column),
        Some(r) => match column {
            GeoColumn::Country => LookupValue::String(r.country_code()),
            GeoColumn::State => LookupValue::String(r.state_code()),
            GeoColumn::City => LookupValue::String(r.city_name()),
            GeoColumn::Postcode => LookupValue::String(r.postcode()),
            GeoColumn::Longitude => LookupValue::Float(r.longitude()),
            GeoColumn::Latitude => LookupValue::Float(r.latitude()),
            GeoColumn::AccuracyRadius => LookupValue::Int(r.accuracy_radius()),
        },
    }
}

/// Every value of a column is of the kind of the column, whatever the
/// record, and the value for no record is an absence.
pub proof fn lemma_one_kind_for_each_column(record: Option<RecordModel>, column: GeoColumn)
    ensures
        column_value(record, column).kind() == column_kind(column),
        column_value(None, column).is_absent(),
{
}

/// The name under the given language among the names of a city.
pub fn find_name<'a>(names: &Vec<(&'a str, &'a str)>, language: &str) -> (res: Option<&'a str>)
    ensures
        text_of(res) == name_in(names_of(names@), language@),
{
    let mut i: usize = 0;
    assert(names_of(names@).skip(0) =~= names_of(names@));
    while i < names.len()
        invariant
            i <= names@.len(),
            name_in(names_of(names@), language@) == name_in(
                names_of(names@).skip(i as int),
                language@,
            ),
        decreases names@.len() - i,
    {
        let ghost rest = names_of(names@).skip(i as int);
        assert(rest[0] == (names@[i as int].0@, names@[i as int].1@));
        assert(rest.drop_first() =~= names_of(names@).skip(i + 1));
        if str_eq(names[i].0, language) {
            return Some(names[i].1);
        }
        i += 1;
    }
    None
}

/// Takes the value of a column out of a record, or out of the lack of one.
pub fn extract<'a>(record: Option<&Record<'a>>, column: GeoColumn) -> (res: LookupResult<'a>)
    ensures
        res@ == column_value(record_of(record), column),
{
    match column {
        GeoColumn::Country => LookupResult::String(
            match record {
                Some(Record { country: Some(country), .. }) => country.iso_code,
                _ => None,
            },
        ),
        GeoColumn::State => LookupResult::String(
            match record {
                Some(Record { subdivisions: Some(subdivisions), .. }) => if subdivisions.len() > 0 {
                    subdivisions[0].iso_code
                } else {
                    None
                },
                _ => None,
            },
        ),
        GeoColumn::City => LookupResult::String(
            match record {
                Some(Record { city: Some(Place { names: Some(names) }), .. }) => find_name(
                    names,
                    "en",
                ),
                _ => None,
            },
        ),
        GeoColumn::Postcode => LookupResult::String(
            match record {
                Some(Record { postal: Some(postal), .. }) => postal.code,
                _ => None,
            },
        ),
        GeoColumn::Longitude => LookupResult::Float(
            match record {
                Some(Record { location: Some(location), .. }) => location.longitude,
                _ => None,
            },
        ),
        GeoColumn::Latitude => LookupResult::Float(
            match record {
                Some(Record { location: Some(location), .. }) => location.latitude,
                _ => None,
            },
        ),
        GeoColumn::AccuracyRadius => LookupResult::Int(
            match record {
                Some(Record { location: Some(location), .. }) => location.accuracy_radius,
                _ => None,
            },
        ),
    }
}

} // verus!
