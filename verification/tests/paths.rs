#![allow(dead_code)]

use pandas_maxminddb::chains::generate_paths;
use pandas_maxminddb::paths::{fields_to_path, has_type, Field};
use pandas_maxminddb::structs::{find_struct, Struct};
use pandas_maxminddb::struct_deep_getter::StructDeepGetter;
use std::collections::BTreeMap;

struct SuperType {
    value: String,
}

impl From<Option<&str>> for SuperType {
    fn from(s: Option<&str>) -> Self {
        SuperType { value: s.unwrap_or("None").to_owned() }
    }
}

impl From<Option<u16>> for SuperType {
    fn from(s: Option<u16>) -> Self {
        SuperType { value: format!("{}", s.unwrap_or(0)) }
    }
}

impl From<Option<u32>> for SuperType {
    fn from(s: Option<u32>) -> Self {
        SuperType { value: format!("{}", s.unwrap_or(0)) }
    }
}

impl From<Option<f64>> for SuperType {
    fn from(s: Option<f64>) -> Self {
        SuperType { value: format!("{}", s.unwrap_or(0.0)) }
    }
}

impl From<Option<bool>> for SuperType {
    fn from(s: Option<bool>) -> Self {
        SuperType { value: format!("{}", s.unwrap_or(false)) }
    }
}

#[derive(Default)]
pub struct MaxmindCity<'a> {
    pub city: Option<City2<'a>>,
    pub continent: Option<Continent<'a>>,
    pub country: Option<Country<'a>>,
    pub location: Option<Location<'a>>,
    pub postal: Option<Postal<'a>>,
    pub registered_country: Option<Country<'a>>,
    pub represented_country: Option<RepresentedCountry<'a>>,
    pub subdivisions: Option<Vec<Subdivision<'a>>>,
    pub traits: Option<Traits>,
}

#[derive(Default)]
pub struct City2<'a> {
    pub geoname_id: Option<u32>,
    pub names: Option<BTreeMap<&'a str, &'a str>>,
}

#[derive(Default)]
pub struct Location<'a> {
    pub accuracy_radius: Option<u16>,
    pub latitude: Option<f64>,
    pub longitude: Option<f64>,
    pub metro_code: Option<u16>,
    pub time_zone: Option<&'a str>,
}

#[derive(Default)]
pub struct Postal<'a> {
    pub code: Option<&'a str>,
}

#[derive(Default)]
pub struct Subdivision<'a> {
    pub geoname_id: Option<u32>,
    pub iso_code: Option<&'a str>,
    pub names: Option<BTreeMap<&'a str, &'a str>>,
}

#[derive(Default)]
pub struct Continent<'a> {
    pub code: Option<&'a str>,
    pub geoname_id: Option<u32>,
    pub names: Option<BTreeMap<&'a str, &'a str>>,
}

#[derive(Default)]
pub struct Country<'a> {
    pub geoname_id: Option<u32>,
    pub is_in_european_union: Option<bool>,
    pub iso_code: Option<&'a str>,
    pub names: Option<BTreeMap<&'a str, &'a str>>,
}

#[derive(Default)]
pub struct RepresentedCountry<'a> {
    pub geoname_id: Option<u32>,
    pub is_in_european_union: Option<bool>,
    pub iso_code: Option<&'a str>,
    pub names: Option<BTreeMap<&'a str, &'a str>>,
    pub representation_type: Option<&'a str>,
}

#[derive(Default)]
pub struct Traits {
    pub is_anonymous_proxy: Option<bool>,
    pub is_satellite_provider: Option<bool>,
}

fn field(ident: &str, types: &[&str]) -> Field {
    Field { ident: ident.to_string(), types: types.iter().map(|t| t.to_string()).collect() }
}

fn plain(ident: &str, fields: Vec<Field>) -> Struct {
    Struct { ident: ident.to_string(), fields, generate: false, return_type: None, replacement_type: None }
}

fn names() -> Field {
    field("names", &["Option", "BTreeMap", "str", "str"])
}

/// The structs above, as they are written.
fn structs() -> Vec<Struct> {
    vec![
        Struct {
            ident: "City".to_string(),
            fields: vec![
                field("city", &["Option", "City2"]),
                field("continent", &["Option", "Continent"]),
                field("country", &["Option", "Country"]),
                field("location", &["Option", "Location"]),
                field("postal", &["Option", "Postal"]),
                field("registered_country", &["Option", "Country"]),
                field("represented_country", &["Option", "RepresentedCountry"]),
                field("subdivisions", &["Option", "Vec", "Subdivision"]),
                field("traits", &["Option", "Traits"]),
            ],
            generate: true,
            return_type: Some("SuperType".to_string()),
            replacement_type: Some("MaxmindCity".to_string()),
        },
        plain("City2", vec![field("geoname_id", &["Option", "u32"]), names()]),
        plain(
            "Location",
            vec![
                field("accuracy_radius", &["Option", "u16"]),
                field("latitude", &["Option", "f64"]),
                field("longitude", &["Option", "f64"]),
                field("metro_code", &["Option", "u16"]),
                field("time_zone", &["Option", "str"]),
            ],
        ),
        plain("Postal", vec![field("code", &["Option", "str"])]),
        plain(
            "Subdivision",
            vec![field("geoname_id", &["Option", "u32"]), field("iso_code", &["Option", "str"]), names()],
        ),
        plain(
            "Continent",
            vec![field("code", &["Option", "str"]), field("geoname_id", &["Option", "u32"]), names()],
        ),
        plain(
            "Country",
            vec![
                field("geoname_id", &["Option", "u32"]),
                field("is_in_european_union", &["Option", "bool"]),
                field("iso_code", &["Option", "str"]),
                names(),
            ],
        ),
        plain(
            "RepresentedCountry",
            vec![
                field("geoname_id", &["Option", "u32"]),
                field("is_in_european_union", &["Option", "bool"]),
                field("iso_code", &["Option", "str"]),
                names(),
                field("representation_type", &["Option", "str"]),
            ],
        ),
        plain(
            "Traits",
            vec![field("is_anonymous_proxy", &["Option", "bool"]), field("is_satellite_provider", &["Option", "bool"])],
        ),
    ]
}

impl<'a> StructDeepGetter<SuperType> for MaxmindCity<'a> {
    fn deeper_structs() -> Vec<String> {
        generate_paths("City", &structs()).unwrap()
    }

    fn get_path(&self, path: &str) -> SuperType {
        match path {
            "traits.is_anonymous_proxy" => self.traits.as_ref().and_then(|x| x.is_anonymous_proxy).into(),
            "traits.is_satellite_provider" => self.traits.as_ref().and_then(|x| x.is_satellite_provider).into(),
            "subdivisions[0].geoname_id" => {
                self.subdivisions.as_ref().and_then(|x| x.first()).and_then(|x| x.geoname_id).into()
            }
            "subdivisions[0].iso_code" => {
                self.subdivisions.as_ref().and_then(|x| x.first()).and_then(|x| x.iso_code).into()
            }
            "subdivisions[0].names[\"en\"]" => self
                .subdivisions
                .as_ref()
                .and_then(|x| x.first())
                .and_then(|x| x.names.as_ref())
                .and_then(|x| x.get("en").copied())
                .into(),
            "postal.code" => self.postal.as_ref().and_then(|x| x.code).into(),
            "location.accuracy_radius" => self.location.as_ref().and_then(|x| x.accuracy_radius).into(),
            "location.latitude" => self.location.as_ref().and_then(|x| x.latitude).into(),
            "location.longitude" => self.location.as_ref().and_then(|x| x.longitude).into(),
            "country.iso_code" => self.country.as_ref().and_then(|x| x.iso_code).into(),
            "city.geoname_id" => self.city.as_ref().and_then(|x| x.geoname_id).into(),
            "city.names[\"en\"]" => self
                .city
                .as_ref()
                .and_then(|x| x.names.as_ref())
                .and_then(|x| x.get("en").copied())
                .into(),
            _ => panic!("error"),
        }
    }
}

#[test]
fn test_paths() {
    assert_eq!(
        MaxmindCity::deeper_structs(),
        vec![
            "traits.is_anonymous_proxy",
            "traits.is_satellite_provider",
            "subdivisions[0].geoname_id",
            "subdivisions[0].iso_code",
            "subdivisions[0].names[\"en\"]",
            "represented_country.geoname_id",
            "represented_country.is_in_european_union",
            "represented_country.iso_code",
            "represented_country.names[\"en\"]",
            "represented_country.representation_type",
            "registered_country.geoname_id",
            "registered_country.is_in_european_union",
            "registered_country.iso_code",
            "registered_country.names[\"en\"]",
            "postal.code",
            "location.accuracy_radius",
            "location.latitude",
            "location.longitude",
            "location.metro_code",
            "location.time_zone",
            "country.geoname_id",
            "country.is_in_european_union",
            "country.iso_code",
            "country.names[\"en\"]",
            "continent.code",
            "continent.geoname_id",
            "continent.names[\"en\"]",
            "city.geoname_id",
            "city.names[\"en\"]",
        ]
    )
}

#[test]
fn a_path_leads_to_its_field() {
    let city = MaxmindCity {
        city: Some(City2 { geoname_id: Some(7), names: Some(BTreeMap::from([("en", "Houston"), ("fr", "Houston")])) }),
        subdivisions: Some(vec![Subdivision { iso_code: Some("TX"), ..Subdivision::default() }]),
        location: Some(Location { latitude: Some(29.5), ..Location::default() }),
        ..MaxmindCity::default()
    };
    assert_eq!(city.get_path("city.names[\"en\"]").value, "Houston");
    assert_eq!(city.get_path("city.geoname_id").value, "7");
    assert_eq!(city.get_path("subdivisions[0].iso_code").value, "TX");
    assert_eq!(city.get_path("subdivisions[0].geoname_id").value, "0");
    assert_eq!(city.get_path("location.latitude").value, "29.5");
    assert_eq!(city.get_path("postal.code").value, "None");
    assert_eq!(city.get_path("traits.is_anonymous_proxy").value, "false");
}

#[test]
fn a_path_is_its_steps_with_dots_between() {
    let a = field("a", &["Option", "A"]);
    let list = field("items", &["Option", "Vec", "Item"]);
    let map = field("names", &["Option", "BTreeMap", "str", "str"]);
    let both = field("both", &["Vec", "BTreeMap"]);
    let leaf = field("leaf", &["u8"]);
    assert_eq!(fields_to_path(&[]), "");
    assert_eq!(fields_to_path(&[&a]), "a");
    assert_eq!(fields_to_path(&[&list]), "items[0]");
    assert_eq!(fields_to_path(&[&map]), "names[\"en\"]");
    assert_eq!(fields_to_path(&[&both]), "both[0]");
    assert_eq!(fields_to_path(&[&a, &leaf]), "a.leaf");
    assert_eq!(fields_to_path(&[&a, &list, &map, &leaf]), "a.items[0].names[\"en\"].leaf");
}

#[test]
fn a_type_is_known_by_each_of_its_names() {
    let f = field("f", &["Option", "Vec", "Item"]);
    assert!(has_type(&f, "Option"));
    assert!(has_type(&f, "Vec"));
    assert!(has_type(&f, "Item"));
    assert!(!has_type(&f, "Ve"));
    assert!(!has_type(&f, "BTreeMap"));
    assert!(!has_type(&field("g", &[]), "Vec"));
}

#[test]
fn a_struct_is_found_by_its_name() {
    let all = structs();
    assert_eq!(find_struct(&all, "City"), Some(0));
    assert_eq!(find_struct(&all, "Traits"), Some(8));
    assert_eq!(find_struct(&all, "Country"), Some(6));
    assert_eq!(find_struct(&all, "Nothing"), None);
    assert_eq!(find_struct(&Vec::new(), "City"), None);
    let twice = vec![plain("A", vec![]), plain("B", vec![]), plain("A", vec![field("x", &["u8"])])];
    assert_eq!(find_struct(&twice, "A"), Some(0));
}

#[test]
fn leaves_come_first_and_nested_structs_last_first() {
    let all = vec![
        plain(
            "Root",
            vec![
                field("first", &["Option", "Inner"]),
                field("x", &["u8"]),
                field("second", &["Option", "Vec", "Other"]),
                field("y", &["Option", "str"]),
            ],
        ),
        plain("Inner", vec![field("deep", &["Option", "Other"]), field("i", &["u8"])]),
        plain("Other", vec![field("o", &["u8"])]),
    ];
    assert_eq!(
        generate_paths("Root", &all).unwrap(),
        vec!["x", "y", "second[0].o", "first.i", "first.deep.o"]
    );
    assert_eq!(generate_paths("Inner", &all).unwrap(), vec!["i", "deep.o"]);
    assert_eq!(generate_paths("Other", &all).unwrap(), vec!["o"]);
}

#[test]
fn structs_in_a_circle_have_no_paths() {
    let own = vec![plain("A", vec![field("x", &["u8"]), field("again", &["Option", "A"])])];
    assert_eq!(generate_paths("A", &own), None);
    let two = vec![
        plain("A", vec![field("b", &["Option", "B"])]),
        plain("B", vec![field("a", &["Option", "A"])]),
        plain("C", vec![field("c", &["u8"])]),
    ];
    assert_eq!(generate_paths("A", &two), None);
    assert_eq!(generate_paths("B", &two), None);
    assert_eq!(generate_paths("C", &two).unwrap(), vec!["c"]);
}

#[test]
fn a_chain_as_long_as_there_are_structs_is_no_circle() {
    let chain = vec![
        plain("A", vec![field("b", &["B"])]),
        plain("B", vec![field("c", &["C"])]),
        plain("C", vec![field("d", &["D"])]),
        plain("D", vec![field("end", &["u8"])]),
    ];
    assert_eq!(generate_paths("A", &chain).unwrap(), vec!["b.c.d.end"]);
}

#[test]
fn a_struct_without_fields_has_no_paths() {
    let all = vec![plain("A", vec![field("b", &["B"])]), plain("B", vec![])];
    assert!(generate_paths("A", &all).unwrap().is_empty());
    assert!(generate_paths("B", &all).unwrap().is_empty());
}
