//! Batched geolocation of IP address strings against a MaxMind database,
//! one ordered column of values per requested attribute.

pub mod address;
pub mod chains;
pub mod database;
pub mod engine;
pub mod errors;
pub mod geo_column;
pub mod geolocate;
pub mod getters;
pub mod laws;
pub mod paths;
pub mod lookup_result;
pub mod record;
pub mod struct_deep_getter;
pub mod structs;
pub mod table;
pub mod text;
pub mod type_names;
