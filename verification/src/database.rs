//! The database: a reader of a MaxMind file, held in memory or mapped.

use maxminddb::geoip2::City;
use maxminddb::{MaxMindDBError, Mmap, Reader};
use vstd::prelude::*;
use crate::address::Address;
use crate::record::{Country, Location, Place, Postal, Record, RecordModel, Subdivision};

verus! {

/// A database whose file is held in memory. Proofs see nothing of the
/// reader; what it holds is spoken of as `in_memory_entries`.
#[verifier::external_body]
pub struct InMemory {
    pub reader: Reader<Vec<u8>>,
}

/// A database whose file is mapped into memory. Proofs see nothing of the
/// reader; what it holds is spoken of as `mapped_entries`.
#[verifier::external_body]
pub struct MemoryMapped {
    pub reader: Reader<Mmap>,
}

/// A record as the reader decodes it.
#[verifier::external_type_specification]
#[verifier::external_body]
pub struct ExCity<'a>(City<'a>);

/// What a lookup gives: a value, word that the database holds none for the
/// address, or the database's report of a fault in itself.
#[derive(Debug)]
pub enum Lookup<T> {
    Found(T),
    NotFound,
    Failed(String),
}

/// What a lookup gives, texts as their characters.
pub enum Outcome {
    Found(RecordModel),
    NotFound,
    Failed(Seq<char>),
}

/// What a database holds: for each address on which a lookup returns, what
/// it returns.
pub type Entries = Map<Address, Outcome>;

/// The address that a text denotes as an IP literal, in either family, and
/// `None` for a text that is no such literal.
pub uninterp spec fn ip_literal(text: Seq<char>) -> Option<Address>;

/// What a decoded record holds in the groups and fields that the columns
/// read.
pub uninterp spec fn city_fields(city: City<'_>) -> RecordModel;

/// What a reader that holds its file in memory gives for each address on
/// which its lookup returns.
pub uninterp spec fn in_memory_entries(database: InMemory) -> Entries;

/// What a reader that maps its file gives for each address on which its
/// lookup returns.
pub uninterp spec fn mapped_entries(database: MemoryMapped) -> Entries;

/// What a lookup that stopped at the decoded record stands for.
pub open spec fn decoded_outcome(decoded: Lookup<City<'_>>) -> Outcome {
    match decoded {
        Lookup::Found(city) => Outcome::Found(city_fields(city)),
        Lookup::NotFound => Outcome::NotFound,
        Lookup::Failed(report) => Outcome::Failed(report@),
    }
}

/// What a database with the given entries gives for a text: nothing where
/// the text denotes no address, else the entry of the address.
pub open spec fn answer(entries: Entries, text: Seq<char>) -> Option<Outcome> {
    match ip_literal(text) {
        Some(address) => Some(entries[address]),
        None => None,
    }
}

/// Whether a database with the given entries has an entry for the address
/// that the text denotes, if it denotes one.
pub open spec fn answers(entries: Entries, text: Seq<char>) -> bool {
    ip_literal(text) matches Some(address) ==> entries.dom().contains(address)
}

/// Whether a database with the given entries has an entry for every
/// address that the texts denote.
pub open spec fn answers_all(entries: Entries, texts: Seq<Seq<char>>) -> bool {
    forall|i: int| 0 <= i < texts.len() ==> answers(entries, #[trigger] texts[i])
}

/// `str::parse` at an IP address, then `Reader::lookup` at `geoip2::City`,
/// on a reader that holds its file in memory. `None` where the text is no
/// IP literal. The error variant that says that the address is not in the
/// database becomes `NotFound`, every other error `Failed` with its text.
/// The lookup indexes into the file without a check of its own, so a file
/// that is cut short or damaged can make it panic: such addresses have no
/// entry, and are left out.
#[verifier::external_body]
pub(crate) fn lookup_in_memory<'r>(database: &'r InMemory, text: &str) -> (res: Option<
    Lookup<City<'r>>,
>)
    requires
        answers(in_memory_entries(*database), text@),
    ensures
        match ip_literal(text@) {
            Some(address) => res matches Some(decoded) && decoded_outcome(decoded)
                == in_memory_entries(*database)[address],
            None => res is None,
        },
{
    match text.parse() {
        Err(_) => None,
        Ok(ip) => Some(match database.reader.lookup::<City>(ip) {
            Ok(city) => Lookup::Found(city),
            Err(MaxMindDBError::AddressNotFoundError(_)) => Lookup::NotFound,
            Err(e) => Lookup::Failed(e.to_string()),
        }),
    }
}

/// The same on a reader that maps its file. The mapped bytes are taken as
/// fixed while the reader lives, which is what mapping a file asks of its
/// user.
#[verifier::external_body]
pub(crate) fn lookup_mapped<'r>(database: &'r MemoryMapped, text: &str) -> (res: Option<
    Lookup<City<'r>>,
>)
    requires
        answers(mapped_entries(*database), text@),
    ensures
        match ip_literal(text@) {
            Some(address) => res matches Some(decoded) && decoded_outcome(decoded)
                == mapped_entries(*database)[address],
            None => res is None,
        },
{
    match text.parse() {
        Err(_) => None,
        Ok(ip) => Some(match database.reader.lookup::<City>(ip) {
            Ok(city) => Lookup::Found(city),
            Err(MaxMindDBError::AddressNotFoundError(_)) => Lookup::NotFound,
            Err(e) => Lookup::Failed(e.to_string()),
        }),
    }
}

/// The fields of a `geoip2::City` that the columns read, moved into a
/// `Record` one for one: each group and each field in it as it stands, the
/// names of the city as the pairs of the map in the order of their keys,
/// a coordinate as the bits of its double. No call is made.
#[verifier::external_body]
pub(crate) fn record_from<'r>(city: City<'r>) -> (res: Record<'r>)
    ensures
        res@ == city_fields(city),
{
    Record {
        country: city.country.map(|c| Country { iso_code: c.iso_code }),
        subdivisions: city.subdivisions.map(|v| v.into_iter().map(|s| Subdivision { iso_code: s.iso_code }).collect()),
        city: city.city.map(|c| Place { names: c.names.map(|n| n.into_iter().collect()) }),
        postal: city.postal.map(|p| Postal { code: p.code }),
        location: city.location.map(|l| Location { longitude: l.longitude.map(|x| x.to_bits()), latitude: l.latitude.map(|x| x.to_bits()), accuracy_radius: l.accuracy_radius }),
    }
}

/// A database behind either of its two readers. It is only read, so any
/// number of threads may share one.
#[derive(Clone, Copy)]
pub enum GeoDatabase<'r> {
    InMemory(&'r InMemory),
    MemoryMapped(&'r MemoryMapped),
}

/// What a lookup stands for, texts as their characters.
pub open spec fn lookup_outcome(lookup: Lookup<Record<'_>>) -> Outcome {
    match lookup {
        Lookup::Found(record) => Outcome::Found(record@),
        Lookup::NotFound => Outcome::NotFound,
        Lookup::Failed(report) => Outcome::Failed(report@),
    }
}

/// What a lookup stands for, where there was an address to look up.
pub open spec fn lookup_answer(lookup: Option<Lookup<Record<'_>>>) -> Option<Outcome> {
    match lookup {
        Some(l) => Some(lookup_outcome(l)),
        None => None,
    }
}

impl<'r> GeoDatabase<'r> {
    /// What the database gives for each address on which its lookup
    /// returns.
    pub open spec fn entries(self) -> Entries {
        match self {
            GeoDatabase::InMemory(database) => in_memory_entries(*database),
            GeoDatabase::MemoryMapped(database) => mapped_entries(*database),
        }
    }

    /// The file behind the database is sound enough that a lookup returns
    /// for every address: with a record, without one, or with a report of
    /// a fault.
    pub open spec fn well_formed(self) -> bool {
        forall|address: Address| self.entries().dom().contains(address)
    }

    /// A database that answers every address answers those of any batch.
    pub proof fn lemma_well_formed_answers_all(self, texts: Seq<Seq<char>>)
        requires
            self.well_formed(),
        ensures
            answers_all(self.entries(), texts),
    {
    }

    /// Whether the database maps its file rather than holding it.
    pub fn is_memory_mapped(&self) -> (res: bool)
        ensures
            res == (*self is MemoryMapped),
    {
        match self {
            GeoDatabase::InMemory(_) => false,
            GeoDatabase::MemoryMapped(_) => true,
        }
    }

    /// Looks up the address that a text denotes. `None` where the text
    /// denotes none; nothing is looked up then.
    pub fn lookup(&self, text: &str) -> (res: Option<Lookup<Record<'r>>>)
        requires
            answers(self.entries(), text@),
        ensures
            lookup_answer(res) == answer(self.entries(), text@),
    {
        let decoded = match self {
            GeoDatabase::InMemory(database) => lookup_in_memory(database, text),
            GeoDatabase::MemoryMapped(database) => lookup_mapped(database, text),
        };
        match decoded {
            None => None,
            Some(Lookup::Found(city)) => Some(Lookup::Found(record_from(city))),
            Some(Lookup::NotFound) => Some(Lookup::NotFound),
            Some(Lookup::Failed(report)) => Some(Lookup::Failed(report)),
        }
    }
}

} // verus!
