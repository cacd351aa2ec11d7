use vstd::prelude::*;

use crate::errors::ClassifyError;
use crate::metrics::{reported, Metric};
use crate::net::IpAddress;

verus! {

/// A country database in maxminddb's reader. Verus refuses a declaration of
/// `maxminddb::Reader` (its parameter's `AsRef` bound), so the reader is held
/// here, opaque.
#[verifier::external_body]
pub struct CountryDatabase {
    reader: maxminddb::Reader<Vec<u8>>,
}

/// What the database holds for an address: the country's ISO 3166-1 code and
/// English name, each where the record gives it.
#[derive(Clone, Debug, PartialEq, Eq)]
pub struct CountryRecord {
    pub iso_code: Option<String>,
    pub name: Option<String>,
}

/// The bytes that a database was read from.
pub uninterp spec fn db_source(db: CountryDatabase) -> Seq<u8>;

/// Why maxminddb refuses to read `bytes` as a database, or `None` where it
/// reads them.
pub uninterp spec fn db_open_error(bytes: Seq<u8>) -> Option<Seq<char>>;

/// What maxminddb's lookup of `ip` in the database held in `bytes` gives:
/// the country part of the record, `None` where the database holds no record
/// for the address, or the text of the error it reports.
pub uninterp spec fn country_lookup(bytes: Seq<u8>, ip: IpAddress) -> Result<
    Option<CountryRecord>,
    String,
>;

/// Relies on maxminddb's `Reader::from_source`: reads the database held in
/// `buf`, or reports why it cannot; the outcome depends on the bytes alone.
/// It checks the metadata, the record size and that the search tree ends
/// before the data section, and reports malformed bytes as an error.
#[verifier::external_body]
fn db_open(buf: Vec<u8>) -> (r: Result<CountryDatabase, String>)
    ensures
        match r {
            Ok(db) => db_open_error(buf@) is None && db_source(db) == buf@,
            Err(m) => db_open_error(buf@) == Some(m@),
        },
{
    match maxminddb::Reader::from_source(buf) {
        Ok(reader) => Ok(CountryDatabase { reader }),
        Err(e) => Err(e.to_string()),
    }
}

/// Relies on maxminddb's `Reader::lookup` and `LookupResult::decode` into a
/// `geoip2::Country`: the outcome depends on the database's bytes and the
/// address alone. The walk reads only nodes of the tree checked at opening,
/// data pointers are range-checked, and the decoder reports data that runs
/// out of bounds as an error.
#[verifier::external_body]
fn db_lookup(db: &CountryDatabase, ip: IpAddress) -> (r: Result<Option<CountryRecord>, String>)
    ensures
        r == country_lookup(db_source(*db), ip),
{
    let found = db.reader.lookup(
        match ip {
            IpAddress::V4(a) => a.to_be_bytes().into(),
            IpAddress::V6(a) => a.to_be_bytes().into(),
        },
    ).and_then(|l| l.decode::<maxminddb::geoip2::Country>());
    match found {
        Ok(c) => Ok(c.map(|c| CountryRecord {
            iso_code: c.country.iso_code.map(String::from),
            name: c.country.names.english.map(String::from),
        })),
        Err(e) => Err(e.to_string()),
    }
}

/// The tag value reported for a lookup: the record's ISO code, or
/// `"unknown"` where there is no record or it gives no code.
pub open spec fn location_tag(found: Option<CountryRecord>) -> Seq<char> {
    match found {
        Some(CountryRecord { iso_code: Some(code), .. }) => code@,
        _ => "unknown"@,
    }
}

/// The source named in the message of a database failure.
pub open spec fn db_error_source() -> Seq<char> {
    "maxminddb::MaxMindDbError"@
}

/// The message of the error for a service without a database.
pub open spec fn no_database_message() -> Seq<char> {
    "No geoip database available"@
}

/// The outcome of a completed lookup: what was found, or the failure named
/// after its source.
pub open spec fn lookup_result(found: Result<Option<CountryRecord>, String>) -> Result<
    Option<CountryRecord>,
    Seq<char>,
> {
    match found {
        Ok(rec) => Ok(rec),
        Err(msg) => Err(db_error_source() + ": "@ + msg@),
    }
}

/// `r` matches the outcome `expected`, and `after` is `before` with the
/// `location` counter reported where the lookup succeeded, or unchanged.
pub open spec fn settles(
    r: Result<Option<CountryRecord>, ClassifyError>,
    expected: Result<Option<CountryRecord>, Seq<char>>,
    before: Seq<Metric>,
    after: Seq<Metric>,
) -> bool {
    match (r, expected) {
        (Ok(a), Ok(b)) => a == b && reported(
            before,
            after,
            "location"@,
            Some(("country"@, location_tag(a))),
        ),
        (Err(e), Err(m)) => e.view_message() == m && after == before,
        _ => false,
    }
}

/// The ISO code of a record, or `"unknown"`.
pub fn location_tag_of(found: &Option<CountryRecord>) -> (r: String)
    ensures
        r@ == location_tag(*found),
{
    match found {
        Some(CountryRecord { iso_code: Some(code), .. }) => code.clone(),
        _ => String::from_str("unknown"),
    }
}

/// Turns the result of a database lookup into the outcome of `locate`, and
/// reports the `location` counter where the lookup succeeded.
pub fn settle_lookup(found: Result<Option<CountryRecord>, String>, metrics: &mut Vec<Metric>) -> (r:
    Result<Option<CountryRecord>, ClassifyError>)
    ensures
        settles(r, lookup_result(found), old(metrics)@, final(metrics)@),
{
    match found {
        Err(msg) => Err(ClassifyError::from_source("maxminddb::MaxMindDbError", msg.as_str())),
        Ok(located) => {
            let tag = location_tag_of(&located);
            let ghost before = metrics@;
            metrics.push(Metric::tagged("location", "country", tag.as_str()));
            assert(metrics@.subrange(0, before.len() as int) =~= before);
            Ok(located)
        },
    }
}

/// The country database, where one was loaded.
pub struct GeoIp {
    reader: Option<CountryDatabase>,
}

impl GeoIp {
    /// Whether a database was loaded.
    pub closed spec fn has_database(&self) -> bool {
        self.reader is Some
    }

    /// The bytes the database was read from, where one was loaded.
    pub closed spec fn source(&self) -> Seq<u8> {
        match self.reader {
            Some(db) => db_source(db),
            None => Seq::empty(),
        }
    }

    /// What `locate` gives for `ip`: a configuration error without a
    /// database, else the outcome of the lookup in it.
    pub open spec fn outcome(&self, ip: IpAddress) -> Result<Option<CountryRecord>, Seq<char>> {
        if !self.has_database() {
            Err(no_database_message())
        } else {
            lookup_result(country_lookup(self.source(), ip))
        }
    }

    /// A service over the database held in `buf` (the bytes of a MaxMind
    /// DB file), or the reason it cannot be read.
    pub fn from_bytes(buf: Vec<u8>) -> (r: Result<GeoIp, ClassifyError>)
        ensures
            match r {
                Ok(g) => db_open_error(buf@) is None && g.has_database() && g.source() == buf@,
                Err(e) => db_open_error(buf@) matches Some(m) && e.view_message()
                    == db_error_source() + ": "@ + m,
            },
    {
        match db_open(buf) {
            Ok(db) => Ok(GeoIp { reader: Some(db) }),
            Err(msg) => Err(ClassifyError::from_source("maxminddb::MaxMindDbError", msg.as_str())),
        }
    }

    /// A service without a database: every lookup fails.
    pub fn without_database() -> (r: GeoIp)
        ensures
            !r.has_database(),
    {
        GeoIp { reader: None }
    }

    /// Whether a database was loaded.
    pub fn is_loaded(&self) -> (r: bool)
        ensures
            r == self.has_database(),
    {
        self.reader.is_some()
    }

    /// Looks up the country of `ip`: without a database it fails with a
    /// configuration error and reports nothing; otherwise it gives what the
    /// database holds for the address, and reports the `location` counter
    /// where the lookup succeeded.
    pub fn locate(&self, ip: IpAddress, metrics: &mut Vec<Metric>) -> (r: Result<
        Option<CountryRecord>,
        ClassifyError,
    >)
        ensures
            settles(r, self.outcome(ip), old(metrics)@, final(metrics)@),
    {
        match &self.reader {
            None => Err(ClassifyError::new("No geoip database available")),
            Some(reader) => {
                let found = db_lookup(reader, ip);
                settle_lookup(found, metrics)
            },
        }
    }
}

} // verus!
