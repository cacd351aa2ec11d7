use vstd::prelude::*;

use crate::errors::ClassifyError;
use crate::geoip::{location_tag, CountryRecord, GeoIp};
use crate::keys::{
    key_admitted, key_tag, regex_verdict, ApiKeyPolicy, Authorization, DOWNSTREAM_KEY_PATTERN,
};
use crate::metrics::{reported, Metric};
use crate::net::{all_wf, IpAddress, NetworkRange};
use crate::trace::{first_untrusted, no_client_ip_message, resolve};

verus! {

/// The `Cache-Control` value of a successful lookup: intermediaries must not
/// keep the answer.
pub const NO_CACHE: &'static str = "max-age=0, no-cache, no-store, must-revalidate";

/// The body of the answer to a request whose key is refused.
pub const WRONG_KEY: &'static str = "Wrong key";

/// The name of the keyed country endpoint, which prefixes its counters.
pub const COUNTRY_ENDPOINT: &'static str = "country";

/// `after` holds `before` as its start.
pub open spec fn extends(before: Seq<Metric>, after: Seq<Metric>) -> bool {
    &&& before.len() <= after.len()
    &&& after.subrange(0, before.len() as int) == before
}

// ---------------------------------------------------------------------------
// Shared pieces.

/// The text of an optional string, or the empty string.
pub open spec fn or_empty(s: Option<String>) -> Seq<char> {
    match s {
        Some(t) => t@,
        None => Seq::empty(),
    }
}

/// A record names a country where it gives its code or its English name.
pub open spec fn names_country(rec: CountryRecord) -> bool {
    rec.iso_code is Some || rec.name is Some
}

/// The message of an endpoint's lookup failure: the failure's own message
/// after `Future failure: `.
pub open spec fn future_failure(m: Seq<char>) -> Seq<char> {
    "Future failure"@ + ": "@ + m
}

fn lookup_failure(e: &ClassifyError) -> (r: ClassifyError)
    ensures
        r.view_message() == future_failure(e.view_message()),
{
    let m = e.message();
    ClassifyError::from_source("Future failure", m.as_str())
}

// ---------------------------------------------------------------------------
// The keyed country lookup.

/// One error of the not-found answer.
#[derive(Clone, Debug, PartialEq, Eq)]
pub struct ErrorDetail {
    pub domain: String,
    pub reason: String,
    pub message: String,
}

/// The structured not-found answer.
#[derive(Clone, Debug, PartialEq, Eq)]
pub struct NotFoundResponse {
    pub errors: Vec<ErrorDetail>,
    pub code: u16,
    pub message: String,
}

/// The answer for an address whose country is unknown.
pub fn not_found_response() -> (r: NotFoundResponse)
    ensures
        r.code == 404,
        r.message@ == "Not found"@,
        r.errors@.len() == 1,
        r.errors@[0].domain@ == "geolocation"@,
        r.errors@[0].reason@ == "notFound"@,
        r.errors@[0].message@ == "Not found"@,
{
    let detail = ErrorDetail {
        domain: String::from_str("geolocation"),
        reason: String::from_str("notFound"),
        message: String::from_str("Not found"),
    };
    let mut errors: Vec<ErrorDetail> = Vec::new();
    errors.push(detail);
    NotFoundResponse { errors, code: 404, message: String::from_str("Not found") }
}

/// The outcome of a request to the keyed country endpoint.
#[derive(Clone, Debug, PartialEq, Eq)]
pub enum CountryOutcome {
    /// The key is missing or refused.
    Unauthorized,
    /// No client address could be told from the request.
    NoClientIp(ClassifyError),
    /// The lookup failed.
    LookupFailed(ClassifyError),
    /// The database knows no country for the client.
    NotFound,
    /// The client's country.
    Found { code: String, name: String },
}

impl CountryOutcome {
    /// The HTTP status of the answer.
    pub open spec fn spec_status(&self) -> u16 {
        match self {
            CountryOutcome::Unauthorized => 401,
            CountryOutcome::NoClientIp(_) => 400,
            CountryOutcome::LookupFailed(_) => 500,
            CountryOutcome::NotFound => 404,
            CountryOutcome::Found { .. } => 200,
        }
    }

    /// The HTTP status of the answer.
    pub fn status(&self) -> (r: u16)
        ensures
            r == self.spec_status(),
    {
        match self {
            CountryOutcome::Unauthorized => 401,
            CountryOutcome::NoClientIp(_) => 400,
            CountryOutcome::LookupFailed(_) => 500,
            CountryOutcome::NotFound => 404,
            CountryOutcome::Found { .. } => 200,
        }
    }

    /// Whether the answer forbids caching (`NO_CACHE`): only a found country
    /// does.
    pub fn forbids_caching(&self) -> (r: bool)
        ensures
            r == (self is Found),
    {
        match self {
            CountryOutcome::Found { .. } => true,
            _ => false,
        }
    }
}

/// `r` is the keyed endpoint's answer for what a lookup found: the country
/// where the record names one, not found otherwise.
pub open spec fn answers(r: CountryOutcome, found: Option<CountryRecord>) -> bool {
    match found {
        Some(rec) => if names_country(rec) {
            r matches CountryOutcome::Found { code, name } && code@ == or_empty(rec.iso_code)
                && name@ == or_empty(rec.name)
        } else {
            r == CountryOutcome::NotFound
        },
        None => r == CountryOutcome::NotFound,
    }
}

/// The counter that the keyed endpoint reports for what a lookup found.
pub open spec fn hit_or_miss(found: Option<CountryRecord>) -> Seq<char> {
    match found {
        Some(rec) => if names_country(rec) {
            "country_hit"@
        } else {
            "country_miss"@
        },
        None => "country_miss"@,
    }
}

/// The outcome of a completed lookup on the keyed endpoint: the country of
/// the record where it names one, not found otherwise, and a server error
/// that embeds the failure where the lookup failed. Reports `country_hit`
/// or `country_miss` where the lookup succeeded.
pub fn country_outcome(
    located: Result<Option<CountryRecord>, ClassifyError>,
    metrics: &mut Vec<Metric>,
) -> (r: CountryOutcome)
    ensures
        match located {
            Err(e) => {
                &&& r matches CountryOutcome::LookupFailed(f) && f.view_message() == future_failure(
                    e.view_message(),
                )
                &&& final(metrics)@ == old(metrics)@
            },
            Ok(found) => {
                &&& answers(r, found)
                &&& reported(old(metrics)@, final(metrics)@, hit_or_miss(found), None)
            },
        },
{
    let ghost before = metrics@;
    match located {
        Err(e) => CountryOutcome::LookupFailed(lookup_failure(&e)),
        Ok(found) => {
            let named = match &found {
                Some(rec) => rec.iso_code.is_some() || rec.name.is_some(),
                None => false,
            };
            if named {
                metrics.push(Metric::counter("country_hit"));
                assert(metrics@.subrange(0, before.len() as int) =~= before);
                let rec = found.unwrap();
                let code = match rec.iso_code {
                    Some(code) => code,
                    None => String::new(),
                };
                let name = match rec.name {
                    Some(name) => name,
                    None => String::new(),
                };
                CountryOutcome::Found { code, name }
            } else {
                metrics.push(Metric::counter("country_miss"));
                assert(metrics@.subrange(0, before.len() as int) =~= before);
                CountryOutcome::NotFound
            }
        },
    }
}

/// The key's counter tag, as a key of a request: the key, or `invalid-key`.
pub open spec fn key_tag_of(key: Option<&str>) -> Seq<char> {
    key_tag(
        match key {
            Some(k) => Some(k@),
            None => None,
        },
    )
}

/// Serves the keyed country endpoint. Every request first reports the
/// `country` counter tagged with its key (or `invalid-key`). A missing or
/// refused key ends there with `Unauthorized`; a trace without an untrusted
/// address ends with `NoClientIp`; a failed lookup ends with `LookupFailed`.
/// Otherwise the client's address is looked up, which reports `location`,
/// and the answer follows what was found, reported as `country_hit` or
/// `country_miss`.
pub fn get_country(
    policy: &ApiKeyPolicy,
    key: Option<&str>,
    trace: &Vec<IpAddress>,
    trusted: &Vec<NetworkRange>,
    geoip: &GeoIp,
    metrics: &mut Vec<Metric>,
) -> (r: CountryOutcome)
    requires
        all_wf(trusted@),
    ensures
        extends(old(metrics)@, final(metrics)@),
        final(metrics)@.len() > old(metrics)@.len(),
        final(metrics)@[old(metrics)@.len() as int].is(
            "country"@,
            Some(("api_key"@, key_tag_of(key))),
        ),
        !(key is Some && key_admitted(
            regex_verdict(DOWNSTREAM_KEY_PATTERN@, key->0@),
            key->0@,
            policy.allowed(),
        )) ==> r == CountryOutcome::Unauthorized && final(metrics)@.len() == old(metrics)@.len() + 1,
        key is Some && key_admitted(
            regex_verdict(DOWNSTREAM_KEY_PATTERN@, key->0@),
            key->0@,
            policy.allowed(),
        ) ==> match first_untrusted(trace@, trusted@) {
            None => {
                &&& r matches CountryOutcome::NoClientIp(e) && e.view_message()
                    == no_client_ip_message()
                &&& final(metrics)@.len() == old(metrics)@.len() + 1
            },
            Some(ip) => match geoip.outcome(ip) {
                Err(m) => {
                    &&& r matches CountryOutcome::LookupFailed(e) && e.view_message()
                        == future_failure(m)
                    &&& final(metrics)@.len() == old(metrics)@.len() + 1
                },
                Ok(found) => {
                    &&& answers(r, found)
                    &&& final(metrics)@.len() == old(metrics)@.len() + 3
                    &&& final(metrics)@[old(metrics)@.len() + 1int].is(
                        "location"@,
                        Some(("country"@, location_tag(found))),
                    )
                    &&& final(metrics)@[old(metrics)@.len() + 2int].is(hit_or_miss(found), None)
                },
            },
        },
{
    let ghost before = metrics@;
    let tag = match key {
        Some(k) => String::from_str(k),
        None => String::from_str("invalid-key"),
    };
    metrics.push(Metric::tagged(COUNTRY_ENDPOINT, "api_key", tag.as_str()));
    assert(metrics@.subrange(0, before.len() as int) =~= before);
    let ghost first = metrics@;
    if policy.authorize(key) == Authorization::Denied {
        return CountryOutcome::Unauthorized;
    }
    let ip = match resolve(trace, trusted) {
        Ok(ip) => ip,
        Err(e) => {
            return CountryOutcome::NoClientIp(e);
        },
    };
    let located = geoip.locate(ip, metrics);
    let ghost second = metrics@;
    let r = country_outcome(located, metrics);
    let ghost third = metrics@;
    assert(second.len() >= first.len());
    assert(second.subrange(0, first.len() as int) == first);
    assert(third.subrange(0, second.len() as int) == second);
    assert(third.subrange(0, first.len() as int) =~= first) by {
        assert(third.subrange(0, first.len() as int) =~= second.subrange(0, first.len() as int));
    }
    assert(third.subrange(0, before.len() as int) =~= before) by {
        assert(third.subrange(0, before.len() as int) =~= first.subrange(0, before.len() as int));
    }
    assert(third[before.len() as int] == first[before.len() as int]) by {
        assert(third.subrange(0, first.len() as int)[before.len() as int] == third[before.len() as int]);
    }
    proof {
        if second.len() > first.len() {
            assert(third.subrange(0, second.len() as int)[first.len() as int] == third[first.len()
                as int]);
        }
    }
    r
}

// ---------------------------------------------------------------------------
// Health.

/// Whether a lookup shows a working database: it found a record with a
/// non-empty ISO code.
pub open spec fn healthy(found: Option<CountryRecord>) -> bool {
    match found {
        Some(CountryRecord { iso_code: Some(code), .. }) => code@.len() > 0,
        _ => false,
    }
}

/// Whether a lookup shows a working database.
pub fn lookup_is_healthy(located: &Result<Option<CountryRecord>, ClassifyError>) -> (r: bool)
    ensures
        r == match located {
            Ok(found) => healthy(*found),
            Err(_) => false,
        },
{
    match located {
        Ok(Some(CountryRecord { iso_code: Some(code), .. })) => code.as_str().unicode_len() > 0,
        _ => false,
    }
}

/// The heartbeat check: looks up `1.2.3.4` and tells whether the database
/// gave a non-empty country code for it.
pub fn heartbeat(geoip: &GeoIp, metrics: &mut Vec<Metric>) -> (r: bool)
    ensures
        r == match geoip.outcome(IpAddress::V4(0x01020304)) {
            Ok(found) => healthy(found),
            Err(_) => false,
        },
{
    let located = geoip.locate(IpAddress::V4(0x01020304), metrics);
    lookup_is_healthy(&located)
}

// ---------------------------------------------------------------------------
// The open classification endpoint.

/// The outcome of a request to the open classification endpoint.
#[derive(Clone, Debug, PartialEq, Eq)]
pub enum Classification {
    /// The client's country code, where the database gives one.
    Classified { country: Option<String> },
    /// No client address could be told from the request.
    NoClientIp(ClassifyError),
    /// The lookup failed.
    LookupFailed(ClassifyError),
}

/// `r` is the open endpoint's answer for what a lookup found: the ISO code,
/// where the record gives one, else no country.
pub open spec fn classifies(r: Classification, found: Option<CountryRecord>) -> bool {
    r matches Classification::Classified { country } && match (country, found) {
        (Some(c), Some(CountryRecord { iso_code: Some(code), .. })) => c@ == code@,
        (None, Some(CountryRecord { iso_code: None, .. })) => true,
        (None, None) => true,
        _ => false,
    }
}

impl Classification {
    /// The HTTP status of the answer.
    pub fn status(&self) -> (r: u16)
        ensures
            r == match self {
                Classification::Classified { .. } => 200u16,
                Classification::NoClientIp(_) => 400u16,
                Classification::LookupFailed(_) => 500u16,
            },
    {
        match self {
            Classification::Classified { .. } => 200,
            Classification::NoClientIp(_) => 400,
            Classification::LookupFailed(_) => 500,
        }
    }

    /// Whether the answer forbids caching (`NO_CACHE`): a classification
    /// does.
    pub fn forbids_caching(&self) -> (r: bool)
        ensures
            r == (self is Classified),
    {
        match self {
            Classification::Classified { .. } => true,
            _ => false,
        }
    }
}

/// The outcome of a completed lookup on the open endpoint: the country code
/// where there is one, no country where the record gives none, and a server
/// error that embeds the failure where the lookup failed.
pub fn classification_of(located: Result<Option<CountryRecord>, ClassifyError>) -> (r:
    Classification)
    ensures
        match located {
            Err(e) => r matches Classification::LookupFailed(f) && f.view_message()
                == future_failure(e.view_message()),
            Ok(found) => classifies(r, found),
        },
{
    match located {
        Err(e) => Classification::LookupFailed(lookup_failure(&e)),
        Ok(Some(CountryRecord { iso_code: Some(code), .. })) => {
            Classification::Classified { country: Some(code) }
        },
        Ok(_) => Classification::Classified { country: None },
    }
}

/// Serves the open classification endpoint: resolves the client address
/// from the trace and looks up its country. Only a lookup that succeeds
/// reports anything: its `location` counter.
pub fn classify_client(
    trace: &Vec<IpAddress>,
    trusted: &Vec<NetworkRange>,
    geoip: &GeoIp,
    metrics: &mut Vec<Metric>,
) -> (r: Classification)
    requires
        all_wf(trusted@),
    ensures
        match first_untrusted(trace@, trusted@) {
            None => {
                &&& r matches Classification::NoClientIp(e) && e.view_message()
                    == no_client_ip_message()
                &&& final(metrics)@ == old(metrics)@
            },
            Some(ip) => match geoip.outcome(ip) {
                Err(m) => {
                    &&& r matches Classification::LookupFailed(e) && e.view_message()
                        == future_failure(m)
                    &&& final(metrics)@ == old(metrics)@
                },
                Ok(found) => {
                    &&& classifies(r, found)
                    &&& reported(
                        old(metrics)@,
                        final(metrics)@,
                        "location"@,
                        Some(("country"@, location_tag(found))),
                    )
                },
            },
        },
{
    match resolve(trace, trusted) {
        Err(e) => Classification::NoClientIp(e),
        Ok(ip) => {
            let located = geoip.locate(ip, metrics);
            classification_of(located)
        },
    }
}

} // verus!
