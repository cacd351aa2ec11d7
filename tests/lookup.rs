use classify_client::endpoints::{
    classification_of, classify_client, country_outcome, get_country, not_found_response,
    Classification, CountryOutcome, NO_CACHE, WRONG_KEY,
};
use classify_client::errors::ClassifyError;
use classify_client::geoip::{location_tag_of, settle_lookup, CountryRecord, GeoIp};
use classify_client::keys::ApiKeyPolicy;
use classify_client::metrics::Metric;
use classify_client::net::{IpAddress, NetworkRange};

fn us() -> CountryRecord {
    CountryRecord {
        iso_code: Some("US".to_string()),
        name: Some("United States".to_string()),
    }
}

fn tagged(name: &str, key: &str, value: &str) -> Metric {
    Metric { name: name.to_string(), tag: Some((key.to_string(), value.to_string())) }
}

fn counter(name: &str) -> Metric {
    Metric { name: name.to_string(), tag: None }
}

fn v4(a: u8, b: u8, c: u8, d: u8) -> IpAddress {
    IpAddress::V4(u32::from_be_bytes([a, b, c, d]))
}

fn policy() -> ApiKeyPolicy {
    ApiKeyPolicy::new(vec!["testkey".to_string()])
}

#[test]
fn found_record_reports_its_code() {
    let mut metrics = Vec::new();
    let r = settle_lookup(Ok(Some(us())), &mut metrics);
    assert_eq!(r, Ok(Some(us())));
    assert_eq!(metrics, vec![tagged("location", "country", "US")]);
}

#[test]
fn missing_address_is_no_record() {
    let mut metrics = Vec::new();
    let r = settle_lookup(Ok(None), &mut metrics);
    assert_eq!(r, Ok(None));
    assert_eq!(metrics, vec![tagged("location", "country", "unknown")]);
}

#[test]
fn record_without_code_is_unknown() {
    let rec = CountryRecord { iso_code: None, name: Some("Somewhere".to_string()) };
    assert_eq!(location_tag_of(&Some(rec)), "unknown");
    assert_eq!(location_tag_of(&None), "unknown");
    assert_eq!(location_tag_of(&Some(us())), "US");
}

#[test]
fn database_failure_is_an_error() {
    let mut metrics = Vec::new();
    let r = settle_lookup(Err("broken".to_string()), &mut metrics);
    assert_eq!(r.unwrap_err().message(), "maxminddb::MaxMindDbError: broken");
    assert!(metrics.is_empty());
}

#[test]
fn lookup_without_database_fails() {
    let geoip = GeoIp::without_database();
    let mut metrics = Vec::new();
    let r = geoip.locate(v4(7, 7, 7, 7), &mut metrics);
    assert_eq!(r.unwrap_err().message(), "No geoip database available");
    assert!(metrics.is_empty());
    assert!(!geoip.is_loaded());
}

#[test]
fn unreadable_database_is_refused() {
    let err = GeoIp::from_bytes(b"not a database".to_vec()).err().unwrap();
    assert!(err.message().starts_with("maxminddb::MaxMindDbError: "));
    assert!(GeoIp::from_bytes(Vec::new()).is_err());
}

#[test]
fn missing_key_gets_401() {
    let mut metrics = Vec::new();
    let trace = vec![v4(7, 7, 7, 7)];
    let r = get_country(&policy(), None, &trace, &Vec::new(), &GeoIp::without_database(), &mut metrics);
    assert_eq!(r, CountryOutcome::Unauthorized);
    assert_eq!(r.status(), 401);
    assert_eq!(WRONG_KEY, "Wrong key");
    assert_eq!(metrics, vec![tagged("country", "api_key", "invalid-key")]);
}

#[test]
fn refused_key_is_reported_by_value() {
    let mut metrics = Vec::new();
    let trace = vec![v4(7, 7, 7, 7)];
    let key = Some("firefox-downstream-foo-bar");
    let r = get_country(&policy(), key, &trace, &Vec::new(), &GeoIp::without_database(), &mut metrics);
    assert_eq!(r, CountryOutcome::Unauthorized);
    assert_eq!(metrics, vec![tagged("country", "api_key", "firefox-downstream-foo-bar")]);
}

#[test]
fn keyed_request_without_client_ip() {
    let trusted = vec![NetworkRange::parse("127.0.0.1/32").unwrap()];
    let mut metrics = Vec::new();
    let trace = vec![v4(127, 0, 0, 1)];
    let geoip = GeoIp::without_database();
    let r = get_country(&policy(), Some("testkey"), &trace, &trusted, &geoip, &mut metrics);
    assert_eq!(r, CountryOutcome::NoClientIp(ClassifyError::new("Could not determine IP")));
    assert_eq!(r.status(), 400);
    assert_eq!(metrics, vec![tagged("country", "api_key", "testkey")]);
}

#[test]
fn keyed_request_without_database() {
    let mut metrics = Vec::new();
    let trace = vec![v4(7, 7, 7, 7)];
    let geoip = GeoIp::without_database();
    let r = get_country(&policy(), Some("testkey"), &trace, &Vec::new(), &geoip, &mut metrics);
    assert_eq!(
        r,
        CountryOutcome::LookupFailed(ClassifyError::new(
            "Future failure: No geoip database available"
        ))
    );
    assert_eq!(r.status(), 500);
    assert!(!r.forbids_caching());
    assert_eq!(metrics, vec![tagged("country", "api_key", "testkey")]);
}

#[test]
fn known_country_is_found() {
    let mut metrics = Vec::new();
    let r = country_outcome(Ok(Some(us())), &mut metrics);
    assert_eq!(
        r,
        CountryOutcome::Found { code: "US".to_string(), name: "United States".to_string() }
    );
    assert_eq!(r.status(), 200);
    assert!(r.forbids_caching());
    assert_eq!(NO_CACHE, "max-age=0, no-cache, no-store, must-revalidate");
    assert_eq!(metrics, vec![counter("country_hit")]);
}

#[test]
fn unknown_country_is_not_found() {
    let mut metrics = Vec::new();
    let r = country_outcome(Ok(None), &mut metrics);
    assert_eq!(r, CountryOutcome::NotFound);
    assert_eq!(r.status(), 404);
    assert_eq!(metrics, vec![counter("country_miss")]);
    let mut metrics = Vec::new();
    let empty = CountryRecord { iso_code: None, name: None };
    assert_eq!(country_outcome(Ok(Some(empty)), &mut metrics), CountryOutcome::NotFound);
    assert_eq!(metrics, vec![counter("country_miss")]);
    let body = not_found_response();
    assert_eq!(body.code, 404);
    assert_eq!(body.message, "Not found");
    assert_eq!(body.errors.len(), 1);
    assert_eq!(body.errors[0].domain, "geolocation");
    assert_eq!(body.errors[0].reason, "notFound");
    assert_eq!(body.errors[0].message, "Not found");
}

#[test]
fn failed_lookup_is_a_server_error() {
    let mut metrics = Vec::new();
    let r = country_outcome(Err(ClassifyError::new("boom")), &mut metrics);
    assert_eq!(r, CountryOutcome::LookupFailed(ClassifyError::new("Future failure: boom")));
    assert_eq!(r.status(), 500);
    assert!(metrics.is_empty());
}

#[test]
fn partial_records() {
    let code_only = CountryRecord { iso_code: Some("FR".to_string()), name: None };
    assert_eq!(
        country_outcome(Ok(Some(code_only)), &mut Vec::new()),
        CountryOutcome::Found { code: "FR".to_string(), name: String::new() }
    );
    let name_only = CountryRecord { iso_code: None, name: Some("France".to_string()) };
    assert_eq!(
        country_outcome(Ok(Some(name_only)), &mut Vec::new()),
        CountryOutcome::Found { code: String::new(), name: "France".to_string() }
    );
}

#[test]
fn classification_outcomes() {
    assert_eq!(
        classification_of(Ok(Some(us()))),
        Classification::Classified { country: Some("US".to_string()) }
    );
    let none = classification_of(Ok(None));
    assert_eq!(none, Classification::Classified { country: None });
    assert_eq!(none.status(), 200);
    assert!(none.forbids_caching());
    assert_eq!(
        classification_of(Err(ClassifyError::new("boom"))),
        Classification::LookupFailed(ClassifyError::new("Future failure: boom"))
    );
}

#[test]
fn classification_needs_a_client_ip() {
    let mut metrics = Vec::new();
    let geoip = GeoIp::without_database();
    let r = classify_client(&Vec::new(), &Vec::new(), &geoip, &mut metrics);
    assert_eq!(r.status(), 400);
    assert!(metrics.is_empty());
    let r = classify_client(&vec![v4(1, 2, 3, 4)], &Vec::new(), &geoip, &mut metrics);
    assert_eq!(r.status(), 500);
    assert!(metrics.is_empty());
}

#[test]
fn error_messages() {
    assert_eq!(ClassifyError::new("x").message(), "x");
    assert_eq!(
        ClassifyError::from_source("Future failure", "bad").message(),
        "Future failure: bad"
    );
}
