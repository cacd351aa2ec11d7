use classify_client::endpoints::{heartbeat, lookup_is_healthy};
use classify_client::errors::ClassifyError;
use classify_client::geoip::{CountryRecord, GeoIp};
use classify_client::metrics::{response_status, Metric};
use classify_client::net::{all_well_formed, IpAddress, NetworkRange};

fn record(code: Option<&str>) -> CountryRecord {
    CountryRecord { iso_code: code.map(|c| c.to_string()), name: None }
}

#[test]
fn heartbeat_needs_a_database() {
    let mut metrics: Vec<Metric> = Vec::new();
    assert!(!heartbeat(&GeoIp::without_database(), &mut metrics));
    assert!(metrics.is_empty());
}

#[test]
fn healthy_lookups() {
    assert!(lookup_is_healthy(&Ok(Some(record(Some("US"))))));
    assert!(!lookup_is_healthy(&Ok(Some(record(Some(""))))));
    assert!(!lookup_is_healthy(&Ok(Some(record(None)))));
    assert!(!lookup_is_healthy(&Ok(None)));
    assert!(!lookup_is_healthy(&Err(ClassifyError::new("down"))));
}

#[test]
fn response_status_tags() {
    assert_eq!(response_status(200), "success");
    assert_eq!(response_status(201), "success");
    assert_eq!(response_status(299), "success");
    assert_eq!(response_status(300), "error");
    assert_eq!(response_status(404), "error");
    assert_eq!(response_status(500), "error");
    assert_eq!(response_status(199), "error");
}

#[test]
fn range_well_formedness() {
    let ok = NetworkRange { addr: IpAddress::V4(0), prefix_len: 32 };
    let too_long = NetworkRange { addr: IpAddress::V4(0), prefix_len: 33 };
    let v6 = NetworkRange { addr: IpAddress::V6(0), prefix_len: 128 };
    assert!(ok.well_formed());
    assert!(!too_long.well_formed());
    assert!(v6.well_formed());
    assert!(all_well_formed(&vec![ok, v6]));
    assert!(!all_well_formed(&vec![ok, too_long]));
    assert!(all_well_formed(&Vec::new()));
}
