use vstd::prelude::*;

use crate::net::NetworkRange;

verus! {

/// Where the country database is read from, by default.
pub fn default_geoip_db_path() -> (r: String)
    ensures
        r@ == "./GeoLite2-Country.mmdb"@,
{
    String::from_str("./GeoLite2-Country.mmdb")
}

/// The interface the server listens on, by default: all of them.
pub fn default_host() -> (r: String)
    ensures
        r@ == "[::]"@,
{
    String::from_str("[::]")
}

/// The port the server listens on, by default.
pub fn default_port() -> (r: u16)
    ensures
        r == 8000,
{
    8000
}

/// Where the version document is read from, by default.
pub fn default_version_file() -> (r: String)
    ensures
        r@ == "./version.json"@,
{
    String::from_str("./version.json")
}

/// Where metrics are sent, by default.
pub fn default_metrics_target() -> (r: String)
    ensures
        r@ == "localhost:8125"@,
{
    String::from_str("localhost:8125")
}

/// The configuration of the service.
#[derive(Clone, Debug)]
pub struct Settings {
    pub debug: bool,
    pub geoip_db_path: String,
    pub host: String,
    pub port: u16,
    pub trusted_proxy_list: Vec<NetworkRange>,
    pub human_logs: bool,
    pub version_file: String,
    pub sentry_dsn: Option<String>,
    pub metrics_target: String,
    pub api_keys_file: Option<String>,
}

impl Default for Settings {
    fn default() -> (r: Settings)
        ensures
            !r.debug,
            r.geoip_db_path@ == "./GeoLite2-Country.mmdb"@,
            r.host@ == "[::]"@,
            r.port == 8000,
            r.trusted_proxy_list@.len() == 0,
            !r.human_logs,
            r.version_file@ == "./version.json"@,
            r.sentry_dsn is None,
            r.metrics_target@ == "localhost:8125"@,
            r.api_keys_file is None,
    {
        Settings {
            debug: false,
            geoip_db_path: default_geoip_db_path(),
            host: default_host(),
            port: default_port(),
            trusted_proxy_list: Vec::new(),
            human_logs: false,
            version_file: default_version_file(),
            sentry_dsn: None,
            metrics_target: default_metrics_target(),
            api_keys_file: None,
        }
    }
}

} // verus!
