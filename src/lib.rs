//! Client classification: resolves the address of the client behind a chain
//! of proxies, looks up its country, and gates the keyed lookup behind an
//! API-key policy.

pub mod addr;
pub mod endpoints;
pub mod errors;
pub mod geoip;
pub mod keys;
pub mod metrics;
pub mod net;
pub mod settings;
pub mod text;
pub mod trace;
