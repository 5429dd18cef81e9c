//! Resolving an IP address, taken from a request path, to a JSON geolocation
//! response.

pub mod geodb;
pub mod ip;
pub mod record;
pub mod service;
