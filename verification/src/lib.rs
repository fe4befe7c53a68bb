//! Verified core of a weather web service: location parsing, request option
//! resolution, configuration defaults, query building and cache-sync decisions.

pub mod common;
pub mod text;
pub mod decimal;
pub mod location;
pub mod errors;
pub mod config;
pub mod api_options;
pub mod plots;
pub mod model;
pub mod params;
pub mod routes;
pub mod md5sum;
pub mod s3_sync;
pub mod choices;
pub mod layout;
pub mod front;
