use vstd::prelude::*;
use isocountry::CountryCode;
use std::sync::Arc;
use weather_util_rust::latitude::Latitude;
use weather_util_rust::longitude::Longitude;

use crate::location::{get_parameters, spec_get_parameters, LocationView, WeatherLocation};
use crate::text::{split_char, split_on_char};

verus! {

/// Configuration data.
#[derive(PartialEq)]
pub struct ConfigInner {
    /// openweathermap.org api key
    pub api_key: String,
    /// openweathermap.org api endpoint
    pub api_endpoint: String,
    /// api path (default `data/2.5/`)
    pub api_path: String,
    /// geo api path (default `geo/1.0/`)
    pub geo_path: String,
    /// optional default zipcode
    pub zipcode: Option<u64>,
    /// optional default country code
    pub country_code: Option<CountryCode>,
    /// optional default city name
    pub city_name: Option<String>,
    /// optional default latitude
    pub lat: Option<Latitude>,
    /// optional default longitude
    pub lon: Option<Longitude>,
    pub host: String,
    pub port: u32,
    pub locations_to_record: Vec<WeatherLocation>,
    pub database_url: String,
    pub server: String,
    pub secret_path: String,
    pub jwt_secret_path: String,
    pub cache_dir: String,
    pub s3_bucket: String,
}

/// The mathematical model of a [`ConfigInner`]: each text by its characters,
/// each location by its model.
pub struct ConfigView {
    pub api_key: Seq<char>,
    pub api_endpoint: Seq<char>,
    pub api_path: Seq<char>,
    pub geo_path: Seq<char>,
    pub zipcode: Option<u64>,
    pub country_code: Option<CountryCode>,
    pub city_name: Option<Seq<char>>,
    pub lat: Option<Latitude>,
    pub lon: Option<Longitude>,
    pub host: Seq<char>,
    pub port: u32,
    pub locations_to_record: Seq<LocationView>,
    pub database_url: Seq<char>,
    pub server: Seq<char>,
    pub secret_path: Seq<char>,
    pub jwt_secret_path: Seq<char>,
    pub cache_dir: Seq<char>,
    pub s3_bucket: Seq<char>,
}

impl View for ConfigInner {
    type V = ConfigView;

    open spec fn view(&self) -> ConfigView {
        ConfigView {
            api_key: self.api_key@,
            api_endpoint: self.api_endpoint@,
            api_path: self.api_path@,
            geo_path: self.geo_path@,
            zipcode: self.zipcode,
            country_code: self.country_code,
            city_name: match self.city_name {
                Some(c) => Some(c@),
                None => None,
            },
            lat: self.lat,
            lon: self.lon,
            host: self.host@,
            port: self.port,
            locations_to_record: self.locations_to_record@.map_values(|l: WeatherLocation| l@),
            database_url: self.database_url@,
            server: self.server@,
            secret_path: self.secret_path@,
            jwt_secret_path: self.jwt_secret_path@,
            cache_dir: self.cache_dir@,
            s3_bucket: self.s3_bucket@,
        }
    }
}

/// The empty configuration: every text empty, every option absent, port
/// zero, no locations.
pub open spec fn empty_config() -> ConfigView {
    ConfigView {
        api_key: Seq::empty(),
        api_endpoint: Seq::empty(),
        api_path: Seq::empty(),
        geo_path: Seq::empty(),
        zipcode: None,
        country_code: None,
        city_name: None,
        lat: None,
        lon: None,
        host: Seq::empty(),
        port: 0,
        locations_to_record: Seq::empty(),
        database_url: Seq::empty(),
        server: Seq::empty(),
        secret_path: Seq::empty(),
        jwt_secret_path: Seq::empty(),
        cache_dir: Seq::empty(),
        s3_bucket: Seq::empty(),
    }
}

impl Default for ConfigInner {
    /// The empty configuration.
    fn default() -> (r: Self)
        ensures
            r@ == empty_config(),
    {
        let r = ConfigInner {
            api_key: String::new(),
            api_endpoint: String::new(),
            api_path: String::new(),
            geo_path: String::new(),
            zipcode: None,
            country_code: None,
            city_name: None,
            lat: None,
            lon: None,
            host: String::new(),
            port: 0,
            locations_to_record: Vec::new(),
            database_url: String::new(),
            server: String::new(),
            secret_path: String::new(),
            jwt_secret_path: String::new(),
            cache_dir: String::new(),
            s3_bucket: String::new(),
        };
        assert(r.locations_to_record@.map_values(|l: WeatherLocation| l@) =~= Seq::<LocationView>::empty());
        assert(r@ == empty_config());
        r
    }
}

/// Shared configuration.
#[derive(PartialEq)]
pub struct Config(pub Arc<ConfigInner>);

impl Config {
    /// The configuration with every field at its default.
    pub fn new() -> (r: Self)
        ensures
            (*r.0)@ == empty_config(),
    {
        Config(Arc::new(ConfigInner::default()))
    }

    /// Wraps configuration data.
    pub fn from_inner(inner: ConfigInner) -> (r: Self)
        ensures
            *r.0 == inner,
    {
        Config(Arc::new(inner))
    }

    /// The configuration data.
    pub fn inner(&self) -> (r: &ConfigInner)
        ensures
            *r == *self.0,
    {
        &self.0
    }
}

impl Default for Config {
    fn default() -> (r: Self)
        ensures
            (*r.0)@ == empty_config(),
    {
        Config::new()
    }
}

impl Clone for Config {
    fn clone(&self) -> (r: Self)
        ensures
            *r.0 == *self.0,
    {
        Config(Arc::clone(&self.0))
    }
}

/// Default listen address.
pub fn default_host() -> (r: String)
    ensures
        r@ == "0.0.0.0"@,
{
    String::from_str("0.0.0.0")
}

/// Default listen port.
pub fn default_port() -> (r: u32)
    ensures
        r == 3097,
{
    3097
}

/// Default openweathermap.org endpoint.
pub fn default_api_endpoint() -> (r: String)
    ensures
        r@ == "api.openweathermap.org"@,
{
    String::from_str("api.openweathermap.org")
}

/// Default weather api path.
pub fn default_api_path() -> (r: String)
    ensures
        r@ == "data/2.5/"@,
{
    String::from_str("data/2.5/")
}

/// Default geo api path.
pub fn default_geo_path() -> (r: String)
    ensures
        r@ == "geo/1.0/"@,
{
    String::from_str("geo/1.0/")
}

/// Default server name recorded with each observation.
pub fn default_server() -> (r: String)
    ensures
        r@ == "N/A"@,
{
    String::from_str("N/A")
}

/// Default bucket for the parquet backups.
pub fn default_s3_bucket() -> (r: String)
    ensures
        r@ == "weather-data-backup-ddboline"@,
{
    String::from_str("weather-data-backup-ddboline")
}

/// The locations to record, as a `;`-separated list of search texts.
pub fn parse_locations(s: &str) -> (r: Vec<WeatherLocation>)
    ensures
        r@.len() == split_char(s@, ';').len(),
        forall|i: int|
            0 <= i < r@.len() ==> #[trigger] r@[i]@ == spec_get_parameters(split_char(s@, ';')[i]),
{
    let parts = split_on_char(s, ';');
    let mut out: Vec<WeatherLocation> = Vec::new();
    let mut i: usize = 0;
    while i < parts.len()
        invariant
            i <= parts@.len(),
            crate::text::string_views(parts@) == split_char(s@, ';'),
            out@.len() == i,
            forall|j: int|
                0 <= j < i ==> #[trigger] out@[j]@ == spec_get_parameters(split_char(s@, ';')[j]),
        decreases parts@.len() - i,
    {
        let loc = get_parameters(parts[i].as_str());
        assert(crate::text::string_views(parts@)[i as int] == parts@[i as int]@);
        out.push(loc);
        i += 1;
    }
    out
}

} // verus!
