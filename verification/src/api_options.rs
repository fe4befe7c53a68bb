use vstd::prelude::*;
use isocountry::CountryCode;
use weather_util_rust::latitude::Latitude;
use weather_util_rust::longitude::Longitude;

use crate::config::{Config, ConfigInner};
use crate::errors::ServiceError;
use crate::location::{LocationView, WeatherLocation};

verus! {

/// The settings a weather api client is made from: its key, its endpoint and
/// the paths of its weather and geo services.
pub struct ApiSettings {
    pub api_key: String,
    pub api_endpoint: String,
    pub api_path: String,
    pub geo_path: String,
}

impl ApiSettings {
    /// The client settings that a configuration names.
    pub fn from_config(config: &Config) -> (r: ApiSettings)
        ensures
            r.api_key@ == config.0.api_key@,
            r.api_endpoint@ == config.0.api_endpoint@,
            r.api_path@ == config.0.api_path@,
            r.geo_path@ == config.0.geo_path@,
    {
        let c = config.inner();
        ApiSettings {
            api_key: c.api_key.clone(),
            api_endpoint: c.api_endpoint.clone(),
            api_path: c.api_path.clone(),
            geo_path: c.geo_path.clone(),
        }
    }
}

/// Query options of the weather endpoints.
pub struct ApiOptions {
    pub zip: Option<u64>,
    pub country_code: Option<CountryCode>,
    pub q: Option<String>,
    pub lat: Option<Latitude>,
    pub lon: Option<Longitude>,
    pub appid: Option<String>,
}

/// The text of the error returned when no option names a location.
pub open spec fn no_option_text() -> Seq<char> {
    "\n\nERROR: You must specify at least one option"@
}

impl ApiOptions {
    /// Which location a request asks for: the request's zip code (with its
    /// country code), city name, or latitude and longitude, in that order;
    /// failing those, the configured zip code, city name, or latitude and
    /// longitude, in that order; `None` where none is given.
    pub open spec fn resolve_location(self, config: ConfigInner) -> Option<LocationView> {
        if self.zip is Some {
            Some(LocationView::ZipCode { zipcode: self.zip->0, country_code: self.country_code })
        } else if self.q is Some {
            Some(LocationView::CityName(self.q->0@))
        } else if self.lat is Some && self.lon is Some {
            Some(LocationView::LatLon { latitude: self.lat->0, longitude: self.lon->0 })
        } else if config.zipcode is Some {
            Some(
                LocationView::ZipCode {
                    zipcode: config.zipcode->0,
                    country_code: config.country_code,
                },
            )
        } else if config.city_name is Some {
            Some(LocationView::CityName(config.city_name->0@))
        } else if config.lat is Some && config.lon is Some {
            Some(LocationView::LatLon { latitude: config.lat->0, longitude: config.lon->0 })
        } else {
            None
        }
    }

    /// The api to query: the settings of `api`, with the request's `appid` as
    /// key where one is given.
    pub fn get_weather_api(&self, api: &ApiSettings) -> (r: ApiSettings)
        ensures
            r.api_key@ == (match self.appid {
                Some(key) => key@,
                None => api.api_key@,
            }),
            r.api_endpoint@ == api.api_endpoint@,
            r.api_path@ == api.api_path@,
            r.geo_path@ == api.geo_path@,
    {
        let api_key = match &self.appid {
            Some(appid) => appid.clone(),
            None => api.api_key.clone(),
        };
        ApiSettings {
            api_key,
            api_endpoint: api.api_endpoint.clone(),
            api_path: api.api_path.clone(),
            geo_path: api.geo_path.clone(),
        }
    }

    /// The location the request asks for; a bad request where neither the
    /// request nor the configuration names one.
    pub fn get_weather_location(&self, config: &Config) -> (r: Result<WeatherLocation, ServiceError>)
        ensures
            match r {
                Ok(loc) => self.resolve_location(*config.0) == Some(loc@),
                Err(e) => self.resolve_location(*config.0) is None && (e matches ServiceError::BadRequest(m) && m@ == no_option_text()),
            },
    {
        let config = config.inner();
        if let Some(zipcode) = self.zip {
            Ok(WeatherLocation::ZipCode { zipcode, country_code: self.country_code })
        } else if let Some(city_name) = &self.q {
            Ok(WeatherLocation::CityName(city_name.clone()))
        } else if self.lat.is_some() && self.lon.is_some() {
            Ok(WeatherLocation::LatLon { latitude: self.lat.unwrap(), longitude: self.lon.unwrap() })
        } else if let Some(zipcode) = config.zipcode {
            Ok(WeatherLocation::ZipCode { zipcode, country_code: config.country_code })
        } else if let Some(city_name) = &config.city_name {
            Ok(WeatherLocation::CityName(city_name.clone()))
        } else if config.lat.is_some() && config.lon.is_some() {
            Ok(WeatherLocation::LatLon { latitude: config.lat.unwrap(), longitude: config.lon.unwrap() })
        } else {
            proof {
                reveal_strlit("\n\nERROR: You must specify at least one option");
            }
            Err(ServiceError::BadRequest(String::from_str("\n\nERROR: You must specify at least one option")))
        }
    }
}

/// A location named by the request wins over any configured default: where
/// the request gives a zip code, a city name, or both coordinates, the
/// configuration plays no part.
pub proof fn lemma_request_overrides_config(o: ApiOptions, c1: ConfigInner, c2: ConfigInner)
    requires
        o.zip is Some || o.q is Some || (o.lat is Some && o.lon is Some),
    ensures
        o.resolve_location(c1) == o.resolve_location(c2),
        o.resolve_location(c1) is Some,
{
}

/// Without request options the configured default is used, and a request is
/// refused only where neither names a location.
pub proof fn lemma_resolution_falls_back(o: ApiOptions, c: ConfigInner)
    ensures
        o.resolve_location(c) is None <==> (o.zip is None && o.q is None && !(o.lat is Some && o.lon is Some)
            && c.zipcode is None && c.city_name is None && !(c.lat is Some && c.lon is Some)),
{
}

/// The order in which a request's location is found: the request's zip code
/// (with its country code) first, then its city name, then its latitude and
/// longitude given together; without any of these, the configured zip code
/// (with the configured country code), whatever city name or coordinates are
/// also configured, then the configured city name, then the configured
/// latitude and longitude given together.
pub proof fn lemma_location_precedence(o: ApiOptions, c: ConfigInner)
    ensures
        o.zip is Some ==> o.resolve_location(c) == Some(
            LocationView::ZipCode { zipcode: o.zip->0, country_code: o.country_code },
        ),
        o.zip is None && o.q is Some ==> o.resolve_location(c) == Some(LocationView::CityName(o.q->0@)),
        o.zip is None && o.q is None && o.lat is Some && o.lon is Some ==> o.resolve_location(c) == Some(
            LocationView::LatLon { latitude: o.lat->0, longitude: o.lon->0 },
        ),
        o.zip is None && o.q is None && !(o.lat is Some && o.lon is Some) && c.zipcode is Some
            ==> o.resolve_location(c) == Some(
            LocationView::ZipCode { zipcode: c.zipcode->0, country_code: c.country_code },
        ),
        o.zip is None && o.q is None && !(o.lat is Some && o.lon is Some) && c.zipcode is None
            && c.city_name is Some ==> o.resolve_location(c) == Some(LocationView::CityName(c.city_name->0@)),
        o.zip is None && o.q is None && !(o.lat is Some && o.lon is Some) && c.zipcode is None
            && c.city_name is None && c.lat is Some && c.lon is Some ==> o.resolve_location(c) == Some(
            LocationView::LatLon { latitude: c.lat->0, longitude: c.lon->0 },
        ),
{
}

} // verus!
