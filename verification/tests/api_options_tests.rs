use std::sync::Arc;

use weather_api_rust::api_options::{ApiOptions, ApiSettings};
use weather_api_rust::config::{Config, ConfigInner};
use weather_api_rust::errors::ServiceError;
use weather_api_rust::location::WeatherLocation;
use weather_util_rust::latitude::Latitude;
use weather_util_rust::longitude::Longitude;

fn settings(key: &str) -> ApiSettings {
    ApiSettings {
        api_key: key.into(),
        api_endpoint: "api.openweathermap.org".into(),
        api_path: "data/2.5/".into(),
        geo_path: "geo/1.0/".into(),
    }
}

fn empty_options() -> ApiOptions {
    ApiOptions { zip: None, country_code: None, q: None, lat: None, lon: None, appid: None }
}

fn config_with(f: impl FnOnce(&mut ConfigInner)) -> Config {
    let mut inner = ConfigInner::default();
    f(&mut inner);
    Config(Arc::new(inner))
}

#[test]
fn test_api_options() {
    let api = settings("KEY");
    let opt = ApiOptions { zip: Some(55427), ..empty_options() };
    let same = opt.get_weather_api(&api);
    assert_eq!(same.api_key, "KEY");
    assert_eq!(same.api_endpoint, api.api_endpoint);
    assert_eq!(same.api_path, api.api_path);
    assert_eq!(same.geo_path, api.geo_path);

    let config = Config::default();
    let loc = opt.get_weather_location(&config).unwrap();
    assert_eq!(loc, WeatherLocation::ZipCode { zipcode: 55427, country_code: None });

    let opt = ApiOptions { appid: Some("TEST".into()), ..empty_options() };
    let config = config_with(|c| c.zipcode = Some(49934));
    let loc = opt.get_weather_location(&config).unwrap();
    assert_eq!(loc, WeatherLocation::ZipCode { zipcode: 49934, country_code: None });

    let config = config_with(|c| c.city_name = Some("TEST CITY".into()));
    let loc = opt.get_weather_location(&config).unwrap();
    assert_eq!(loc, WeatherLocation::CityName("TEST CITY".into()));

    let lat: Latitude = 40.7518359f64.try_into().unwrap();
    let lon: Longitude = (-74.0529922f64).try_into().unwrap();
    let config = config_with(|c| {
        c.lat = Some(lat);
        c.lon = Some(lon);
    });
    let loc = opt.get_weather_location(&config).unwrap();
    assert_eq!(loc, WeatherLocation::LatLon { latitude: lat, longitude: lon });
}

#[test]
fn test_get_weather_api_uses_appid() {
    let api = settings("KEY");
    let opt = ApiOptions { appid: Some("TEST".into()), ..empty_options() };
    let with_key = opt.get_weather_api(&api);
    assert_eq!(with_key.api_key, "TEST");
    assert_eq!(with_key.api_endpoint, "api.openweathermap.org");
    assert_eq!(with_key.api_path, "data/2.5/");
    assert_eq!(with_key.geo_path, "geo/1.0/");
}

#[test]
fn test_request_wins_over_config() {
    let config = config_with(|c| c.zipcode = Some(49934));
    let opt = ApiOptions { q: Some("Paris".into()), ..empty_options() };
    assert_eq!(
        opt.get_weather_location(&config).unwrap(),
        WeatherLocation::CityName("Paris".into())
    );
    let opt = ApiOptions {
        zip: Some(10001),
        country_code: Some(isocountry::CountryCode::USA),
        q: Some("Paris".into()),
        ..empty_options()
    };
    assert_eq!(
        opt.get_weather_location(&config).unwrap(),
        WeatherLocation::ZipCode { zipcode: 10001, country_code: Some(isocountry::CountryCode::USA) }
    );
}

#[test]
fn test_lat_without_lon_falls_back() {
    let lat: Latitude = 41.0f64.try_into().unwrap();
    let opt = ApiOptions { lat: Some(lat), ..empty_options() };
    let config = config_with(|c| c.city_name = Some("Astoria".into()));
    assert_eq!(
        opt.get_weather_location(&config).unwrap(),
        WeatherLocation::CityName("Astoria".into())
    );
}

#[test]
fn test_no_location_is_bad_request() {
    let opt = empty_options();
    let err = opt.get_weather_location(&Config::default()).unwrap_err();
    assert_eq!(
        err,
        ServiceError::BadRequest("\n\nERROR: You must specify at least one option".into())
    );
}
