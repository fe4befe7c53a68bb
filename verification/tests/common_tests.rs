use weather_api_rust::common::{
    locations_url,
    push_search_history, update_search_history, Pagination, WeatherPage, DEFAULT_LOCATION,
    DEFAULT_STR,
};
use weather_api_rust::config::{
    default_api_endpoint, default_api_path, default_geo_path, default_host, default_port,
    default_s3_bucket, default_server, parse_locations, Config,
};
use weather_api_rust::location::{get_parameters, WeatherLocation};

fn strings(v: &[&str]) -> Vec<String> {
    v.iter().map(|s| s.to_string()).collect()
}

#[test]
fn test_weather_page_paths() {
    assert_eq!(WeatherPage::Index.to_str(), "weather/index.html");
    assert_eq!(WeatherPage::Plot.to_str(), "weather/plot.html");
    assert_eq!(WeatherPage::HistoryPlot.to_str(), "weather/history_plot.html");
    assert_eq!(WeatherPage::Wasm.to_str(), "wasm_weather/index.html");
}

#[test]
fn test_update_search_history_moves_to_front() {
    let sh = strings(&["10001", "11106", "Minneapolis"]);
    let r = update_search_history(&sh, "11106");
    assert_eq!(r, strings(&["11106", "10001", "Minneapolis"]));
    let r = update_search_history(&sh, "Paris");
    assert_eq!(r, strings(&["Paris", "10001", "11106", "Minneapolis"]));
    let r = update_search_history(&Vec::new(), "Paris");
    assert_eq!(r, strings(&["Paris"]));
}

#[test]
fn test_update_search_history_idempotent() {
    let sh = strings(&["a", "b", "a", "c"]);
    let once = update_search_history(&sh, "a");
    assert_eq!(once, strings(&["a", "b", "c"]));
    let twice = update_search_history(&once, "a");
    assert_eq!(once, twice);
}

#[test]
fn test_push_search_history_moves_to_back() {
    let sh = strings(&["10001", "11106", "Minneapolis"]);
    let r = push_search_history(&sh, "10001");
    assert_eq!(r, strings(&["11106", "Minneapolis", "10001"]));
    let r = push_search_history(&sh, "Paris");
    assert_eq!(r, strings(&["10001", "11106", "Minneapolis", "Paris"]));
}

#[test]
fn test_defaults() {
    assert_eq!(default_port(), 3097);
    assert_eq!(default_host(), "0.0.0.0");
    assert_eq!(default_api_endpoint(), "api.openweathermap.org");
    assert_eq!(default_api_path(), "data/2.5/");
    assert_eq!(default_geo_path(), "geo/1.0/");
    assert_eq!(default_server(), "N/A");
    assert_eq!(default_s3_bucket(), "weather-data-backup-ddboline");
    assert_eq!(DEFAULT_STR, "11106");
    assert_eq!(DEFAULT_LOCATION, "10001");
}

#[test]
fn test_config_default_is_empty() {
    let config = Config::default();
    assert_eq!(config.inner().api_endpoint, "");
    assert_eq!(config.inner().zipcode, None);
    let config = Config::new();
    assert_eq!(config.inner().port, 0);
    assert!(config.inner().locations_to_record.is_empty());
    assert_eq!(config.inner().cache_dir, "");
    assert!(Config::default() == Config::new());
}

#[test]
fn test_get_parameters_zip() {
    assert_eq!(
        get_parameters("11106"),
        WeatherLocation::ZipCode { zipcode: 11106, country_code: None }
    );
    assert_eq!(
        get_parameters("+55427"),
        WeatherLocation::ZipCode { zipcode: 55427, country_code: None }
    );
}

#[test]
fn test_get_parameters_city() {
    assert_eq!(
        get_parameters("Minneapolis"),
        WeatherLocation::CityName("Minneapolis".into())
    );
    assert_eq!(get_parameters(""), WeatherLocation::CityName("".into()));
    // a number too large for u64 is not a zip code
    assert_eq!(
        get_parameters("99999999999999999999"),
        WeatherLocation::CityName("99999999999999999999".into())
    );
    // a comma, but the pieces are not coordinates
    assert_eq!(
        get_parameters("Astoria,NY"),
        WeatherLocation::CityName("Astoria,NY".into())
    );
}

#[test]
fn test_get_parameters_lat_lon() {
    let loc = get_parameters("40.7518359,-74.0529922");
    let lat: weather_util_rust::latitude::Latitude = "40.7518359".parse().unwrap();
    let lon: weather_util_rust::longitude::Longitude = "-74.0529922".parse().unwrap();
    assert_eq!(loc, WeatherLocation::LatLon { latitude: lat, longitude: lon });
    // pieces after the second are ignored
    let loc = get_parameters("40.7518359,-74.0529922,extra");
    assert_eq!(loc, WeatherLocation::LatLon { latitude: lat, longitude: lon });
}

#[test]
fn test_parse_locations() {
    let locs = parse_locations("11106;Minneapolis");
    assert_eq!(
        locs,
        vec![
            WeatherLocation::ZipCode { zipcode: 11106, country_code: None },
            WeatherLocation::CityName("Minneapolis".into()),
        ]
    );
    let locs = parse_locations("");
    assert_eq!(locs, vec![WeatherLocation::CityName("".into())]);
}

#[test]
fn test_pagination_fields() {
    let p = Pagination { limit: 10, offset: 0, total: 3 };
    assert_eq!(p.limit, 10);
}

#[test]
fn test_locations_url() {
    assert_eq!(
        locations_url("https:", "cloud.ddboline.net"),
        "https://cloud.ddboline.net/weather/locations"
    );
    assert_eq!(
        locations_url("http:", "localhost:8080"),
        "https://www.ddboline.net/weather/locations"
    );
}
