use weather_api_rust::common::{LocationCount, WeatherPage};
use weather_api_rust::front::{
    accept_entry, checked_page_url, choose_history_entry, choose_index_entry, clear_history, input_step, update_location, frequent_locations, history_plot_params, page_url, history_options, needs_fetch, search_step, select_step,
    selector_options, submit_location, LocationCache,
};
use weather_api_rust::location::{get_parameters, locations_equal, WeatherLocation};
use weather_api_rust::md5sum::char_is_whitespace;
use weather_api_rust::s3_sync::KeyItem;

fn strings(v: &[&str]) -> Vec<String> {
    v.iter().map(|s| s.to_string()).collect()
}

#[test]
fn test_submit_location() {
    let history = strings(&["10001", "Paris"]);
    assert!(submit_location("", &history).is_none());
    let (loc, h) = submit_location("Boston", &history).unwrap();
    assert_eq!(loc, WeatherLocation::CityName("Boston".into()));
    assert_eq!(h, strings(&["Boston", "10001", "Paris"]));
    let (loc, h) = submit_location("Paris", &history).unwrap();
    assert_eq!(loc, WeatherLocation::CityName("Paris".into()));
    assert_eq!(h, history);
    let (loc, _) = submit_location("55427", &history).unwrap();
    assert_eq!(loc, WeatherLocation::ZipCode { zipcode: 55427, country_code: None });
}

#[test]
fn test_selector_options() {
    let history = strings(&["Paris", "10001", "Austin"]);
    let recorded = strings(&["Boston", "Paris"]);
    let current = get_parameters("10001");
    assert_eq!(
        selector_options(&history, &recorded, &current),
        strings(&["Austin", "Boston", "Paris"])
    );
    let current = WeatherLocation::CityName("Nowhere".into());
    assert_eq!(
        selector_options(&history, &recorded, &current),
        strings(&["10001", "Austin", "Boston", "Paris"])
    );
    let lat_lon = get_parameters("40.7,-74.0");
    assert_eq!(
        selector_options(&strings(&["40.7,-74.0", "Paris"]), &Vec::new(), &lat_lon),
        strings(&["Paris"])
    );
}

#[test]
fn test_locations_equal() {
    assert!(locations_equal(&get_parameters("10001"), &get_parameters("10001")));
    assert!(!locations_equal(&get_parameters("10001"), &get_parameters("10002")));
    assert!(locations_equal(&get_parameters("40.7,-74.0"), &get_parameters("40.7,-74.0")));
    assert!(!locations_equal(&get_parameters("40.7,-74.0"), &get_parameters("10001")));
    assert!(!locations_equal(&get_parameters("Paris"), &get_parameters("Boston")));
}

#[test]
fn test_search_and_select_steps() {
    let mut cache = LocationCache::new();
    let history = strings(&["11106", "Paris"]);
    assert!(!cache.contains("Paris"));
    let (loc, h) = search_step("Paris", &history, &mut cache, false);
    assert_eq!(loc, WeatherLocation::CityName("Paris".into()));
    assert!(h.is_none());
    assert!(cache.contains("Paris"));
    let (loc, h) = search_step("Paris", &history, &mut cache, true);
    assert_eq!(loc, WeatherLocation::CityName("Paris".into()));
    assert_eq!(h.unwrap(), strings(&["11106", "Paris"]));
    let (loc, h) = select_step("11106", &history, &mut cache);
    assert_eq!(loc, WeatherLocation::ZipCode { zipcode: 11106, country_code: None });
    assert_eq!(h.unwrap(), strings(&["Paris", "11106"]));
    let (_, h) = select_step("11106", &history, &mut cache);
    assert!(h.is_none());
}

#[test]
fn test_fetch_decisions() {
    let cached = vec![get_parameters("10001")];
    assert!(!needs_fetch(&cached, &get_parameters("10001")));
    assert!(needs_fetch(&cached, &get_parameters("Paris")));
    assert!(!accept_entry(&cached, &get_parameters("10001")));
    assert!(accept_entry(&cached, &get_parameters("Paris")));
    assert!(accept_entry(&Vec::new(), &get_parameters("10001")));
}

#[test]
fn test_frequent_locations() {
    let counts = vec![
        LocationCount { location: "Paris".into(), count: 101 },
        LocationCount { location: "Boston".into(), count: 100 },
        LocationCount { location: "11106".into(), count: 5000 },
    ];
    assert_eq!(frequent_locations(&counts), strings(&["Paris", "11106"]));
    assert!(frequent_locations(&Vec::new()).is_empty());
}

#[test]
fn test_history_options() {
    let recorded = strings(&["Paris", "Boston", "11106", "Boston"]);
    assert_eq!(history_options(&recorded, "Boston"), strings(&["11106", "Paris"]));
    assert_eq!(history_options(&recorded, "x"), strings(&["11106", "Boston", "Paris"]));
}

#[test]
fn test_char_is_whitespace_matches_std() {
    for n in 0u32..=0x10FFFF {
        if let Some(c) = char::from_u32(n) {
            assert_eq!(char_is_whitespace(c), c.is_whitespace(), "{n:#x}");
        }
    }
}

#[test]
fn test_unix_timestamp_range() {
    let item = |t: i64| KeyItem::from_s3_parts(Some("k".into()), Some("e".into()), Some(t), 1);
    assert!(item(-377_705_116_800).is_some());
    assert!(item(-377_705_116_801).is_none());
    assert!(item(253_402_300_799).is_some());
    assert!(item(253_402_300_800).is_none());
}

#[test]
fn test_history_plot_params() {
    assert_eq!(
        history_plot_params("11106", None, None),
        vec![("name".to_string(), "11106".to_string())]
    );
    assert_eq!(
        history_plot_params("11106", Some("2023-01-01".into()), Some("2024-01-01".into())),
        vec![
            ("name".to_string(), "11106".to_string()),
            ("start_time".to_string(), "2023-01-01".to_string()),
            ("end_time".to_string(), "2024-01-01".to_string()),
        ]
    );
    assert_eq!(
        history_plot_params("x", None, Some("2024-01-01".into())),
        vec![
            ("name".to_string(), "x".to_string()),
            ("end_time".to_string(), "2024-01-01".to_string()),
        ]
    );
}

#[test]
fn test_page_url() {
    let host = "cloud.ddboline.net";
    let zip = get_parameters("10001");
    assert_eq!(
        page_url(host, WeatherPage::Index, &zip, "", None, None),
        "https://cloud.ddboline.net/weather/index.html?zip=10001&country_code=US"
    );
    assert_eq!(
        page_url(host, WeatherPage::Plot, &WeatherLocation::CityName("New York".into()), "", None, None),
        "https://cloud.ddboline.net/weather/plot.html?q=New+York"
    );
    assert_eq!(
        page_url(
            host,
            WeatherPage::HistoryPlot,
            &zip,
            "11106",
            Some("2023-01-01".into()),
            Some("2024-01-01".into())
        ),
        "https://cloud.ddboline.net/weather/history_plot.html?name=11106&start_time=2023-01-01&end_time=2024-01-01"
    );
    assert_eq!(
        page_url(host, WeatherPage::Wasm, &zip, "11106", None, None),
        "https://cloud.ddboline.net/wasm_weather/index.html"
    );
    assert_eq!(
        checked_page_url(host, WeatherPage::Wasm, &zip, "", None, None),
        Some("https://cloud.ddboline.net/wasm_weather/index.html".to_string())
    );
    assert_eq!(checked_page_url("bad host[", WeatherPage::Index, &zip, "", None, None), None);
}

#[test]
fn test_update_location() {
    let history = strings(&["11106"]);
    let here = get_parameters("10001");
    assert!(update_location(&here, &get_parameters("10001"), &history).is_none());
    let (loc, h) = update_location(&get_parameters("11106"), &here, &history).unwrap();
    assert_eq!(loc, here);
    assert_eq!(h, strings(&["10001", "11106"]));
    let (_, h) = update_location(&get_parameters("11106"), &here, &strings(&["10001"])).unwrap();
    assert_eq!(h, strings(&["10001"]));
    let zip_cc = WeatherLocation::ZipCode { zipcode: 501, country_code: Some(isocountry::CountryCode::USA) };
    let (_, h) = update_location(&here, &zip_cc, &Vec::new()).unwrap();
    assert_eq!(h, strings(&["00501 US"]));
}

#[test]
fn test_choose_entries() {
    let history = strings(&["11106"]);
    let recorded = strings(&["Paris"]);
    assert!(choose_index_entry("", &history, &recorded).is_none());
    let (loc, h, is_recorded) = choose_index_entry("Paris", &history, &recorded).unwrap();
    assert_eq!(loc, WeatherLocation::CityName("Paris".into()));
    assert_eq!(h, strings(&["Paris", "11106"]));
    assert!(is_recorded);
    let (_, h, is_recorded) = choose_index_entry("11106", &history, &recorded).unwrap();
    assert_eq!(h, history);
    assert!(!is_recorded);
    assert!(choose_history_entry("").is_none());
    assert_eq!(
        choose_history_entry("10001").unwrap(),
        ("10001".to_string(), WeatherLocation::ZipCode { zipcode: 10001, country_code: None })
    );
    assert_eq!(clear_history(), strings(&["10001"]));
}

#[test]
fn test_input_step_and_default_cache() {
    let mut cache = LocationCache::with_default();
    assert!(cache.contains("11106"));
    assert!(!cache.contains("10001"));
    let cached = vec![get_parameters("11106")];
    let (loc, switch) = input_step("11106", &mut cache, &cached);
    assert_eq!(loc, get_parameters("11106"));
    assert!(switch);
    let (loc, switch) = input_step("Paris", &mut cache, &cached);
    assert_eq!(loc, WeatherLocation::CityName("Paris".into()));
    assert!(!switch);
    assert!(cache.contains("Paris"));
}
