use weather_api_rust::decimal::{parse_u64, u64_to_decimal, IntErrorKind};
use weather_api_rust::model::{
    condition_text, locations_query, name_dates_query, parquet_file_name, weather_data_query,
    zip_query, WeatherCondition,
};
use weather_api_rust::params::bind_parameters;
use weather_api_rust::plots::{get_forecast_plots, get_history_plots, PlotData};

#[test]
fn test_condition_text() {
    let conds = vec![
        WeatherCondition { main: "Clouds".into(), description: "few clouds".into() },
        WeatherCondition { main: "Rain".into(), description: "light rain".into() },
    ];
    assert_eq!(condition_text(&conds), "Clouds few clouds , Rain light rain ");
    assert_eq!(condition_text(&Vec::new()), "");
}

#[test]
fn test_name_dates_query() {
    assert_eq!(
        name_dates_query(false, false, false, false),
        "\n                SELECT * FROM weather_data\n                \n                ORDER BY created_at\n            "
    );
    assert_eq!(
        name_dates_query(true, false, true, true),
        "\n                SELECT * FROM weather_data\n                WHERE location_name = $name AND created_at >= $start_date AND created_at <= $end_date\n                ORDER BY created_at\n            "
    );
    assert_eq!(
        name_dates_query(false, true, false, false),
        "\n                SELECT * FROM weather_data\n                WHERE server = $server\n                ORDER BY created_at\n            "
    );
}

#[test]
fn test_weather_data_query() {
    assert_eq!(
        weather_data_query(None, None, false),
        "SELECT * FROM weather_data ORDER BY created_at"
    );
    assert_eq!(
        weather_data_query(Some(20), Some(10), true),
        "SELECT * FROM weather_data ORDER BY created_at DESC OFFSET 20 LIMIT 10"
    );
    assert_eq!(
        weather_data_query(None, Some(0), true),
        "SELECT * FROM weather_data ORDER BY created_at DESC LIMIT 0"
    );
}

#[test]
fn test_locations_query() {
    let q = locations_query(Some(0), Some(10));
    assert!(q.ends_with("ORDER BY 2 DESC\n             OFFSET 0 LIMIT 10"));
    assert!(q.contains("SELECT location_name, count(*) as count"));
}

#[test]
fn test_zip_query() {
    assert_eq!(
        zip_query(false),
        "\n                SELECT * FROM weather_location_cache \n                WHERE zipcode=$zip\n                ORDER BY created_at DESC\n                LIMIT 1\n            "
    );
    assert!(zip_query(true).contains("WHERE zipcode=$zip AND country_code=$country_code\n"));
}

#[test]
fn test_parquet_file_name() {
    assert_eq!(parquet_file_name(2023, 1), "weather_data_2023_01.parquet");
    assert_eq!(parquet_file_name(2024, 12), "weather_data_2024_12.parquet");
    assert_eq!(parquet_file_name(7, 3), "weather_data_0007_03.parquet");
    assert_eq!(parquet_file_name(12345, 123), "weather_data_12345_123.parquet");
    assert_eq!(parquet_file_name(-5, -1), format!("weather_data_{:04}_{:02}.parquet", -5, -1));
}

#[test]
fn test_decimal_roundtrip() {
    for n in [0u64, 7, 10, 99, 12345, u64::MAX] {
        let s = u64_to_decimal(n);
        assert_eq!(s, n.to_string());
        assert_eq!(parse_u64(&s), Ok(n));
    }
}

#[test]
fn test_parse_u64_errors() {
    assert_eq!(parse_u64(""), Err(IntErrorKind::Empty));
    assert_eq!(parse_u64("+"), Err(IntErrorKind::InvalidDigit));
    assert_eq!(parse_u64("-1"), Err(IntErrorKind::InvalidDigit));
    assert_eq!(parse_u64("12a"), Err(IntErrorKind::InvalidDigit));
    assert_eq!(parse_u64("18446744073709551616"), Err(IntErrorKind::PosOverflow));
    assert_eq!(parse_u64("+18446744073709551615"), Ok(u64::MAX));
    assert_eq!(parse_u64("99999999999999999999x"), Err(IntErrorKind::PosOverflow));
    assert_eq!(parse_u64("9999999999999999999x"), Err(IntErrorKind::InvalidDigit));
    assert_eq!(parse_u64("1x99999999999999999999"), Err(IntErrorKind::InvalidDigit));
    for s in [
        "",
        "+",
        "-1",
        "12a",
        "18446744073709551616",
        "99999999999999999999x",
        "9999999999999999999x",
        "1x99999999999999999999",
        "+x",
    ] {
        let err = s.parse::<u64>().unwrap_err();
        assert_eq!(parse_u64(s).unwrap_err().message(), err.to_string());
    }
}

#[test]
fn test_plots() {
    let plots = get_forecast_plots("zip=55427", "72.3", "22.4");
    assert_eq!(
        plots,
        vec![
            PlotData {
                plot_url: "/weather/forecast-plots/temperature?zip=55427".into(),
                title: "Temperature Forecast 72.3 F / 22.4 C".into(),
                xaxis: String::new(),
                yaxis: "F".into(),
            },
            PlotData {
                plot_url: "/weather/forecast-plots/precipitation?zip=55427".into(),
                title: "Precipitation Forecast".into(),
                xaxis: String::new(),
                yaxis: "in".into(),
            },
        ]
    );
    let plots = get_history_plots("name=11106", "50.0", "10.0");
    assert_eq!(plots[0].plot_url, "/weather/history-plots/temperature?name=11106");
    assert_eq!(plots[1].plot_url, "/weather/history-plots/precipitation?name=11106");
}

#[test]
fn test_plot_script() {
    let plots = get_forecast_plots("zip=55427", "72.3", "22.4");
    let mut expected = String::from("\n async function forecast_plots(){\n\n");
    for pd in &plots {
        expected.push_str(&format!(
            "\t await create_plot('{}', '{}', '{}', '{}');\n",
            pd.plot_url, pd.title, pd.xaxis, pd.yaxis
        ));
    }
    expected.push_str("};\n");
    expected.push_str("forecast_plots();\n");
    assert_eq!(weather_api_rust::plots::plot_script(&plots), expected);
    assert_eq!(
        weather_api_rust::plots::plot_script(&Vec::new()),
        "\n async function forecast_plots(){\n\n};\nforecast_plots();\n"
    );
}

#[test]
fn test_bind_parameters() {
    let names = vec!["start".to_string(), "start_date".to_string(), "name".to_string()];
    assert_eq!(
        bind_parameters("a=$start_date AND b=$start AND c=$name", &names),
        "a=$2 AND b=$1 AND c=$3"
    );
    assert_eq!(bind_parameters("x=$other AND y=$ AND $name", &names), "x=$other AND y=$ AND $3");
    assert_eq!(bind_parameters("no parameters", &Vec::new()), "no parameters");
    let many: Vec<String> = (0..12).map(|i| format!("p{i}")).collect();
    assert_eq!(bind_parameters("$p11,$p0", &many), "$12,$1");
    assert_eq!(
        bind_parameters(&zip_query(true), &vec!["zip".to_string(), "country_code".to_string()]),
        zip_query(true).replace("$zip", "$1").replace("$country_code", "$2")
    );
}
