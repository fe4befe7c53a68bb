use weather_api_rust::layout::{text_box, weather_text_box, TextBox};

#[test]
fn test_weather_text_box() {
    let text = "Current conditions Astoria US  \nTemperature: 72.3°F  \n\n";
    let b = weather_text_box(text);
    let lines: Vec<&str> = text.split('\n').map(str::trim_end).collect();
    let cols = lines.iter().map(|x| x.len()).max().unwrap_or(0) + 2;
    let rows = lines.len() + 2;
    assert_eq!(
        b,
        TextBox { rows, cols, content: lines.join("\n") }
    );
    assert_eq!(b.rows, 6);
    assert_eq!(b.cols, "Current conditions Astoria US".len() + 2);
}

#[test]
fn test_forecast_text_box() {
    let lines = vec!["Forecast:   ".to_string(), "2024-01-01 High 40°F Low 30°F".to_string()];
    let b = text_box(&lines, 2, 10);
    assert_eq!(b.rows, 4);
    assert_eq!(b.cols, "2024-01-01 High 40°F Low 30°F".len() + 10);
    assert_eq!(b.content, "Forecast:\n2024-01-01 High 40°F Low 30°F");
    let empty = text_box(&Vec::new(), 2, 10);
    assert_eq!(empty, TextBox { rows: 2, cols: 10, content: String::new() });
}
