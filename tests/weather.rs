use bmos_server::weather::{weather_enabled, weather_query, weather_step, weather_text};

#[test]
fn weather_line_shows_the_snapshot_verbatim() {
    assert_eq!(weather_text("Zaragoza", "clear sky"), "weather in Zaragoza: clear sky");
}

#[test]
fn weather_query_joins_location_and_country() {
    assert_eq!(weather_query("Zaragoza", "ES"), "Zaragoza,ES");
}

#[test]
fn weather_needs_all_three_parameters() {
    let some = |s: &str| Some(s.to_string());
    assert!(weather_enabled(&some("key"), &some("Zaragoza"), &some("ES")));
    assert!(!weather_enabled(&None, &some("Zaragoza"), &some("ES")));
    assert!(!weather_enabled(&some("key"), &None, &some("ES")));
    assert!(!weather_enabled(&some("key"), &some("Zaragoza"), &None));
}

#[test]
fn weather_loop_ends_only_on_done() {
    assert!(!weather_step("5more"));
    assert!(!weather_step("weather"));
    assert!(weather_step("done"));
}
