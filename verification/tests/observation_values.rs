use fred_wrapper::missing_value;

fn value_of(json: &str) -> Option<f64> {
    let o: serde_json::Value = serde_json::from_str(json).unwrap();
    missing_value(o["value"].as_str()).map(|v| v.parse::<f64>().unwrap())
}

#[test]
fn missing_observation_is_none() {
    let value = value_of(
        r#"{"realtime_start":"2020-01-01","realtime_end":"2020-01-01","date":"2020-01-01","value":"."}"#,
    );
    assert_eq!(value, None)
}

#[test]
fn numeric_observation_is_parsed() {
    let value = value_of(
        r#"{"realtime_start":"2020-01-01","realtime_end":"2020-01-01","date":"2020-01-01","value":"12.5"}"#,
    );
    assert_eq!(value, Some(12.5))
}

#[test]
fn null_observation_is_none() {
    assert_eq!(missing_value(None), None);
}

#[test]
fn only_a_lone_dot_is_missing() {
    assert_eq!(missing_value(Some("..")), Some(".."));
    assert_eq!(missing_value(Some("")), Some(""));
    assert_eq!(missing_value(Some("0.5")), Some("0.5"));
}
