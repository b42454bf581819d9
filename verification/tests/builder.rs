use axcp_sdk::models::TelemetryData;
use axcp_sdk::telemetry::TelemetryBuilder;

fn tag_value(tags: &[(String, String)], key: &str) -> Option<String> {
    tags.iter().find(|(k, _)| k == key).map(|(_, v)| v.clone())
}

#[test]
fn test_telemetry_builder() {
    let data = TelemetryBuilder::new("test.metric".to_string(), 42.0f64.to_bits())
        .with_tag("tag1".to_string(), "value1".to_string())
        .with_tag("tag2".to_string(), "value2".to_string())
        .with_timestamp(1234567890)
        .build();

    assert_eq!(data.metric, "test.metric");
    assert_eq!(f64::from_bits(data.value_bits), 42.0);
    assert_eq!(tag_value(&data.tags, "tag1"), Some("value1".to_string()));
    assert_eq!(tag_value(&data.tags, "tag2"), Some("value2".to_string()));
    assert_eq!(data.timestamp, Some(1234567890));
}

#[test]
fn repeated_tag_key_replaces_the_value() {
    let data = TelemetryBuilder::new("m".to_string(), 0.0f64.to_bits())
        .with_tag("host".to_string(), "first".to_string())
        .with_tag("env".to_string(), "prod".to_string())
        .with_tag("host".to_string(), "second".to_string())
        .build();
    assert_eq!(data.tags.len(), 2);
    assert_eq!(tag_value(&data.tags, "host"), Some("second".to_string()));
    assert_eq!(tag_value(&data.tags, "env"), Some("prod".to_string()));
}

#[test]
fn missing_timestamp_defaults_to_build_time() {
    let before = std::time::SystemTime::now()
        .duration_since(std::time::UNIX_EPOCH)
        .unwrap()
        .as_millis() as i64;
    let data = TelemetryBuilder::new("m".to_string(), 0.0f64.to_bits()).build();
    let after = std::time::SystemTime::now()
        .duration_since(std::time::UNIX_EPOCH)
        .unwrap()
        .as_millis() as i64;
    let stamp = data.timestamp.expect("the clock reads after the epoch");
    assert!(before <= stamp && stamp <= after);
}

#[test]
fn serialized_point_parses_back_identical() {
    // a point with explicit tags and timestamp, serialized in its delivery
    // form and parsed back by serde_json as the test double
    let data = TelemetryBuilder::new("cpu.load".to_string(), 0.75f64.to_bits())
        .with_tag("host".to_string(), "h1".to_string())
        .with_timestamp(1700000000000)
        .build();

    let mut tags = serde_json::Map::new();
    for (k, v) in &data.tags {
        tags.insert(k.clone(), serde_json::Value::String(v.clone()));
    }
    let mut body = serde_json::Map::new();
    body.insert("metric".to_string(), serde_json::Value::String(data.metric.clone()));
    body.insert(
        "value".to_string(),
        serde_json::Value::from(f64::from_bits(data.value_bits)),
    );
    body.insert("tags".to_string(), serde_json::Value::Object(tags));
    body.insert("timestamp".to_string(), serde_json::Value::from(data.timestamp.unwrap()));
    let text = serde_json::Value::Object(body).to_string();

    let parsed: serde_json::Value = serde_json::from_str(&text).unwrap();
    let metric = parsed["metric"].as_str().unwrap().to_string();
    let value_bits = parsed["value"].as_f64().unwrap().to_bits();
    let timestamp = Some(parsed["timestamp"].as_i64().unwrap());
    let mut tags: Vec<(String, String)> = Vec::new();
    for (k, v) in parsed["tags"].as_object().unwrap() {
        tags.push((k.clone(), v.as_str().unwrap().to_string()));
    }
    let roundtripped = TelemetryData { metric, value_bits, tags, timestamp };

    assert_eq!(roundtripped.metric, data.metric);
    assert_eq!(roundtripped.value_bits, data.value_bits);
    assert_eq!(roundtripped.tags, data.tags);
    assert_eq!(roundtripped.timestamp, data.timestamp);
}
