use quickstart_with_aiven_kafka_using_rust::codec::parse_reading;
use quickstart_with_aiven_kafka_using_rust::{FixedRandom, SensorReading, TempratureSensor};

fn reading(id: &str, timestamp: i64, location: &str, temperature: u32) -> SensorReading {
    SensorReading {
        id: id.to_string(),
        timestamp,
        location: location.to_string(),
        temperature,
    }
}

#[test]
fn bedroom_scenario() {
    let sensor = TempratureSensor::new("bedroom".to_string());
    let mut source = FixedRandom { value: 2150 };
    let r = sensor.measure_with(&mut source);
    assert_eq!(r.location, "bedroom");
    assert_eq!(r.temperature, 2150);
    let payload = r.serialize().unwrap();
    assert!(payload.starts_with("{\"id\":\""));
    assert!(payload.ends_with(",\"location\":\"bedroom\",\"temperature\":21.5}"));
    let decoded = parse_reading(&payload).unwrap();
    assert_eq!(decoded.id, r.id);
    assert_eq!(decoded.timestamp, r.timestamp_rfc3339());
    assert_eq!(decoded.location, "bedroom");
    assert_eq!(decoded.temperature, 2150);
}

#[test]
fn exact_payload_of_a_fixed_reading() {
    let r = reading("a1a2a3a4-b1b2-c1c2-d1d2-d3d4d5d6d7d8", 947638923004, "bedroom", 2150);
    let payload = r.serialize().unwrap();
    assert_eq!(
        payload,
        "{\"id\":\"a1a2a3a4-b1b2-c1c2-d1d2-d3d4d5d6d7d8\",\"timestamp\":\"2000-01-12T01:02:03.004Z\",\"location\":\"bedroom\",\"temperature\":21.5}"
    );
}

#[test]
fn round_trip_with_escaped_location() {
    let r = reading("id-1", 0, "a\"b\\c\nd\te\rf", 2105);
    let payload = r.serialize().unwrap();
    let decoded = parse_reading(&payload).unwrap();
    assert_eq!(decoded.id, r.id);
    assert_eq!(decoded.location, r.location);
    assert_eq!(decoded.temperature, r.temperature);
    assert_eq!(decoded.timestamp, r.timestamp_rfc3339());
}

#[test]
fn control_characters_are_escaped_and_round_trip() {
    let r = reading("id-1", 0, "a\u{1}b\u{1f}c\u{0}d", 2150);
    let payload = r.serialize().unwrap();
    assert!(payload.contains("a\\u0001b\\u001fc\\u0000d"));
    let decoded = parse_reading(&payload).unwrap();
    assert_eq!(decoded.location, r.location);
    let value: serde_json::Value = serde_json::from_str(&payload).unwrap();
    assert_eq!(
        value.as_object().unwrap().get("location").unwrap().as_str().unwrap(),
        "a\u{1}b\u{1f}c\u{0}d"
    );
}

#[test]
fn round_trip_with_empty_location() {
    let r = reading("x", 1, "", 1200);
    let payload = r.serialize().unwrap();
    let decoded = parse_reading(&payload).unwrap();
    assert_eq!(decoded.location, "");
    assert_eq!(decoded.temperature, 1200);
}

#[test]
fn temperature_text_edges() {
    let cases: Vec<(u32, &str)> = vec![
        (1200, "12.0"),
        (3000, "30.0"),
        (2100, "21.0"),
        (2150, "21.5"),
        (2105, "21.05"),
        (2155, "21.55"),
        (2999, "29.99"),
    ];
    for (t, text) in cases {
        let payload = reading("x", 0, "loc", t).serialize().unwrap();
        let expected = format!("\"temperature\":{}}}", text);
        assert!(payload.ends_with(&expected), "payload {} for {}", payload, t);
        assert_eq!(parse_reading(&payload).unwrap().temperature, t);
    }
}

#[test]
fn payload_is_valid_json_with_the_four_keys() {
    let sensor = TempratureSensor::new("bedroom".to_string());
    let mut source = FixedRandom { value: 2150 };
    let r = sensor.measure_with(&mut source);
    let payload = r.serialize().unwrap();
    let value: serde_json::Value = serde_json::from_str(&payload).unwrap();
    let object = value.as_object().unwrap();
    assert_eq!(object.len(), 4);
    assert_eq!(object.get("id").unwrap().as_str().unwrap(), r.id);
    assert_eq!(
        object.get("timestamp").unwrap().as_str().unwrap(),
        r.timestamp_rfc3339()
    );
    assert_eq!(object.get("location").unwrap().as_str().unwrap(), "bedroom");
    assert_eq!(object.get("temperature").unwrap().as_f64().unwrap(), 21.5);
}

#[test]
fn escaped_location_is_valid_json_too() {
    let r = reading("id-1", 0, "a\"b\\c\nd", 2105);
    let payload = r.serialize().unwrap();
    let value: serde_json::Value = serde_json::from_str(&payload).unwrap();
    assert_eq!(
        value.as_object().unwrap().get("location").unwrap().as_str().unwrap(),
        "a\"b\\c\nd"
    );
}

#[test]
fn decoder_rejects_malformed_payloads() {
    assert!(parse_reading("").is_none());
    assert!(parse_reading("{}").is_none());
    assert!(parse_reading("{\"id\":\"x\"}").is_none());
    let good = reading("x", 0, "loc", 2150).serialize().unwrap();
    assert!(parse_reading(&good[..good.len() - 1]).is_none());
    let mut trailing = good.clone();
    trailing.push(' ');
    assert!(parse_reading(&trailing).is_none());
}

#[test]
fn get_measurement_json_decodes_to_the_bound_location() {
    let sensor = TempratureSensor::new("livingroom".to_string());
    let payload = sensor.get_measurement_json().unwrap();
    let decoded = parse_reading(&payload).unwrap();
    assert_eq!(decoded.location, "livingroom");
    assert!(1200 <= decoded.temperature && decoded.temperature <= 3000);
}
