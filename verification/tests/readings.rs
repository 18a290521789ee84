use quickstart_with_aiven_kafka_using_rust::{FixedRandom, SensorReading, TempratureSensor};

#[test]
fn measure_temperature_in_range() {
    let sensor = TempratureSensor::new("bedroom".to_string());
    for _ in 0..100 {
        let reading = sensor.measure();
        assert!(1200 <= reading.temperature && reading.temperature <= 3000);
    }
}

#[test]
fn measure_keeps_location_and_ids_are_fresh() {
    let sensor = TempratureSensor::new("livingroom".to_string());
    let first = sensor.measure();
    let second = sensor.measure();
    assert_eq!(first.location, "livingroom");
    assert_eq!(second.location, "livingroom");
    assert_eq!(first.id.len(), 36);
    assert_eq!(second.id.len(), 36);
    assert_ne!(first.id, second.id);
    let hyphens: Vec<usize> = first.id.char_indices().filter(|(_, c)| *c == '-').map(|(i, _)| i).collect();
    assert_eq!(hyphens, vec![8, 13, 18, 23]);
    assert_eq!(first.id.chars().nth(14), Some('4'));
    assert_eq!(second.id.chars().nth(14), Some('4'));
}

#[test]
fn empty_location_is_accepted() {
    let sensor = TempratureSensor::new(String::new());
    let reading = sensor.measure();
    assert_eq!(reading.location, "");
}

#[test]
fn fixed_source_is_clamped_into_the_interval() {
    let sensor = TempratureSensor::new("bedroom".to_string());
    let mut too_low = FixedRandom { value: 0 };
    assert_eq!(sensor.measure_with(&mut too_low).temperature, 1200);
    let mut too_high = FixedRandom { value: 999999 };
    assert_eq!(sensor.measure_with(&mut too_high).temperature, 3000);
    let mut inside = FixedRandom { value: 2150 };
    assert_eq!(sensor.measure_with(&mut inside).temperature, 2150);
}

#[test]
fn timestamp_text_of_known_instants() {
    let epoch = SensorReading {
        id: "00000000-0000-0000-0000-000000000000".to_string(),
        timestamp: 0,
        location: "bedroom".to_string(),
        temperature: 1200,
    };
    assert_eq!(epoch.timestamp_rfc3339(), "1970-01-01T00:00:00.000Z");
    let later = SensorReading { timestamp: 947638923004, ..epoch };
    assert_eq!(later.timestamp_rfc3339(), "2000-01-12T01:02:03.004Z");
}
