use shelly_exporter::extract::collect_readings;
use shelly_exporter::extract::extract_power;
use shelly_exporter::extract::get_power;
use shelly_exporter::extract::power_from_body;
use shelly_exporter::extract::read_power;
use shelly_exporter::extract::status_entries;
use shelly_exporter::extract::ShellyError;
use shelly_exporter::extract::StatusEntry;

fn entry(key: &str, apower: Option<&str>) -> StatusEntry {
    StatusEntry { key: String::from(key), apower: apower.map(String::from) }
}

fn value(text: &str) -> serde_json::Value {
    serde_json::from_str::<serde_json::Value>(text).unwrap()
}

#[test]
fn keys_without_the_marker_give_no_readings() {
    let readings = extract_power(value(
        "{\"sys\":{\"apower\":1.0},\"input:0\":{\"state\":false},\"Switch:0\":{\"apower\":2},\"x\":3}",
    ))
    .unwrap();
    assert_eq!(readings.len(), 0);
    let empty = extract_power(value("{}")).unwrap();
    assert_eq!(empty.len(), 0);
}

#[test]
fn a_channel_entry_gives_its_reading() {
    let readings = extract_power(value("{\"switch:3\":{\"apower\":12.5}}")).unwrap();
    assert_eq!(readings.len(), 1);
    assert_eq!(readings.reading(3), Some(&String::from("12.5")));
    let power: f64 = readings.reading(3).unwrap().parse().unwrap();
    assert_eq!(power, 12.5);
}

#[test]
fn readings_are_the_doubles_that_the_numbers_widen_to() {
    let readings = extract_power(value(
        "{\"switch:0\":{\"apower\":7},\"switch:1\":{\"apower\":-3},\"switch:2\":{\"apower\":0.0},\
         \"switch:3\":{\"apower\":1e3},\"switch:4\":{\"apower\":0.1},\"switch:5\":{\"apower\":2.50}}",
    ))
    .unwrap();
    assert_eq!(readings.len(), 6);
    assert_eq!(readings.reading(0).unwrap(), "7");
    assert_eq!(readings.reading(1).unwrap(), "-3");
    assert_eq!(readings.reading(2).unwrap(), "0");
    assert_eq!(readings.reading(3).unwrap(), "1000");
    assert_eq!(readings.reading(4).unwrap(), "0.1");
    assert_eq!(readings.reading(5).unwrap(), "2.5");
    assert_eq!(readings.reading(4).unwrap(), &format!("{}", 0.1f64));
}

#[test]
fn a_key_with_a_bad_channel_number_fails_everything() {
    let r = extract_power(value("{\"switch:0\":{\"apower\":1.0},\"switch:abc\":{\"apower\":2.0}}"));
    assert_eq!(r.err(), Some(ShellyError::ChannelIdParse { key: String::from("switch:abc") }));
    let r = extract_power(value("{\"switch:\":{\"apower\":2.0}}"));
    assert_eq!(r.err(), Some(ShellyError::ChannelIdParse { key: String::from("switch:") }));
    let r = extract_power(value("{\"switch:-1\":{\"apower\":2.0}}"));
    assert_eq!(r.err(), Some(ShellyError::ChannelIdParse { key: String::from("switch:-1") }));
    let r = extract_power(value("{\"switch:4294967296\":{\"apower\":2.0}}"));
    assert_eq!(
        r.err(),
        Some(ShellyError::ChannelIdParse { key: String::from("switch:4294967296") })
    );
}

#[test]
fn a_channel_entry_without_a_reading_fails_everything() {
    let r = extract_power(value("{\"switch:0\":{\"apower\":1.0},\"switch:1\":{\"voltage\":230}}"));
    assert_eq!(r.err(), Some(ShellyError::MissingReading { key: String::from("switch:1") }));
    let r = extract_power(value("{\"switch:1\":{\"apower\":\"not-a-number\"}}"));
    assert_eq!(r.err(), Some(ShellyError::MissingReading { key: String::from("switch:1") }));
    let r = extract_power(value("{\"switch:1\":{\"apower\":null},\"switch:2\":{\"apower\":2}}"));
    assert_eq!(r.err(), Some(ShellyError::MissingReading { key: String::from("switch:1") }));
    let r = extract_power(value("{\"switch:1\":{\"apower\":true}}"));
    assert_eq!(r.err(), Some(ShellyError::MissingReading { key: String::from("switch:1") }));
    let r = extract_power(value("{\"switch:1\":[1.0]}"));
    assert_eq!(r.err(), Some(ShellyError::MissingReading { key: String::from("switch:1") }));
    let r = extract_power(value("{\"switch:1\":5.0}"));
    assert_eq!(r.err(), Some(ShellyError::MissingReading { key: String::from("switch:1") }));
}

#[test]
fn a_status_that_is_no_object_has_the_wrong_shape() {
    for text in ["[]", "[{\"switch:0\":{\"apower\":1}}]", "null", "true", "3", "1.5", "\"switch:0\""] {
        assert_eq!(extract_power(value(text)).err(), Some(ShellyError::Shape), "{}", text);
    }
}

#[test]
fn the_channel_number_is_looked_at_before_the_reading() {
    let entries = vec![entry("switch:x", None)];
    assert_eq!(
        collect_readings(&entries).err(),
        Some(ShellyError::ChannelIdParse { key: String::from("switch:x") })
    );
}

#[test]
fn the_first_entry_at_fault_is_the_one_reported() {
    let entries = vec![
        entry("other", None),
        entry("switch:0", Some("1")),
        entry("switch:1", None),
        entry("switch:zz", Some("2")),
    ];
    assert_eq!(
        collect_readings(&entries).err(),
        Some(ShellyError::MissingReading { key: String::from("switch:1") })
    );
    let entries = vec![entry("switch:zz", Some("2")), entry("switch:1", None)];
    assert_eq!(
        collect_readings(&entries).err(),
        Some(ShellyError::ChannelIdParse { key: String::from("switch:zz") })
    );
}

#[test]
fn entries_are_collected_by_channel() {
    let entries = vec![
        entry("switch:0", Some("7.2")),
        entry("sys", None),
        entry("switch:10", Some("0")),
        entry("input:0", Some("5")),
    ];
    let readings = collect_readings(&entries).unwrap();
    assert_eq!(readings.len(), 2);
    assert_eq!(readings.reading(0).unwrap(), "7.2");
    assert_eq!(readings.reading(10).unwrap(), "0");
    assert_eq!(readings.reading(1), None);
    assert_eq!(collect_readings(&Vec::new()).unwrap().len(), 0);
}

#[test]
fn of_two_entries_for_one_channel_the_later_stays() {
    let entries = vec![entry("switch:01", Some("2")), entry("switch:1", Some("1"))];
    let readings = collect_readings(&entries).unwrap();
    assert_eq!(readings.len(), 1);
    assert_eq!(readings.reading(1).unwrap(), "1");
    let entries = vec![entry("switch:1", Some("1")), entry("switch:+1", Some("3"))];
    let readings = collect_readings(&entries).unwrap();
    assert_eq!(readings.len(), 1);
    assert_eq!(readings.reading(1).unwrap(), "3");
}

#[test]
fn the_power_is_read_from_the_member_apower() {
    assert_eq!(read_power(&value("{\"apower\":12.5,\"voltage\":230.1}")), Some(String::from("12.5")));
    assert_eq!(read_power(&value("{\"voltage\":230.1}")), None);
    assert_eq!(read_power(&value("{\"apower\":\"12.5\"}")), None);
    assert_eq!(read_power(&value("{\"Apower\":12.5}")), None);
    assert_eq!(read_power(&value("12.5")), None);
    assert_eq!(read_power(&value("[12.5]")), None);
}

#[test]
fn the_entries_of_a_status_are_its_members() {
    let mut entries = status_entries(value(
        "{\"switch:0\":{\"apower\":7.2},\"other\":{\"x\":1},\"switch:1\":{\"apower\":\"no\"}}",
    ))
    .unwrap();
    entries.sort_by(|a, b| a.key.cmp(&b.key));
    assert_eq!(
        entries,
        vec![entry("other", None), entry("switch:0", Some("7.2")), entry("switch:1", None)]
    );
    assert_eq!(status_entries(value("[1]")), None);
    assert_eq!(status_entries(value("{}")), Some(Vec::new()));
}

#[test]
fn bytes_are_decoded_before_they_are_read() {
    let readings = power_from_body(b" { \"switch:2\" : { \"apower\" : 40.25 } } ").unwrap();
    assert_eq!(readings.len(), 1);
    assert_eq!(readings.reading(2).unwrap(), "40.25");
}

#[test]
fn bytes_that_are_no_json_fail_to_decode() {
    for body in [&b"not json"[..], &b""[..], &b"{\"switch:0\":"[..], &b"{} trailing"[..], &b"\xff"[..]] {
        let want = serde_json::from_slice::<serde_json::Value>(body).unwrap_err().to_string();
        assert!(!want.is_empty());
        assert_eq!(power_from_body(body).err(), Some(ShellyError::Decode { detail: want }));
    }
}

#[test]
fn a_failed_fetch_is_a_transport_fault() {
    let r = get_power(Err(String::from("connection refused")));
    assert_eq!(r.err(), Some(ShellyError::Transport { detail: String::from("connection refused") }));
}

#[test]
fn a_fetched_body_is_decoded_and_read() {
    let readings = get_power(Ok(b"{\"switch:0\":{\"apower\":7.2}}".to_vec())).unwrap();
    assert_eq!(readings.reading(0).unwrap(), "7.2");
    assert_eq!(get_power(Ok(b"[]".to_vec())).err(), Some(ShellyError::Shape));
    assert!(matches!(get_power(Ok(b"<html>".to_vec())), Err(ShellyError::Decode { .. })));
}

#[test]
fn distinct_powers_keep_distinct_texts() {
    let readings = extract_power(value(
        "{\"switch:0\":{\"apower\":0.1},\"switch:1\":{\"apower\":0.30000000000000004},\
         \"switch:2\":{\"apower\":0.3},\"switch:3\":{\"apower\":1234567.875}}",
    ))
    .unwrap();
    assert_ne!(readings.reading(1), readings.reading(2));
    for (channel, text) in [(0u32, "0.1"), (1, "0.30000000000000004"), (2, "0.3"), (3, "1234567.875")]
    {
        let want = serde_json::from_str::<f64>(text).unwrap();
        let back: f64 = readings.reading(channel).unwrap().parse().unwrap();
        assert_eq!(back, want);
        assert_eq!(readings.reading(channel).unwrap(), &want.to_string());
    }
}

#[test]
fn a_key_is_read_to_its_end() {
    let r = extract_power(value("{\"switch:1 \":{\"apower\":2.0}}"));
    assert_eq!(r.err(), Some(ShellyError::ChannelIdParse { key: String::from("switch:1 ") }));
    let r = extract_power(value("{\"switch:1:2\":{\"apower\":2.0}}"));
    assert_eq!(r.err(), Some(ShellyError::ChannelIdParse { key: String::from("switch:1:2") }));
    let readings = extract_power(value("{\"switch:0042\":{\"apower\":2.0}}")).unwrap();
    assert_eq!(readings.reading(42).unwrap(), "2");
}
