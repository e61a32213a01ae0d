use shelly_exporter::channel::channel_text;
use shelly_exporter::channel::has_marker;
use shelly_exporter::channel::parse_channel_id;

#[test]
fn marker_is_recognised_at_the_start_only() {
    assert!(has_marker("switch:0"));
    assert!(has_marker("switch:"));
    assert!(has_marker("switch:abc"));
    assert!(!has_marker(""));
    assert!(!has_marker("switch"));
    assert!(!has_marker("Switch:0"));
    assert!(!has_marker("xswitch:0"));
    assert!(!has_marker("sys"));
    assert!(!has_marker("switch;0"));
}

#[test]
fn marker_test_agrees_with_starts_with() {
    for key in ["switch:1", "switch", "", "switch:é", "éswitch:1", "input:0", "switch:12345"] {
        assert_eq!(has_marker(key), key.starts_with("switch:"), "{}", key);
    }
}

#[test]
fn plain_numerals_are_read() {
    assert_eq!(parse_channel_id("0"), Some(0));
    assert_eq!(parse_channel_id("3"), Some(3));
    assert_eq!(parse_channel_id("12"), Some(12));
    assert_eq!(parse_channel_id("907"), Some(907));
}

#[test]
fn leading_zeros_and_one_plus_are_read() {
    assert_eq!(parse_channel_id("007"), Some(7));
    assert_eq!(parse_channel_id("+7"), Some(7));
    assert_eq!(parse_channel_id("+0"), Some(0));
    assert_eq!(parse_channel_id("+0012"), Some(12));
}

#[test]
fn numerals_end_at_the_32_bit_limit() {
    assert_eq!(parse_channel_id("4294967295"), Some(4294967295));
    assert_eq!(parse_channel_id("4294967296"), None);
    assert_eq!(parse_channel_id("42949672950"), None);
    assert_eq!(parse_channel_id("99999999999999999999999999"), None);
    assert_eq!(parse_channel_id("0000000000004294967295"), Some(4294967295));
}

#[test]
fn what_is_no_numeral_is_refused() {
    assert_eq!(parse_channel_id(""), None);
    assert_eq!(parse_channel_id("+"), None);
    assert_eq!(parse_channel_id("++1"), None);
    assert_eq!(parse_channel_id("-1"), None);
    assert_eq!(parse_channel_id("abc"), None);
    assert_eq!(parse_channel_id("1a"), None);
    assert_eq!(parse_channel_id("1 "), None);
    assert_eq!(parse_channel_id(" 1"), None);
    assert_eq!(parse_channel_id("1.0"), None);
    assert_eq!(parse_channel_id("\u{ff11}"), None);
    assert_eq!(parse_channel_id("\u{0661}"), None);
}

#[test]
fn numerals_are_read_as_the_standard_library_reads_them() {
    for text in
        ["0", "5", "+5", "-5", "", "+", "05", "4294967295", "4294967296", "12x", "x12", "1_000"]
    {
        assert_eq!(parse_channel_id(text), text.parse::<u32>().ok(), "{}", text);
    }
}

#[test]
fn channels_are_written_in_decimal() {
    assert_eq!(channel_text(0), "0");
    assert_eq!(channel_text(3), "3");
    assert_eq!(channel_text(9), "9");
    assert_eq!(channel_text(10), "10");
    assert_eq!(channel_text(105), "105");
    assert_eq!(channel_text(4294967295), "4294967295");
}

#[test]
fn written_channels_read_back() {
    for channel in [0u32, 1, 9, 10, 11, 99, 100, 12345, 1000000, 4294967294, 4294967295] {
        let text = channel_text(channel);
        assert_eq!(text, channel.to_string());
        assert_eq!(parse_channel_id(&text), Some(channel));
        let key = format!("switch:{}", text);
        assert!(has_marker(&key));
    }
}
