use golemian::duration::{deadline_fits, duration_fits, duration_parts_of, parse_duration, Unit};
use golemian::mention::{
    parse_channel_mention, parse_hub_channel, parse_id, parse_role_mention, parse_user_id,
};

#[test]
fn user_id_from_mentions_and_bare_ids() {
    assert_eq!(parse_user_id("<@123>"), Some(123));
    assert_eq!(parse_user_id("<@!456>"), Some(456));
    assert_eq!(parse_user_id("  789  "), Some(789));
    assert_eq!(parse_user_id("+42"), Some(42));
    assert_eq!(parse_user_id("<@!<@!99>>"), Some(99));
    assert_eq!(parse_user_id("<@12"), None);
    assert_eq!(parse_user_id("abc"), None);
    assert_eq!(parse_user_id(""), None);
    assert_eq!(parse_user_id("-5"), None);
    assert_eq!(parse_user_id("18446744073709551615"), Some(u64::MAX));
    assert_eq!(parse_user_id("18446744073709551616"), None);
}

#[test]
fn user_mention_reads_back() {
    for id in [1u64, 9, 10, 1234567890123456789, u64::MAX] {
        assert_eq!(parse_user_id(&format!("<@{}>", id)), Some(id));
        assert_eq!(parse_user_id(&id.to_string()), Some(id));
    }
}

#[test]
fn channel_and_role_mentions() {
    assert_eq!(parse_channel_mention("<#555>"), Some(555));
    assert_eq!(parse_channel_mention(" 555 "), Some(555));
    assert_eq!(parse_channel_mention("<#>"), None);
    assert_eq!(parse_channel_mention("<@555>"), None);
    assert_eq!(parse_role_mention("<@&777>"), Some(777));
    assert_eq!(parse_role_mention("777"), Some(777));
    assert_eq!(parse_role_mention("<#777>"), None);
    for id in [3u64, 40, 1_000_000_007] {
        assert_eq!(parse_channel_mention(&format!("<#{}>", id)), Some(id));
        assert_eq!(parse_role_mention(&format!("<@&{}>", id)), Some(id));
    }
}

#[test]
fn hub_channel_needs_no_closing() {
    assert_eq!(parse_hub_channel("<#12"), Some(12));
    assert_eq!(parse_hub_channel("12>>"), Some(12));
    assert_eq!(parse_hub_channel("<#<#12>"), Some(12));
    assert_eq!(parse_hub_channel("#12"), None);
}

#[test]
fn stored_ids() {
    assert_eq!(parse_id("123"), Some(123));
    assert_eq!(parse_id(" 123"), None);
    assert_eq!(parse_id(""), None);
}

#[test]
fn durations_in_seconds() {
    assert_eq!(parse_duration("30s"), Some(30));
    assert_eq!(parse_duration("10m"), Some(600));
    assert_eq!(parse_duration("2h"), Some(7200));
    assert_eq!(parse_duration("1d"), Some(86400));
    assert_eq!(parse_duration(" 3d "), Some(259200));
    assert_eq!(parse_duration("-5m"), Some(-300));
    assert_eq!(parse_duration("+5m"), Some(300));
    assert_eq!(parse_duration("10"), None);
    assert_eq!(parse_duration("m"), None);
    assert_eq!(parse_duration("1w"), None);
    assert_eq!(parse_duration("1.5h"), None);
    assert_eq!(parse_duration(""), None);
    assert_eq!(duration_parts_of("7h"), Some((7, Unit::Hours)));
}

#[test]
fn duration_written_then_read() {
    for n in [0u64, 1, 59, 3600, 1_000_000] {
        assert_eq!(parse_duration(&format!("{}s", n)), Some(n as i64));
        assert_eq!(parse_duration(&format!("{}m", n)), Some(n as i64 * 60));
        assert_eq!(parse_duration(&format!("{}h", n)), Some(n as i64 * 3600));
        assert_eq!(parse_duration(&format!("{}d", n)), Some(n as i64 * 86400));
    }
}

#[test]
fn durations_chrono_cannot_hold() {
    assert!(duration_fits("9223372036854775s"));
    assert!(!duration_fits("9223372036854776s"));
    assert!(!duration_fits("-9223372036854776s"));
    assert!(!duration_fits("999999999999999999d"));
    assert!(duration_fits("nonsense"));
    assert!(deadline_fits("1d", 1_700_000_000));
    assert!(!deadline_fits("100000000d", 1_700_000_000));
    assert!(deadline_fits("8210266876799s", 0));
    assert!(!deadline_fits("8210266876800s", 0));
}
