use dante_control::cutoff_address;
use dante_control::split_channel;
use dante_control::parse::parse_u16;
use dante_control::parse::parse_u32;
use dante_control::parse::parse_u64;

#[test]
fn cutoff_strips_given_suffix() {
    assert_eq!(
        cutoff_address(
            "studio-a._netaudio-dbc._udp.local.",
            Some("_netaudio-dbc._udp.local.")
        ),
        "studio-a"
    );
}

#[test]
fn cutoff_defaults_to_local() {
    assert_eq!(cutoff_address("host.local.", None), "host");
}

#[test]
fn cutoff_returns_input_when_suffix_absent() {
    assert_eq!(
        cutoff_address("host.example.", Some("_netaudio-dbc._udp.local.")),
        "host.example."
    );
    assert_eq!(cutoff_address("", Some("x")), "");
}

#[test]
fn split_channel_on_leftmost_at() {
    let (chan, rest) = split_channel("mic1@studio-a._netaudio-chan._udp.local.").unwrap();
    assert_eq!(chan, "mic1");
    assert_eq!(rest, "studio-a._netaudio-chan._udp.local.");
    // The leftmost '@' splits; later ones stay in the remainder.
    let (chan, rest) = split_channel("a@b@c").unwrap();
    assert_eq!(chan, "a");
    assert_eq!(rest, "b@c");
    assert!(split_channel("no-at-sign").is_none());
}

#[test]
fn parse_u16_accepts_digits() {
    assert_eq!(parse_u16("0"), Some(0));
    assert_eq!(parse_u16("3"), Some(3));
    assert_eq!(parse_u16("+42"), Some(42));
    assert_eq!(parse_u16("65535"), Some(65535));
    assert_eq!(parse_u16("007"), Some(7));
}

#[test]
fn parse_u16_rejects_junk() {
    assert_eq!(parse_u16(""), None);
    assert_eq!(parse_u16("+"), None);
    assert_eq!(parse_u16("-3"), None);
    assert_eq!(parse_u16("12a"), None);
    assert_eq!(parse_u16("65536"), None);
    assert_eq!(parse_u16(" 3"), None);
}

#[test]
fn parse_u32_and_u64_bounds() {
    assert_eq!(parse_u32("48000"), Some(48000));
    assert_eq!(parse_u32("4294967295"), Some(4294967295));
    assert_eq!(parse_u32("4294967296"), None);
    assert_eq!(parse_u64("1000000"), Some(1_000_000));
    assert_eq!(parse_u64("18446744073709551615"), Some(u64::MAX));
    assert_eq!(parse_u64("18446744073709551616"), None);
    assert_eq!(parse_u64("99999999999999999999999"), None);
}
