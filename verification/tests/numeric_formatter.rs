use netchart::numeric_formatter::NumericFormatter;

#[test]
fn test_humanize_size() {
    assert_eq!(0u128.humanize_size(), "0.0");
    assert_eq!(1u128.humanize_size(), "1.0");
    assert_eq!(1024u128.humanize_size(), "1.0K");
    assert_eq!((1024f64.powi(2) as u128).humanize_size(), "1.0M");
    assert_eq!((1024f64.powi(3) as u128).humanize_size(), "1.0G");
    assert_eq!((1024f64.powi(4) as u128).humanize_size(), "1.0T");
    assert_eq!((1024f64.powi(5) as u128).humanize_size(), "1.0P");
    assert_eq!((1024f64.powi(6) as u128).humanize_size(), "1.0E");
    assert_eq!((1024f64.powi(7) as u128).humanize_size(), "1.0Z");
    assert_eq!((1024f64.powi(8) as u128).humanize_size(), "1.0Y");
}

#[test]
fn humanize_size_mid_values() {
    assert_eq!(512u64.humanize_size(), "512.0");
    assert_eq!(1536u64.humanize_size(), "1.5K");
    assert_eq!((3 * 1024 * 1024u64).humanize_size(), "3.0M");
    assert_eq!(1023u64.humanize_size(), "1023.0");
}

#[test]
fn humanize_size_rounds_the_decimal() {
    // 1997 bytes are 1.95 units: the decimal rounds up.
    assert_eq!(1997u64.humanize_size(), "2.0K");
    // Just short of the next unit, the rounding carries into the whole part.
    assert_eq!(2047u64.humanize_size(), "2.0K");
    assert_eq!(1945u64.humanize_size(), "1.9K");
}

#[test]
fn humanize_bps_appends_suffix() {
    assert_eq!(0u64.humanize_bps(), "0.0bps");
    assert_eq!(1024u64.humanize_bps(), "1.0Kbps");
    assert_eq!((1024 * 1024u64).humanize_bps(), "1.0Mbps");
}
