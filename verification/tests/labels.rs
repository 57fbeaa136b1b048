use netchart::labels::{seconds_label, y_axis_labels};

#[test]
fn seconds_label_shows_one_rounded_decimal() {
    assert_eq!(seconds_label(0), "0.0s");
    assert_eq!(seconds_label(40_000), "40.0s");
    assert_eq!(seconds_label(100_500), "100.5s");
    assert_eq!(seconds_label(1_160), "1.2s");
    // Rounding carries into the whole seconds.
    assert_eq!(seconds_label(59_970), "60.0s");
}

#[test]
fn y_labels_step_quarters_of_the_range_in_bits() {
    // A 1024-byte/s maximum is 8192 bits/s at the top, in quarter steps.
    let labels = y_axis_labels(1024);
    let strs: Vec<&str> = labels.iter().map(|s| s.as_str()).collect();
    assert_eq!(strs, vec!["0.0bps", "2.0Kbps", "4.0Kbps", "6.0Kbps", "8.0Kbps"]);
}

#[test]
fn y_labels_of_an_empty_range() {
    let labels = y_axis_labels(0);
    assert_eq!(labels.len(), 5);
    for s in &labels {
        assert_eq!(s.as_str(), "0.0bps");
    }
}
