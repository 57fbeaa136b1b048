use netchart::series::{SamplePoint, SeriesStore};
use netchart::window::visible_points;

fn point(timestamp_ms: u64, rate: u64) -> SamplePoint {
    SamplePoint { timestamp_ms, rate_bytes_per_sec: rate }
}

#[test]
fn domain_spans_duration_before_enough_data() {
    // D = 60 s, latest point at 30 s: the window is [0, 60].
    let mut store = SeriesStore::new();
    store.append("eth0", point(30_000, 100));
    let w = store.select_window(60_000);
    assert_eq!(w.start_ms, 0);
    assert_eq!(w.end_ms, 60_000);
}

#[test]
fn domain_follows_latest_data() {
    // D = 60 s, latest point at 100 s: the window is [40, 100].
    let mut store = SeriesStore::new();
    store.append("eth0", point(100_000, 100));
    let w = store.select_window(60_000);
    assert_eq!(w.start_ms, 40_000);
    assert_eq!(w.end_ms, 100_000);
}

#[test]
fn empty_store_defaults_to_zero_range() {
    let store = SeriesStore::new();
    let w = store.select_window(60_000);
    assert_eq!(w.start_ms, 0);
    assert_eq!(w.end_ms, 60_000);
    assert_eq!(w.max_rate, 0);
}

#[test]
fn range_excludes_points_before_start() {
    // A large rate at t = 5 s must not scale the axis once the window starts
    // at 40 s; only the points at or after the start count.
    let mut store = SeriesStore::new();
    store.append("eth0", point(5_000, 9000));
    store.append("eth0", point(10_000, 500));
    store.append("eth0", point(50_000, 5000));
    store.append("eth0", point(100_000, 1));
    let w = store.select_window(60_000);
    assert_eq!(w.start_ms, 40_000);
    assert_eq!(w.end_ms, 100_000);
    assert_eq!(w.max_rate, 5000);
}

#[test]
fn drawable_series_is_restricted_to_the_domain() {
    let pts = vec![point(5_000, 9000), point(10_000, 500), point(50_000, 5000)];
    let visible = visible_points(&pts, 40_000);
    assert_eq!(visible, vec![point(50_000, 5000)]);
    // From time zero everything is visible, in its original order.
    assert_eq!(visible_points(&pts, 0), pts);
    // An interface with nothing in the window yields an empty dataset.
    assert_eq!(visible_points(&pts, 60_000), vec![]);
}

#[test]
fn range_spans_all_series() {
    let mut store = SeriesStore::new();
    store.append("eth0", point(1_000, 300));
    store.append("wlan0", point(2_000, 700));
    let w = store.select_window(60_000);
    assert_eq!(w.start_ms, 0);
    assert_eq!(w.end_ms, 60_000);
    assert_eq!(w.max_rate, 700);
}
