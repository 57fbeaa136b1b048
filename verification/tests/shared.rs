use netchart::series::SamplePoint;
use netchart::shared::SharedSeriesStore;

fn point(timestamp_ms: u64, rate: u64) -> SamplePoint {
    SamplePoint { timestamp_ms, rate_bytes_per_sec: rate }
}

#[test]
fn shared_store_appends_and_snapshots() {
    let store = SharedSeriesStore::new();
    assert!(store.append("eth0", point(100, 10)));
    assert!(store.append("eth0", point(200, 20)));
    assert!(!store.append("eth0", point(200, 30)));
    let (entries, window) = store.snapshot(60_000);
    assert_eq!(entries.len(), 1);
    assert_eq!(entries[0].0, "eth0");
    assert_eq!(entries[0].1, vec![point(100, 10), point(200, 20)]);
    assert_eq!(window.start_ms, 0);
    assert_eq!(window.end_ms, 60_000);
    assert_eq!(window.max_rate, 20);
}

#[test]
fn thousand_appends_interleaved_with_thousand_snapshots() {
    // The sampler's appends interleaved with the render loop's snapshot
    // reads: every snapshot sees whole points, in time order, with a
    // consistent window.
    let store = SharedSeriesStore::new();
    for i in 0..1000u64 {
        assert!(store.append("eth0", point(i * 250, i + 1)));
        let (entries, window) = store.snapshot(60_000);
        assert_eq!(entries.len(), 1);
        let pts = &entries[0].1;
        assert_eq!(pts.len(), (i + 1) as usize);
        for k in 1..pts.len() {
            assert!(pts[k - 1].timestamp_ms < pts[k].timestamp_ms);
        }
        assert_eq!(pts.last().unwrap().rate_bytes_per_sec, i + 1);
        assert_eq!(window.max_rate, i + 1);
    }
}
