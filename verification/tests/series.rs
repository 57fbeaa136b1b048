use netchart::series::{SamplePoint, SeriesStore};

fn point(timestamp_ms: u64, rate: u64) -> SamplePoint {
    SamplePoint { timestamp_ms, rate_bytes_per_sec: rate }
}

#[test]
fn append_creates_series_on_first_sight() {
    let mut store = SeriesStore::new();
    assert_eq!(store.len(), 0);
    assert!(store.append("eth0", point(100, 5)));
    assert_eq!(store.len(), 1);
    assert_eq!(store.name_at(0).as_str(), "eth0");
    assert_eq!(store.points_at(0).len(), 1);
    assert_eq!(store.points_at(0)[0], point(100, 5));
}

#[test]
fn append_keeps_timestamps_strictly_increasing() {
    let mut store = SeriesStore::new();
    assert!(store.append("eth0", point(100, 5)));
    assert!(store.append("eth0", point(200, 7)));
    // A stale or repeated timestamp is refused and changes nothing.
    assert!(!store.append("eth0", point(200, 9)));
    assert!(!store.append("eth0", point(150, 9)));
    assert_eq!(store.points_at(0).len(), 2);
    let pts = store.points_at(0);
    for i in 1..pts.len() {
        assert!(pts[i - 1].timestamp_ms < pts[i].timestamp_ms);
    }
    assert!(store.append("eth0", point(201, 9)));
    assert_eq!(store.points_at(0).len(), 3);
}

#[test]
fn names_are_kept_sorted_and_unique() {
    let mut store = SeriesStore::new();
    store.append("wlan0", point(1, 1));
    store.append("eth1", point(1, 2));
    store.append("eth0", point(1, 3));
    store.append("lo", point(1, 4));
    store.append("eth1", point(2, 5));
    assert_eq!(store.len(), 4);
    assert_eq!(store.name_at(0).as_str(), "eth0");
    assert_eq!(store.name_at(1).as_str(), "eth1");
    assert_eq!(store.name_at(2).as_str(), "lo");
    assert_eq!(store.name_at(3).as_str(), "wlan0");
    assert_eq!(store.points_at(1).len(), 2);
}

#[test]
fn many_appends_interleaved_with_reads() {
    // The sampler's appends interleaved with the renderer's reads: a thousand
    // of each, with every read seeing whole points and a consistent length.
    let mut store = SeriesStore::new();
    for i in 0..1000u64 {
        let name = if i % 2 == 0 { "eth0" } else { "wlan0" };
        assert!(store.append(name, point(i + 1, i * 10)));
        // Snapshot read, as the render loop would do.
        let mut total = 0;
        for e in 0..store.len() {
            let pts = store.points_at(e);
            total += pts.len();
            if let Some(last) = pts.last() {
                assert_eq!(last.rate_bytes_per_sec, (last.timestamp_ms - 1) * 10);
            }
        }
        assert_eq!(total as u64, i + 1);
    }
    assert_eq!(store.len(), 2);
    assert_eq!(store.points_at(0).len(), 500);
    assert_eq!(store.points_at(1).len(), 500);
}
