use metriken_exposition::{
    Counter, Duration, Gauge, Histogram, Metadata, Snapshot, SnapshotV1, SnapshotV2, Timestamp,
};

fn counter(name: &str, value: u64) -> Counter {
    Counter { name: String::from(name), value, metadata: Metadata::new() }
}

fn v2_snapshot() -> Snapshot {
    let mut metadata = Metadata::new();
    metadata.insert(String::from("source"), String::from("test"));
    Snapshot::V2(SnapshotV2 {
        systemtime: Timestamp::new(100, 0),
        duration: Duration::new(5, 0),
        metadata,
        counters: vec![counter("a", 1), counter("b", 2)],
        gauges: vec![Gauge { name: String::from("g"), value: -3, metadata: Metadata::new() }],
        histograms: vec![],
    })
}

fn v1_snapshot() -> Snapshot {
    Snapshot::V1(SnapshotV1 {
        systemtime: Timestamp::new(100, 0),
        metadata: Metadata::new(),
        counters: vec![counter("a", 1)],
        gauges: vec![],
        histograms: vec![],
    })
}

#[test]
fn drain_counters_twice() {
    let mut s = v2_snapshot();
    let first = s.counters();
    assert_eq!(first.len(), 2);
    assert_eq!(first[0].name, "a");
    assert_eq!(first[1].value, 2);
    let second = s.counters();
    assert!(second.is_empty());
}

#[test]
fn drain_metadata_twice() {
    let mut s = v2_snapshot();
    let first = s.metadata();
    assert_eq!(first.len(), 1);
    assert_eq!(first.get("source").unwrap(), "test");
    let second = s.metadata();
    assert!(second.is_empty());
}

#[test]
fn drain_gauges_twice() {
    let mut s = v2_snapshot();
    let first = s.gauges();
    assert_eq!(first.len(), 1);
    assert_eq!(first[0].value, -3);
    assert!(s.gauges().is_empty());
}

#[test]
fn drain_histograms_twice() {
    let histogram = Histogram {
        name: String::from("h"),
        value: histogram::Histogram::new(4, 16).unwrap(),
        metadata: Metadata::new(),
    };
    let mut s = Snapshot::V1(SnapshotV1 {
        systemtime: Timestamp::new(0, 0),
        metadata: Metadata::new(),
        counters: vec![],
        gauges: vec![],
        histograms: vec![histogram],
    });
    let first = s.histograms();
    assert_eq!(first.len(), 1);
    assert_eq!(first[0].name, "h");
    assert!(s.histograms().is_empty());
}

#[test]
fn drain_does_not_touch_other_fields() {
    let mut s = v2_snapshot();
    let _ = s.counters();
    assert_eq!(s.gauges().len(), 1);
    assert_eq!(s.metadata().len(), 1);
    assert_eq!(s.systemtime(), Timestamp::new(100, 0));
}

#[test]
fn duration_absent_for_v1() {
    let s = v1_snapshot();
    assert!(s.duration().is_none());
}

#[test]
fn duration_present_for_v2() {
    let s = v2_snapshot();
    assert_eq!(s.duration(), Some(Duration::new(5, 0)));
}

#[test]
fn systemtime_is_not_destructive() {
    let s = v2_snapshot();
    assert_eq!(s.systemtime(), Timestamp::new(100, 0));
    assert_eq!(s.systemtime(), Timestamp::new(100, 0));
}
