use metriken_exposition::{
    Counter, Duration, HashedSnapshot, Histogram, Metadata, Snapshot, SnapshotV1, SnapshotV2,
    Timestamp,
};

fn tagged(metric: &str, op: &str) -> Metadata {
    let mut m = Metadata::new();
    m.insert(String::from("metric"), String::from(metric));
    m.insert(String::from("op"), String::from(op));
    m
}

fn v2_with_counters(counters: Vec<Counter>) -> Snapshot {
    Snapshot::V2(SnapshotV2 {
        systemtime: Timestamp::new(100, 250),
        duration: Duration::new(5, 0),
        metadata: Metadata::new(),
        counters,
        gauges: vec![],
        histograms: vec![],
    })
}

#[test]
fn collision_keeps_last_record() {
    let first = Counter { name: String::from("m1"), value: 10, metadata: tagged("cpu", "busy") };
    let second = Counter { name: String::from("m2"), value: 20, metadata: tagged("cpu", "busy") };
    let h = HashedSnapshot::from_snapshot(v2_with_counters(vec![first, second]));
    assert_eq!(h.counters.len(), 1);
    let kept = h.counters.get("cpu/busy").unwrap();
    assert_eq!(kept.name, "m2");
    assert_eq!(kept.value, 20);
}

#[test]
fn projection_keys_are_canonical() {
    let c = Counter { name: String::from("m1"), value: 7, metadata: tagged("net", "tx") };
    let h = HashedSnapshot::from_snapshot(v2_with_counters(vec![c]));
    assert!(h.counters.get("net/tx").is_some());
    assert!(h.counters.get("m1").is_none());
}

#[test]
fn projection_timestamp_and_duration() {
    let h = HashedSnapshot::from_snapshot(v2_with_counters(vec![]));
    assert_eq!(h.ts, 100_000_000_250);
    assert_eq!(h.duration, Some(5_000_000_000));
}

#[test]
fn projection_v1_has_no_duration() {
    let s = Snapshot::V1(SnapshotV1 {
        systemtime: Timestamp::new(1, 0),
        metadata: Metadata::new(),
        counters: vec![],
        gauges: vec![],
        histograms: vec![],
    });
    let h = HashedSnapshot::from_snapshot(s);
    assert_eq!(h.ts, 1_000_000_000);
    assert_eq!(h.duration, None);
}

#[test]
fn pre_epoch_clock_is_rejected() {
    let s = Snapshot::V1(SnapshotV1 {
        systemtime: Timestamp::new(-1, 999_999_999),
        metadata: Metadata::new(),
        counters: vec![],
        gauges: vec![],
        histograms: vec![],
    });
    assert!(HashedSnapshot::try_from_snapshot(s).is_none());
}

#[test]
fn oversized_timestamp_is_rejected() {
    let s = Snapshot::V1(SnapshotV1 {
        systemtime: Timestamp::new(i64::MAX, 0),
        metadata: Metadata::new(),
        counters: vec![],
        gauges: vec![],
        histograms: vec![],
    });
    assert!(HashedSnapshot::try_from_snapshot(s).is_none());
}

#[test]
fn in_range_snapshot_is_accepted() {
    let h = HashedSnapshot::try_from_snapshot(v2_with_counters(vec![])).unwrap();
    assert_eq!(h.ts, 100_000_000_250);
}

#[test]
fn gauges_and_histograms_are_projected() {
    let gauge = metriken_exposition::Gauge {
        name: String::from("temp"),
        value: -40,
        metadata: Metadata::new(),
    };
    let histogram = Histogram {
        name: String::from("lat"),
        value: histogram::Histogram::new(4, 16).unwrap(),
        metadata: Metadata::new(),
    };
    let s = Snapshot::V2(SnapshotV2 {
        systemtime: Timestamp::new(3, 0),
        duration: Duration::new(1, 500_000_000),
        metadata: Metadata::new(),
        counters: vec![],
        gauges: vec![gauge],
        histograms: vec![histogram],
    });
    let h = HashedSnapshot::from_snapshot(s);
    assert_eq!(h.duration, Some(1_500_000_000));
    assert_eq!(h.gauges.get("temp").unwrap().value, -40);
    assert_eq!(
        h.histograms.get("lat").unwrap().value,
        histogram::Histogram::new(4, 16).unwrap()
    );
}

#[test]
fn legacy_and_tagged_records_share_one_mapping() {
    let legacy = Counter { name: String::from("cpu.usage"), value: 1, metadata: Metadata::new() };
    let tagged_c = Counter { name: String::from("m9"), value: 2, metadata: tagged("cpu", "idle") };
    let h = HashedSnapshot::from_snapshot(v2_with_counters(vec![legacy, tagged_c]));
    assert_eq!(h.counters.len(), 2);
    assert_eq!(h.counters.get("cpu.usage").unwrap().value, 1);
    assert_eq!(h.counters.get("cpu/idle").unwrap().value, 2);
}
