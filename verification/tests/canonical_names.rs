use metriken_exposition::{canonicalize_metric_name, Metadata};

fn md(pairs: &[(&str, &str)]) -> Metadata {
    let mut m = Metadata::new();
    for (k, v) in pairs {
        m.insert(String::from(*k), String::from(*v));
    }
    m
}

#[test]
fn legacy_name_passes_through() {
    let m = Metadata::new();
    assert_eq!(canonicalize_metric_name("cpu.usage", &m), "cpu.usage");
}

#[test]
fn tagged_name_full_example() {
    let m = md(&[("metric", "cpu"), ("op", "busy"), ("state", "user"), ("id", "0")]);
    assert_eq!(canonicalize_metric_name("m123", &m), "cpu/busy/user/0");
}

#[test]
fn tagged_name_extra_key() {
    let m = md(&[
        ("metric", "net"),
        ("direction", "rx"),
        ("unit", "bytes"),
        ("iface", "eth0"),
    ]);
    assert_eq!(canonicalize_metric_name("m1", &m), "net/rx/eth0");
}

#[test]
fn tagged_name_metric_only() {
    let m = md(&[("metric", "uptime")]);
    assert_eq!(canonicalize_metric_name("m7", &m), "uptime");
}

#[test]
fn dimension_keys_in_fixed_order() {
    let m = md(&[
        ("direction", "rx"),
        ("state", "s"),
        ("metric", "m"),
        ("op", "o"),
        ("name", "n"),
    ]);
    assert_eq!(canonicalize_metric_name("raw", &m), "m/n/o/s/rx");
}

#[test]
fn bookkeeping_keys_ignored() {
    let m = md(&[
        ("metric", "lat"),
        ("grouping_power", "4"),
        ("max_value_power", "20"),
        ("unit", "ns"),
    ]);
    assert_eq!(canonicalize_metric_name("raw", &m), "lat");
}

#[test]
fn remaining_keys_in_lexicographic_order() {
    let m = md(&[("metric", "q"), ("zone", "z1"), ("bank", "b0"), ("cell", "c9")]);
    assert_eq!(canonicalize_metric_name("raw", &m), "q/b0/c9/z1");
}

#[test]
fn canonicalization_deterministic_across_insertion_order() {
    let a = md(&[("metric", "cpu"), ("op", "busy"), ("id", "3"), ("core", "x")]);
    let b = md(&[("core", "x"), ("id", "3"), ("op", "busy"), ("metric", "cpu")]);
    assert_eq!(
        canonicalize_metric_name("m1", &a),
        canonicalize_metric_name("m2", &b)
    );
    assert_eq!(canonicalize_metric_name("m1", &a), "cpu/busy/x/3");
}
