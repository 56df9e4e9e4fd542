use shelly_exporter::schedule::{boundary_after, next_cycle_start};
use shelly_exporter::registry::{DeviceHandle, DeviceRegistry};
use shelly_exporter::shelly::ShellyGeneration;

fn handle(host: &str, name: &str) -> DeviceHandle {
    DeviceHandle {
        host: host.to_string(),
        name: name.to_string(),
        model: "Shelly Gen1".to_string(),
        generation: ShellyGeneration::Gen1,
    }
}

#[test]
fn insert_if_absent_twice_keeps_first() {
    let mut r = DeviceRegistry::new();
    assert!(r.insert_if_absent(handle("http://a", "first")));
    assert!(!r.insert_if_absent(handle("http://a", "second")));
    assert_eq!(r.len(), 1);
    let snap = r.snapshot();
    assert_eq!(snap[0].name, "first");
}

#[test]
fn snapshot_keeps_insertion_order() {
    let mut r = DeviceRegistry::new();
    r.insert_if_absent(handle("http://b", "b"));
    r.insert_if_absent(handle("http://a", "a"));
    assert!(r.contains("http://a"));
    assert!(!r.contains("http://c"));
    let snap = r.snapshot();
    assert_eq!(snap.len(), 2);
    assert_eq!(snap[0].host, "http://b");
    assert_eq!(snap[1].host, "http://a");
}

#[test]
fn unknown_hosts_filters_known_and_repeated() {
    let mut r = DeviceRegistry::new();
    r.insert_if_absent(handle("http://a", "a"));
    let found = vec!["http://a".to_string(), "http://b".to_string(), "http://b".to_string(), "http://c".to_string()];
    assert_eq!(r.unknown_hosts(&found), vec!["http://b".to_string(), "http://c".to_string()]);
    assert!(r.unknown_hosts(&vec![]).is_empty());
}

#[test]
fn cycle_starts_at_boundary_or_when_late() {
    assert_eq!(next_cycle_start(30, 12), 30);
    assert_eq!(next_cycle_start(30, 47), 47);
    assert_eq!(next_cycle_start(0, 0), 0);
}

#[test]
fn next_boundary_skips_missed_ticks() {
    assert_eq!(boundary_after(0, 30, 0), Some(30));
    assert_eq!(boundary_after(0, 30, 29), Some(30));
    assert_eq!(boundary_after(0, 30, 30), Some(60));
    assert_eq!(boundary_after(0, 30, 95), Some(120));
    assert_eq!(boundary_after(5, 10, 5), Some(15));
    assert_eq!(boundary_after(0, 10, u64::MAX - 3), None);
}

#[test]
fn unknown_hosts_keep_discovery_order() {
    let r = DeviceRegistry::new();
    let found = vec!["http://z".to_string(), "http://a".to_string(), "http://m".to_string(), "http://a".to_string()];
    assert_eq!(
        r.unknown_hosts(&found),
        vec!["http://z".to_string(), "http://a".to_string(), "http://m".to_string()]
    );
}
