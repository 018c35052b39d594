use sysmon::network::{network_stats, InterfaceReading};
use sysmon::rate::{RateTracker, Reading, Throughput};

fn zero() -> Throughput {
    Throughput { rx_bytes: 0, tx_bytes: 0, elapsed_ns: 0 }
}

#[test]
fn first_sighting_is_zero() {
    let mut t = RateTracker::new();
    assert_eq!(t.observe("eth0", 5000, 7000, 1_000_000_000), zero());
    assert_eq!(
        t.last_reading("eth0"),
        Some(Reading { received: 5000, transmitted: 7000, at_ns: 1_000_000_000 })
    );
    assert_eq!(t.last_reading("wlan0"), None);
}

#[test]
fn growing_counters_give_exact_deltas() {
    let mut t = RateTracker::new();
    t.observe("eth0", 1000, 2000, 1_000_000_000);
    let r = t.observe("eth0", 3000, 2500, 3_000_000_000);
    assert_eq!(r, Throughput { rx_bytes: 2000, tx_bytes: 500, elapsed_ns: 2_000_000_000 });
    let r = t.observe("eth0", 3000, 4500, 3_500_000_000);
    assert_eq!(r, Throughput { rx_bytes: 0, tx_bytes: 2000, elapsed_ns: 500_000_000 });
}

#[test]
fn decreasing_counter_is_zero_not_negative() {
    let mut t = RateTracker::new();
    t.observe("eth0", 9000, 100, 1_000_000_000);
    let r = t.observe("eth0", 10, 300, 2_000_000_000);
    assert_eq!(r, Throughput { rx_bytes: 0, tx_bytes: 200, elapsed_ns: 1_000_000_000 });
    let r = t.observe("eth0", 110, 300, 3_000_000_000);
    assert_eq!(r.rx_bytes, 100);
}

#[test]
fn no_elapsed_time_is_zero_and_rebases() {
    let mut t = RateTracker::new();
    t.observe("eth0", 100, 100, 5_000);
    assert_eq!(t.observe("eth0", 900, 900, 5_000), zero());
    assert_eq!(t.observe("eth0", 1000, 1000, 4_000), zero());
    assert_eq!(
        t.last_reading("eth0"),
        Some(Reading { received: 1000, transmitted: 1000, at_ns: 4_000 })
    );
}

#[test]
fn entities_are_tracked_apart() {
    let mut t = RateTracker::new();
    t.observe("a", 10, 10, 1);
    assert_eq!(t.observe("b", 50, 50, 2), zero());
    assert_eq!(t.observe("a", 30, 40, 3), Throughput { rx_bytes: 20, tx_bytes: 30, elapsed_ns: 2 });
}

fn reading(name: &str, received: u64, transmitted: u64) -> InterfaceReading {
    InterfaceReading { name: name.to_string(), received, transmitted }
}

#[test]
fn network_sample_reports_each_interface() {
    let mut t = RateTracker::new();
    let s = network_stats(&mut t, vec![reading("lo", 100, 100), reading("eth0", 0, 0)], 1_000);
    assert_eq!(s.interfaces.len(), 2);
    assert_eq!(s.interfaces[0].name, "lo");
    assert_eq!(s.interfaces[1].rate, zero());
    let s = network_stats(&mut t, vec![reading("eth0", 4000, 1000), reading("lo", 300, 100)], 3_000);
    assert_eq!(s.interfaces[0].name, "eth0");
    assert_eq!(s.interfaces[0].received_bytes, 4000);
    assert_eq!(s.interfaces[0].transmitted_bytes, 1000);
    assert_eq!(s.interfaces[0].rate, Throughput { rx_bytes: 4000, tx_bytes: 1000, elapsed_ns: 2_000 });
    assert_eq!(s.interfaces[1].rate, Throughput { rx_bytes: 200, tx_bytes: 0, elapsed_ns: 2_000 });
}

#[test]
fn removed_interface_leaves_its_entry() {
    let mut t = RateTracker::new();
    network_stats(&mut t, vec![reading("usb0", 10, 20)], 1);
    let s = network_stats(&mut t, vec![], 2);
    assert!(s.interfaces.is_empty());
    assert_eq!(t.last_reading("usb0"), Some(Reading { received: 10, transmitted: 20, at_ns: 1 }));
}
