use sysmon::disk::DiskCollector;
use sysmon::memory::MemoryCollector;
use sysmon::network::NetworkCollector;
use sysmon::process::{rank_usage, ProcessCollector};
use sysmon::rate::Throughput;

#[test]
fn first_network_sample_has_no_rates() {
    let mut c = NetworkCollector::new();
    let s = c.collect();
    for i in &s.interfaces {
        assert_eq!(i.rate, Throughput { rx_bytes: 0, tx_bytes: 0, elapsed_ns: 0 });
    }
}

#[test]
fn disk_sample_is_consistent() {
    let mut c = DiskCollector::new();
    let s = c.collect();
    for d in &s.disks {
        assert!(d.used_bytes <= d.total_bytes);
        assert_eq!(d.used_bytes, d.total_bytes.saturating_sub(d.available_bytes));
    }
}

#[test]
fn memory_sample_reads_the_host() {
    let mut c = MemoryCollector::new();
    let m = c.collect();
    assert!(m.total_bytes > 0);
    assert!(m.swap_used <= m.swap_total);
}

#[test]
fn process_sample_is_capped_and_ranked() {
    let mut c = ProcessCollector::new(3);
    let s = c.collect();
    assert!(s.total_count >= 1);
    assert!(s.processes.len() <= 3);
    assert_eq!(s.processes.len(), s.total_count.min(3));
    assert!(s.running_count <= s.total_count);
    assert!(s.processes.iter().any(|p| !p.name.is_empty()));
    for w in s.processes.windows(2) {
        assert!(rank_usage(w[0].cpu_usage_bits) >= rank_usage(w[1].cpu_usage_bits));
    }
}
