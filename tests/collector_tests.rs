use sysmon::disk::{disk_info, disk_stats, DiskReading};
use sysmon::process::{rank_processes, rank_usage, ProcessInfo, ProcessReading};

fn process(pid: u32, usage: f32, running: bool) -> ProcessReading {
    ProcessReading {
        info: ProcessInfo {
            pid,
            name: format!("p{}", pid),
            cpu_usage_bits: usage.to_bits(),
            memory_usage: 1024 * pid as u64,
            status: if running { "Run".to_string() } else { "Sleep".to_string() },
            user: None,
        },
        running,
    }
}

#[test]
fn ranking_truncates_but_counts_everything() {
    let readings: Vec<ProcessReading> =
        (0..200u32).map(|i| process(i, ((i * 37) % 101) as f32 / 4.0, i % 3 == 0)).collect();
    let s = rank_processes(readings, 50);
    assert_eq!(s.processes.len(), 50);
    assert_eq!(s.total_count, 200);
    assert_eq!(s.running_count, 67);
    for w in s.processes.windows(2) {
        assert!(f32::from_bits(w[0].cpu_usage_bits) >= f32::from_bits(w[1].cpu_usage_bits));
    }
    assert_eq!(f32::from_bits(s.processes[0].cpu_usage_bits), 25.0);
}

#[test]
fn ranking_orders_highest_first_and_keeps_ties_in_order() {
    let readings = vec![
        process(1, 5.0, false),
        process(2, 80.5, true),
        process(3, 5.0, false),
        process(4, 0.0, false),
        process(5, 12.0, true),
    ];
    let s = rank_processes(readings, 10);
    let pids: Vec<u32> = s.processes.iter().map(|p| p.pid).collect();
    assert_eq!(pids, vec![2, 5, 1, 3, 4]);
    assert_eq!(s.total_count, 5);
    assert_eq!(s.running_count, 2);
}

#[test]
fn ranking_with_zero_limit_and_empty_table() {
    let s = rank_processes(vec![process(1, 1.0, true)], 0);
    assert!(s.processes.is_empty());
    assert_eq!(s.total_count, 1);
    assert_eq!(s.running_count, 1);
    let s = rank_processes(vec![], 50);
    assert!(s.processes.is_empty());
    assert_eq!(s.total_count, 0);
    assert_eq!(s.running_count, 0);
}

#[test]
fn nan_usage_ranks_last_without_fault() {
    let s = rank_processes(vec![process(1, f32::NAN, false), process(2, 0.0, false), process(3, 3.0, false)], 3);
    let pids: Vec<u32> = s.processes.iter().map(|p| p.pid).collect();
    assert_eq!(pids, vec![3, 2, 1]);
}

#[test]
fn usage_rank_follows_numeric_order() {
    assert_eq!(rank_usage(0.0f32.to_bits()), rank_usage((-0.0f32).to_bits()));
    assert!(rank_usage(1.5f32.to_bits()) > rank_usage(1.25f32.to_bits()));
    assert!(rank_usage((-1.0f32).to_bits()) < rank_usage(0.0f32.to_bits()));
    assert!(rank_usage(f32::NAN.to_bits()) < rank_usage(f32::NEG_INFINITY.to_bits()));
    assert!(rank_usage(f32::INFINITY.to_bits()) > rank_usage(f32::MAX.to_bits()));
}

fn volume(total: u64, available: u64) -> DiskReading {
    DiskReading {
        name: "sda1".to_string(),
        mount_point: "/".to_string(),
        file_system: "ext4".to_string(),
        total_bytes: total,
        available_bytes: available,
    }
}

#[test]
fn disk_used_is_total_less_available() {
    let d = disk_info(volume(1000, 250));
    assert_eq!(d.used_bytes, 750);
    assert_eq!(d.total_bytes, 1000);
    assert_eq!(d.available_bytes, 250);
    assert_eq!(d.name, "sda1");
    assert_eq!(d.mount_point, "/");
    assert_eq!(d.file_system, "ext4");
}

#[test]
fn disk_available_above_total_is_unused() {
    let d = disk_info(volume(1000, 4000));
    assert_eq!(d.used_bytes, 0);
    let d = disk_info(volume(0, 10));
    assert_eq!(d.used_bytes, 0);
    assert_eq!(d.total_bytes, 0);
}

#[test]
fn disk_stats_keep_order() {
    let s = disk_stats(vec![volume(10, 1), volume(20, 30), volume(0, 0)]);
    let used: Vec<u64> = s.disks.iter().map(|d| d.used_bytes).collect();
    assert_eq!(used, vec![9, 0, 0]);
}
