use sysmon::format::format_bytes;
use sysmon::memory::MemoryStats;

#[test]
fn bytes_below_a_kilobyte_are_plain() {
    assert_eq!(format_bytes(0), "0 B");
    assert_eq!(format_bytes(7), "7 B");
    assert_eq!(format_bytes(1023), "1023 B");
}

#[test]
fn kilobytes_have_two_decimals() {
    assert_eq!(format_bytes(1024), "1.00 KB");
    assert_eq!(format_bytes(1536), "1.50 KB");
    assert_eq!(format_bytes(10 * 1024 + 256), "10.25 KB");
}

#[test]
fn halfway_hundredths_round_to_even() {
    assert_eq!(format_bytes(1152), "1.12 KB");
    assert_eq!(format_bytes(1408), "1.38 KB");
}

#[test]
fn larger_units() {
    assert_eq!(format_bytes(1048576), "1.00 MB");
    assert_eq!(format_bytes(1048575), "1024.00 KB");
    assert_eq!(format_bytes(5 * 1073741824 / 2), "2.50 GB");
    assert_eq!(format_bytes(1099511627776), "1.00 TB");
    assert_eq!(format_bytes(3 * 1099511627776 + 1099511627776 / 4), "3.25 TB");
}

#[test]
fn largest_count() {
    assert_eq!(format_bytes(u64::MAX), "16777216.00 TB");
}

#[test]
fn memory_figures_are_formatted() {
    let m = MemoryStats {
        total_bytes: 8 * 1073741824,
        used_bytes: 3 * 1073741824 + 1073741824 / 2,
        available_bytes: 4 * 1073741824,
        swap_total: 0,
        swap_used: 0,
    };
    assert_eq!(m.format_total(), "8.00 GB");
    assert_eq!(m.format_used(), "3.50 GB");
}
