use vstd::prelude::*;

use crate::disk::DiskReading;
use crate::network::InterfaceReading;
use crate::process::{running_status, ProcessInfo, ProcessReading};

verus! {

#[verifier::external_type_specification]
#[verifier::external_body]
pub struct ExSystem(sysinfo::System);

#[verifier::external_type_specification]
#[verifier::external_body]
pub struct ExDisks(sysinfo::Disks);

#[verifier::external_type_specification]
#[verifier::external_body]
pub struct ExDisk(sysinfo::Disk);

#[verifier::external_type_specification]
#[verifier::external_body]
pub struct ExNetworks(sysinfo::Networks);

#[verifier::external_type_specification]
#[verifier::external_body]
pub struct ExNetworkData(sysinfo::NetworkData);

#[verifier::external_type_specification]
#[verifier::external_body]
pub struct ExInstant(std::time::Instant);

/// sysinfo::System::new: a handle on host state with nothing loaded yet.
pub assume_specification[ sysinfo::System::new ]() -> sysinfo::System;

/// sysinfo::System::refresh_memory: reloads RAM and swap figures.
pub assume_specification[ sysinfo::System::refresh_memory ](s: &mut sysinfo::System);

/// The memory figures that a `System` handle last loaded, by position: RAM
/// size, used RAM, available RAM, swap size, used swap (bytes).
pub uninterp spec fn loaded_memory(s: sysinfo::System) -> Seq<u64>;

/// sysinfo::System::total_memory: RAM size in bytes, as last loaded.
pub assume_specification[ sysinfo::System::total_memory ](s: &sysinfo::System) -> (r: u64)
    ensures
        r == loaded_memory(*s)[0],
;

/// sysinfo::System::used_memory: used RAM in bytes, as last loaded.
pub assume_specification[ sysinfo::System::used_memory ](s: &sysinfo::System) -> (r: u64)
    ensures
        r == loaded_memory(*s)[1],
;

/// sysinfo::System::available_memory: available RAM in bytes, as last loaded.
pub assume_specification[ sysinfo::System::available_memory ](s: &sysinfo::System) -> (r: u64)
    ensures
        r == loaded_memory(*s)[2],
;

/// sysinfo::System::total_swap: swap size in bytes, as last loaded.
pub assume_specification[ sysinfo::System::total_swap ](s: &sysinfo::System) -> (r: u64)
    ensures
        r == loaded_memory(*s)[3],
;

/// sysinfo::System::used_swap: used swap in bytes, as last loaded.
pub assume_specification[ sysinfo::System::used_swap ](s: &sysinfo::System) -> (r: u64)
    ensures
        r == loaded_memory(*s)[4],
;

/// sysinfo::Disks::new_with_refreshed_list: the mounted volumes, listed.
pub assume_specification[ sysinfo::Disks::new_with_refreshed_list ]() -> sysinfo::Disks;

/// sysinfo::Disks::refresh: re-lists the mounted volumes, dropping gone ones
/// when asked to.
pub assume_specification[ sysinfo::Disks::refresh ](d: &mut sysinfo::Disks, remove_not_listed_disks: bool);

/// sysinfo::Networks::new_with_refreshed_list: the network interfaces, listed.
pub assume_specification[ sysinfo::Networks::new_with_refreshed_list ]() -> sysinfo::Networks;

/// sysinfo::Networks::refresh: re-reads the interfaces' counters, dropping
/// gone interfaces when asked to.
pub assume_specification[ sysinfo::Networks::refresh ](n: &mut sysinfo::Networks, remove_not_listed_interfaces: bool);

/// std::time::Instant::now: a reading of the monotonic clock.
pub assume_specification[ std::time::Instant::now ]() -> std::time::Instant;

/// Relies on sysinfo::System::refresh_processes over all processes, dropping
/// those that have exited.
#[verifier::external_body]
pub(crate) fn refresh_all_processes(sys: &mut sysinfo::System) {
    sys.refresh_processes(sysinfo::ProcessesToUpdate::All, true);
}

/// Relies on std::time::Instant::elapsed: nanoseconds on the monotonic clock
/// since `origin`.
#[verifier::external_body]
pub(crate) fn nanos_since(origin: &std::time::Instant) -> u64 {
    origin.elapsed().as_nanos() as u64
}

/// Relies on sysinfo::Disks::list and the Disk getters: one reading per
/// listed volume, in the listed order.
#[verifier::external_body]
pub(crate) fn disk_readings(disks: &sysinfo::Disks) -> Vec<DiskReading> {
    disks.list().iter().map(|d| DiskReading {
        name: d.name().to_string_lossy().to_string(),
        mount_point: d.mount_point().to_string_lossy().to_string(),
        file_system: d.file_system().to_string_lossy().to_string(),
        total_bytes: d.total_space(),
        available_bytes: d.available_space(),
    }).collect()
}

/// Relies on sysinfo::Networks::list and NetworkData's cumulative counters:
/// one reading per interface.
#[verifier::external_body]
pub(crate) fn interface_readings(networks: &sysinfo::Networks) -> Vec<InterfaceReading> {
    networks.list().iter().map(|(name, data)| InterfaceReading {
        name: name.clone(),
        received: data.total_received(),
        transmitted: data.total_transmitted(),
    }).collect()
}

/// Relies on sysinfo::System::processes and the Process getters: one reading
/// per process in the table, `running` when its status is `Run`. The status
/// text is the derived `Debug` form of `ProcessStatus`, which is "Run" for
/// that variant alone.
#[verifier::external_body]
pub(crate) fn process_readings(sys: &sysinfo::System) -> (r: Vec<ProcessReading>)
    ensures
        forall|i: int|
            0 <= i < r@.len() ==> ((#[trigger] r@[i]).running <==> r@[i].info.status@ == running_status()),
{
    sys.processes().iter().map(|(pid, p)| ProcessReading {
        info: ProcessInfo {
            pid: pid.as_u32(),
            name: p.name().to_string_lossy().to_string(),
            cpu_usage_bits: p.cpu_usage().to_bits(),
            memory_usage: p.memory(),
            status: format!("{:?}", p.status()),
            user: p.user_id().map(|u| format!("{:?}", u)),
        },
        running: matches!(p.status(), sysinfo::ProcessStatus::Run),
    }).collect()
}

} // verus!
