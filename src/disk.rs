use vstd::prelude::*;

use crate::host::disk_readings;
use crate::rate::sat_sub;

verus! {

/// One mounted volume as read from the host.
pub struct DiskReading {
    pub name: String,
    pub mount_point: String,
    pub file_system: String,
    pub total_bytes: u64,
    pub available_bytes: u64,
}

/// One mounted volume as reported. Its usage is `used_bytes / total_bytes`,
/// taken as zero when `total_bytes` is zero.
pub struct DiskInfo {
    pub name: String,
    pub mount_point: String,
    pub total_bytes: u64,
    pub used_bytes: u64,
    pub available_bytes: u64,
    pub file_system: String,
}

pub struct DiskStats {
    pub disks: Vec<DiskInfo>,
}

/// The report of one volume: used space is total less available, stopping at zero.
pub open spec fn disk_of(r: DiskReading) -> DiskInfo {
    DiskInfo {
        name: r.name,
        mount_point: r.mount_point,
        total_bytes: r.total_bytes,
        used_bytes: sat_sub(r.total_bytes, r.available_bytes),
        available_bytes: r.available_bytes,
        file_system: r.file_system,
    }
}

/// Builds the report of one volume.
pub fn disk_info(r: DiskReading) -> (d: DiskInfo)
    ensures
        d == disk_of(r),
{
    let used = if r.total_bytes >= r.available_bytes {
        r.total_bytes - r.available_bytes
    } else {
        0
    };
    DiskInfo {
        name: r.name,
        mount_point: r.mount_point,
        total_bytes: r.total_bytes,
        used_bytes: used,
        available_bytes: r.available_bytes,
        file_system: r.file_system,
    }
}

/// Builds the report of every volume, in the order read.
pub fn disk_stats(readings: Vec<DiskReading>) -> (s: DiskStats)
    ensures
        s.disks@.len() == readings@.len(),
        forall|i: int| 0 <= i < readings@.len() ==> #[trigger] s.disks@[i] == disk_of(readings@[i]),
{
    let ghost all = readings@;
    let mut rest = readings;
    let mut disks: Vec<DiskInfo> = Vec::new();
    while rest.len() > 0
        invariant
            disks@.len() + rest@.len() == all.len(),
            rest@ == all.skip(disks@.len() as int),
            forall|i: int| 0 <= i < disks@.len() ==> #[trigger] disks@[i] == disk_of(all[i]),
        decreases rest@.len(),
    {
        let r = rest.remove(0);
        disks.push(disk_info(r));
        assert(rest@ =~= all.skip(disks@.len() as int));
    }
    DiskStats { disks }
}

/// A volume's used space never exceeds its size, and a volume of size zero
/// has none used, also when the host reports more available than total: its
/// usage share lies between zero and one, and is zero for size zero.
pub proof fn lemma_disk_usage_bounded(r: DiskReading)
    ensures
        disk_of(r).used_bytes <= disk_of(r).total_bytes,
        disk_of(r).total_bytes == 0 ==> disk_of(r).used_bytes == 0,
        r.available_bytes >= r.total_bytes ==> disk_of(r).used_bytes == 0,
{
}

/// Lists the mounted volumes afresh at every call.
pub struct DiskCollector {
    disks: sysinfo::Disks,
}

impl DiskCollector {
    pub fn new() -> Self {
        DiskCollector { disks: sysinfo::Disks::new_with_refreshed_list() }
    }

    /// Re-lists the volumes and reports each.
    pub fn collect(&mut self) -> (s: DiskStats)
        ensures
            forall|i: int|
                0 <= i < s.disks@.len() ==> #[trigger] s.disks@[i].used_bytes <= s.disks@[i].total_bytes,
            forall|i: int|
                0 <= i < s.disks@.len() && (#[trigger] s.disks@[i]).total_bytes == 0 ==> s.disks@[i].used_bytes == 0,
            exists|rs: Seq<DiskReading>|
                #![trigger rs.len()]
                s.disks@.len() == rs.len() && forall|i: int|
                    0 <= i < rs.len() ==> #[trigger] s.disks@[i] == disk_of(rs[i]),
    {
        self.disks.refresh(true);
        let readings = disk_readings(&self.disks);
        let ghost rs = readings@;
        let s = disk_stats(readings);
        assert(s.disks@.len() == rs.len());
        s
    }
}

} // verus!
