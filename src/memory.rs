use vstd::prelude::*;

use crate::host::loaded_memory;

verus! {

/// Physical memory and swap, in bytes. The usage share is
/// `used_bytes / total_bytes`, taken as zero when `total_bytes` is zero.
#[derive(PartialEq, Eq, Structural, Clone, Copy, Debug)]
pub struct MemoryStats {
    pub total_bytes: u64,
    pub used_bytes: u64,
    pub available_bytes: u64,
    pub swap_total: u64,
    pub swap_used: u64,
}

impl MemoryStats {
    pub fn format_used(&self) -> (r: String)
        ensures
            r@ == crate::format::byte_text(self.used_bytes as nat),
    {
        crate::format::format_bytes(self.used_bytes)
    }

    pub fn format_total(&self) -> (r: String)
        ensures
            r@ == crate::format::byte_text(self.total_bytes as nat),
    {
        crate::format::format_bytes(self.total_bytes)
    }
}

/// Reads RAM and swap figures.
pub struct MemoryCollector {
    sys: sysinfo::System,
}

impl MemoryCollector {
    /// The figures the collector's host handle holds, by position: RAM size,
    /// used RAM, available RAM, swap size, used swap.
    pub closed spec fn loaded(&self) -> Seq<u64> {
        loaded_memory(self.sys)
    }

    pub fn new() -> Self {
        MemoryCollector { sys: sysinfo::System::new() }
    }

    /// Reloads the memory figures and reports them.
    pub fn collect(&mut self) -> (s: MemoryStats)
        ensures
            s.total_bytes == final(self).loaded()[0],
            s.used_bytes == final(self).loaded()[1],
            s.available_bytes == final(self).loaded()[2],
            s.swap_total == final(self).loaded()[3],
            s.swap_used == final(self).loaded()[4],
    {
        self.sys.refresh_memory();
        MemoryStats {
            total_bytes: self.sys.total_memory(),
            used_bytes: self.sys.used_memory(),
            available_bytes: self.sys.available_memory(),
            swap_total: self.sys.total_swap(),
            swap_used: self.sys.used_swap(),
        }
    }
}

} // verus!
