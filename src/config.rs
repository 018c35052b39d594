use vstd::prelude::*;

verus! {

/// Sampling cadence and the number of processes reported in detail.
#[derive(Debug)]
pub struct MonitorConfig {
    pub update_interval_ms: u64,
    pub process_limit: usize,
}

impl Clone for MonitorConfig {
    fn clone(&self) -> (r: Self)
        ensures
            r == *self,
    {
        MonitorConfig { update_interval_ms: self.update_interval_ms, process_limit: self.process_limit }
    }
}

impl Default for MonitorConfig {
    fn default() -> (r: Self)
        ensures
            r.update_interval_ms == 1000,
            r.process_limit == 50,
    {
        MonitorConfig { update_interval_ms: 1000, process_limit: 50 }
    }
}

/// A request from the controller to the sampling worker.
#[derive(PartialEq, Eq, Structural, Clone, Copy, Debug)]
pub enum MonitorCommand {
    /// Use a new sleep between ticks, in milliseconds.
    SetInterval(u64),
    /// Stop sampling.
    Shutdown,
}

} // verus!
