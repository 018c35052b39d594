pub mod config;
pub mod disk;
pub mod format;
mod host;
pub mod memory;
pub mod network;
pub mod process;
pub mod rate;
pub mod worker;
