use vstd::prelude::*;

verus! {

/// Pace of the simulation loop.
#[derive(Debug, Clone)]
pub struct SimulationConfig {
    pub ticks_per_second: u64,
    pub log_interval_ticks: u64,
}

/// Where and how often full-state snapshots are persisted.
#[derive(Debug, Clone)]
pub struct CheckpointConfig {
    pub enabled: bool,
    pub interval_seconds: u64,
    pub directory: String,
    pub keep_last_n: usize,
}

/// Address and update rate of the observation server.
#[derive(Debug, Clone)]
pub struct ServerConfig {
    pub enabled: bool,
    pub address: String,
    pub port: u16,
    pub update_rate_hz: u64,
}

} // verus!
