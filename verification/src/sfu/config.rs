//! Configuration of the SFU's RTC cores.
use vstd::prelude::*;

verus! {

/// How lobbies are spread over the RTC cores.
#[derive(Debug, Clone, Copy, PartialEq, Eq, Structural)]
pub enum RtcAssignmentStrategy {
    RoundRobin,
    LeastLoaded,
}

impl Default for RtcAssignmentStrategy {
    fn default() -> (s: Self)
        ensures
            s == RtcAssignmentStrategy::LeastLoaded,
    {
        RtcAssignmentStrategy::LeastLoaded
    }
}

/// Configuration of the SFU.
#[derive(Debug, Clone)]
pub struct SfuConfig {
    /// Local address used to bind the RTC core UDP sockets.
    pub bind_ip: String,
    pub advertised_ip: String,
    /// Number of RTC cores. Zero selects the available OS parallelism.
    pub cores: usize,
    /// UDP port used by core 0. Following cores use consecutive ports.
    pub base_port: u16,
    /// Run every RTC core on its own thread.
    pub dedicated_threads: bool,
    pub assignment: RtcAssignmentStrategy,
}

impl Default for SfuConfig {
    fn default() -> (c: Self)
        ensures
            c.bind_ip@ == "0.0.0.0"@,
            c.advertised_ip@ == Seq::<char>::empty(),
            c.cores == 0,
            c.base_port == 50000,
            c.dedicated_threads,
            c.assignment == RtcAssignmentStrategy::LeastLoaded,
    {
        SfuConfig {
            bind_ip: String::from_str("0.0.0.0"),
            advertised_ip: String::new(),
            cores: 0,
            base_port: 50000,
            dedicated_threads: true,
            assignment: RtcAssignmentStrategy::LeastLoaded,
        }
    }
}

impl SfuConfig {
    /// A copy of this configuration.
    pub fn duplicate(&self) -> (c: Self)
        ensures
            c.bind_ip@ == self.bind_ip@,
            c.advertised_ip@ == self.advertised_ip@,
            c.cores == self.cores,
            c.base_port == self.base_port,
            c.dedicated_threads == self.dedicated_threads,
            c.assignment == self.assignment,
    {
        SfuConfig {
            bind_ip: self.bind_ip.clone(),
            advertised_ip: self.advertised_ip.clone(),
            cores: self.cores,
            base_port: self.base_port,
            dedicated_threads: self.dedicated_threads,
            assignment: self.assignment,
        }
    }
}

} // verus!
