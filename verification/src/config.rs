//! Tunable parameters of UDP hole punching.

use vstd::prelude::*;

verus! {

/// Parameters that the transport loop reads while it punches a hole and keeps
/// the path open.
#[derive(Debug, Clone)]
pub struct HolePunchConfig {
    /// Number of punch attempts.
    pub punch_attempts: usize,
    /// Delay between attempts, in milliseconds.
    pub punch_delay_ms: u64,
    /// Time allowed for establishing a connection, in seconds.
    pub connection_timeout: u64,
    /// Keep-alive interval, in seconds.
    pub keepalive_interval: u64,
}

impl HolePunchConfig {
    /// A configuration is usable when the loop it drives can make progress:
    /// at least one attempt, and non-zero timeouts.
    pub open spec fn usable(&self) -> bool {
        &&& self.punch_attempts >= 1
        &&& self.connection_timeout >= 1
        &&& self.keepalive_interval >= 1
    }

    /// The documented defaults, as a specification value.
    pub open spec fn standard() -> HolePunchConfig {
        HolePunchConfig {
            punch_attempts: 5,
            punch_delay_ms: 100,
            connection_timeout: 10,
            keepalive_interval: 30,
        }
    }

    /// Tells whether the configuration is usable.
    pub fn is_usable(&self) -> (ok: bool)
        ensures
            ok == self.usable(),
    {
        self.punch_attempts >= 1 && self.connection_timeout >= 1 && self.keepalive_interval >= 1
    }
}

impl Default for HolePunchConfig {
    /// Five attempts, 100 ms apart, ten seconds to connect, a keep-alive every
    /// thirty seconds.
    fn default() -> (config: Self)
        ensures
            config == HolePunchConfig::standard(),
            config.usable(),
    {
        HolePunchConfig {
            punch_attempts: 5,
            punch_delay_ms: 100,
            connection_timeout: 10,
            keepalive_interval: 30,
        }
    }
}

} // verus!
