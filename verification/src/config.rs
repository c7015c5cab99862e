//! Process configuration.
//!
//! An ordered list of targets, the collection interval, and the port the
//! exposition endpoint listens on.  Reading and deserializing the
//! configuration file is I/O and lives outside the library; the values
//! arrive here as plain data.

use vstd::prelude::*;

use crate::connection;

verus! {

/// The whole process configuration.
pub struct Config {
    /// The port the exposition endpoint binds.
    pub prometheus_port: u32,
    /// The poll interval, in seconds.
    pub collect_interval: u64,
    /// The configured targets, in order.
    pub targets: Vec<connection::Config>,
}

/// The exposition port used when the configuration names none.
pub fn default_prometheus_port() -> (r: u32)
    ensures
        r == 9090,
{
    9090
}

} // verus!
