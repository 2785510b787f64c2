//! Orchestrator configuration: the worker container image, the first port
//! to hand out, and how long to wait for a freshly started container
//! before dialing its RPC server.
//!
//! `Config::default` yields the built-in values; the process boundary may
//! override each field from its environment before handing the
//! configuration in.

use vstd::prelude::*;
use vstd::string::StringExecFns;

verus! {

pub struct Config {
    /// The image worker containers are created from.
    pub image_name: String,
    /// The first port the allocator hands out.
    pub starting_port: u16,
    /// Seconds to wait after starting a container before connecting.
    pub container_ready_timeout: u64,
}

impl Default for Config {
    /// The built-in configuration.
    fn default() -> (r: Config)
        ensures
            r.image_name@ == "sorcerer-agent:latest"@,
            r.starting_port == 50100u16,
            r.container_ready_timeout == 2u64,
    {
        Config {
            image_name: String::from_str("sorcerer-agent:latest"),
            starting_port: 50100,
            container_ready_timeout: 2,
        }
    }
}

} // verus!
