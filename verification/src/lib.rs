//! Verified core of the OpenChamber desktop shell: everything the shell
//! decides and computes, as functions on plain values. The native window, the
//! child processes, files and network requests are driven by the application
//! around this library.

pub mod text;
pub mod json;
pub mod json_text;
pub mod deps;
pub mod commands;
pub mod runtime_config;
pub mod process;
pub mod bootstrap;

use vstd::prelude::*;

use crate::bootstrap::BootPlan;
use crate::runtime_config::HostFacts;

verus! {

/// The startup plan of the shell (see `bootstrap::run`).
pub fn run(openchamber_port_env: Option<&str>, opencode_port_env: Option<&str>, host: HostFacts) -> (r:
    BootPlan)
    ensures
        r.openchamber_port == bootstrap::port_setting(
            match openchamber_port_env {
                Some(v) => Some(v@),
                None => None,
            },
            bootstrap::DEFAULT_OPENCHAMBER_PORT,
        ),
        r.opencode_port == bootstrap::port_setting(
            match opencode_port_env {
                Some(v) => Some(v@),
                None => None,
            },
            bootstrap::DEFAULT_OPENCODE_PORT,
        ),
        r.openchamber_url@ == bootstrap::loopback_url(r.openchamber_port),
        r.opencode_url@ == bootstrap::loopback_url(r.opencode_port),
        runtime_config::local_config(
            bootstrap::loopback_url(r.openchamber_port),
            host,
            r.runtime_config,
        ),
{
    bootstrap::run(openchamber_port_env, opencode_port_env, host)
}

} // verus!
