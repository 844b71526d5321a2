//! Startup decisions: the ports and URLs of the two local servers, the runtime
//! configuration, and the page the main window loads.

use vstd::prelude::*;

use crate::commands::desktop::{dev_or_prod_url, dev_server_url, opt_view};
use crate::runtime_config::{local_config, HostFacts, RuntimeConfig};
use crate::text::{decimal, decimal_string, law_parse_decimal, parse_unsigned, parse_unsigned_decimal};

verus! {

/// The OpenChamber server's port unless `OPENCHAMBER_PORT` says otherwise.
pub const DEFAULT_OPENCHAMBER_PORT: u16 = 57123;

/// The opencode server's port unless `OPENCODE_PORT` says otherwise.
pub const DEFAULT_OPENCODE_PORT: u16 = 4096;

/// A port variable's value when it parses as a `u16`, else `default`.
pub open spec fn port_setting(env: Option<Seq<char>>, default: u16) -> u16 {
    match env {
        Some(v) => match parse_unsigned(v, u16::MAX as int) {
            Some(p) => p as u16,
            None => default,
        },
        None => default,
    }
}

/// Reads a port variable, falling back to `default`.
pub fn port_or_default(env: Option<&str>, default: u16) -> (r: u16)
    ensures
        r == port_setting(
            match env {
                Some(v) => Some(v@),
                None => None,
            },
            default,
        ),
{
    match env {
        Some(v) => match parse_unsigned_decimal(v, 0xFFFF) {
            Some(p) => p as u16,
            None => default,
        },
        None => default,
    }
}

/// The loopback URL of a local server on `port`.
pub open spec fn loopback_url(port: u16) -> Seq<char> {
    "http://127.0.0.1:"@ + decimal(port as nat)
}

/// `http://127.0.0.1:<port>`.
pub fn local_url(port: u16) -> (r: String)
    ensures
        r@ == loopback_url(port),
{
    "http://127.0.0.1:".to_owned().concat(decimal_string(port as u128).as_str())
}

/// What the shell starts with.
#[derive(Debug, PartialEq)]
pub struct BootPlan {
    pub openchamber_port: u16,
    pub opencode_port: u16,
    pub openchamber_url: String,
    pub opencode_url: String,
    pub runtime_config: RuntimeConfig,
}

/// The startup plan from `OPENCHAMBER_PORT`, `OPENCODE_PORT` and the host's
/// facts: each port from its variable (else its default), the servers' loopback
/// URLs, and the runtime configuration for the OpenChamber origin on this host
/// (`local_config`).
pub fn run(openchamber_port_env: Option<&str>, opencode_port_env: Option<&str>, host: HostFacts) -> (r:
    BootPlan)
    ensures
        r.openchamber_port == port_setting(
            match openchamber_port_env {
                Some(v) => Some(v@),
                None => None,
            },
            DEFAULT_OPENCHAMBER_PORT,
        ),
        r.opencode_port == port_setting(
            match opencode_port_env {
                Some(v) => Some(v@),
                None => None,
            },
            DEFAULT_OPENCODE_PORT,
        ),
        r.openchamber_url@ == loopback_url(r.openchamber_port),
        r.opencode_url@ == loopback_url(r.opencode_port),
        local_config(loopback_url(r.openchamber_port), host, r.runtime_config),
{
    let openchamber_port = port_or_default(openchamber_port_env, DEFAULT_OPENCHAMBER_PORT);
    let opencode_port = port_or_default(opencode_port_env, DEFAULT_OPENCODE_PORT);
    let openchamber_url = local_url(openchamber_port);
    let opencode_url = local_url(opencode_port);
    let runtime_config = RuntimeConfig::for_local_origin(
        openchamber_url.clone(),
        openchamber_port,
        host,
    );
    BootPlan { openchamber_port, opencode_port, openchamber_url, opencode_url, runtime_config }
}

/// The page the main window loads: the dev server in a debug build, the
/// bundled `index.html` otherwise.
pub fn main_window_url(debug_build: bool, dev_env: Option<String>) -> (r: String)
    ensures
        r@ == (if debug_build {
            dev_server_url(opt_view(dev_env))
        } else {
            "index.html"@
        }),
{
    dev_or_prod_url(debug_build, dev_env, "index.html")
}

/// A port variable set to the decimal text of a port selects that port.
pub proof fn law_port_setting_reads_decimal(port: u16, default: u16)
    ensures
        port_setting(Some(decimal(port as nat)), default) == port,
{
    law_parse_decimal(port as nat, u16::MAX as int);
}

} // verus!
