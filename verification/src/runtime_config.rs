//! The runtime configuration handed to the renderer: local API origin, client
//! token, runtime headers, home directory and platform facts.

use vstd::prelude::*;

use crate::json::JsonValue;
use crate::text::{parse_unsigned, parse_unsigned_decimal, trim, trim_ws};

verus! {

/// The globals the renderer needs at startup.
#[derive(Debug, PartialEq)]
pub struct RuntimeConfig {
    pub local_origin: String,
    pub api_base_url: String,
    pub client_token: String,
    pub runtime_headers: JsonValue,
    pub relay_host_id: String,
    pub home_directory: String,
    pub macos_major: Option<u32>,
    pub platform: &'static str,
    pub arch: String,
    pub tray_enabled: bool,
    pub app_version: String,
}

/// What the host tells about itself: the environment variables and facts the
/// configuration is made from.
#[derive(Debug, PartialEq)]
pub struct HostFacts {
    /// `HOME`
    pub home: Option<String>,
    /// `USERPROFILE`
    pub user_profile: Option<String>,
    /// The major macOS version, when running on macOS and it could be read.
    pub macos_major: Option<u32>,
    /// `std::env::consts::OS`
    pub os: String,
    /// `std::env::consts::ARCH`
    pub arch: String,
    /// The package version.
    pub app_version: String,
}

pub open spec fn opt_text(o: Option<String>) -> Option<Seq<char>> {
    match o {
        Some(s) => Some(s@),
        None => None,
    }
}

/// The platform name the renderer expects for an operating system name.
pub open spec fn platform_name(os: Seq<char>) -> Seq<char> {
    if os == "macos"@ {
        "darwin"@
    } else if os == "windows"@ {
        "win32"@
    } else if os == "linux"@ {
        "linux"@
    } else {
        "unknown"@
    }
}

/// The tray is available on macOS, Linux and Windows.
pub open spec fn tray_supported(os: Seq<char>) -> bool {
    os == "macos"@ || os == "linux"@ || os == "windows"@
}

/// Maps an operating system name (`std::env::consts::OS`) to the platform
/// name the renderer expects.
pub fn std_detect_platform(os: &str) -> (r: &'static str)
    ensures
        r@ == platform_name(os@),
{
    if crate::text::same_text(os, "macos") {
        "darwin"
    } else if crate::text::same_text(os, "windows") {
        "win32"
    } else if crate::text::same_text(os, "linux") {
        "linux"
    } else {
        "unknown"
    }
}

/// The first `.`-separated part of `s` (`s.split('.').next()`).
pub open spec fn first_dot_part(s: Seq<char>) -> Seq<char> {
    if s.contains('.') {
        s.subrange(0, choose|i: int| 0 <= i < s.len() && s[i] == '.' && forall|j: int| 0 <= j < i ==> s[j] != '.')
    } else {
        s
    }
}

/// The number before the first `.` of `s`, when it parses as a `u32`.
pub open spec fn version_major(s: Seq<char>) -> Option<int> {
    parse_unsigned(first_dot_part(s), u32::MAX as int)
}

/// Reads the major version out of the output of `sw_vers -productVersion`:
/// the trimmed text up to its first `.`, as a `u32`.
pub fn parse_macos_major(output: &str) -> (r: Option<u32>)
    ensures
        match r {
            Some(v) => version_major(trim_ws(output@)) == Some(v as int),
            None => version_major(trim_ws(output@)) is None,
        },
{
    let t = trim(output);
    let n = t.unicode_len();
    let mut i: usize = 0;
    while i < n && t.get_char(i) != '.'
        invariant
            n == t@.len(),
            i <= n,
            forall|j: int| 0 <= j < i ==> t@[j] != '.',
        decreases n - i,
    {
        i = i + 1;
    }
    proof {
        if t@.contains('.') {
            let k = choose|k: int| 0 <= k < t@.len() && t@[k] == '.';
            assert(i < n);
            let c = choose|c: int| 0 <= c < t@.len() && t@[c] == '.' && forall|j: int| 0 <= j < c ==> t@[j] != '.';
            assert(0 <= i < t@.len() && t@[i as int] == '.' && forall|j: int| 0 <= j < i ==> t@[j] != '.');
            if c < i {
                assert(t@[c] != '.');
            } else if c > i {
                assert(t@[i as int] != '.');
            }
        } else {
            if i < n {
                assert(t@.contains('.'));
            }
            assert(t@.subrange(0, n as int) =~= t@);
        }
    }
    let head = t.substring_char(0, i);
    match parse_unsigned_decimal(head, 0xFFFF_FFFF) {
        Some(v) => Some(v as u32),
        None => None,
    }
}

/// The major macOS version: none off macOS; on macOS, read from the output of
/// `sw_vers -productVersion` (`None` when the command failed).
pub fn detect_macos_major(os: &str, sw_vers_output: Option<&str>) -> (r: Option<u32>)
    ensures
        os@ != "macos"@ ==> r is None,
        os@ == "macos"@ ==> match sw_vers_output {
            None => r is None,
            Some(out) => match r {
                Some(v) => version_major(trim_ws(out@)) == Some(v as int),
                None => version_major(trim_ws(out@)) is None,
            },
        },
{
    if !crate::text::same_text(os, "macos") {
        return None;
    }
    match sw_vers_output {
        Some(out) => parse_macos_major(out),
        None => None,
    }
}

/// `HOME`, else `USERPROFILE`, else `default`.
pub open spec fn home_or(home: Option<Seq<char>>, user_profile: Option<Seq<char>>, default: Seq<char>) -> Seq<char> {
    match home {
        Some(h) => h,
        None => match user_profile {
            Some(u) => u,
            None => default,
        },
    }
}

/// The user's home directory: `HOME`, else `USERPROFILE`, else `.`.
pub fn home_directory(home: Option<String>, user_profile: Option<String>) -> (r: String)
    ensures
        r@ == home_or(opt_text(home), opt_text(user_profile), "."@),
{
    match home {
        Some(h) => h,
        None => match user_profile {
            Some(u) => u,
            None => ".".to_owned(),
        },
    }
}

/// `c` is the configuration for a renderer served from `local_origin` on a
/// host with the facts `host`: the API at the same origin, no client token,
/// relay host or runtime headers yet (an empty object), the home directory from
/// `HOME`/`USERPROFILE` (else empty), and the host's platform facts.
pub open spec fn local_config(local_origin: Seq<char>, host: HostFacts, c: RuntimeConfig) -> bool {
    &&& c.local_origin@ == local_origin
    &&& c.api_base_url@ == local_origin
    &&& c.client_token@ == Seq::<char>::empty()
    &&& c.runtime_headers matches JsonValue::Object(ms) && ms@.len() == 0
    &&& c.relay_host_id@ == Seq::<char>::empty()
    &&& c.home_directory@ == home_or(opt_text(host.home), opt_text(host.user_profile), Seq::empty())
    &&& c.macos_major == host.macos_major
    &&& c.platform@ == platform_name(host.os@)
    &&& c.arch@ == host.arch@
    &&& c.tray_enabled == tray_supported(host.os@)
    &&& c.app_version@ == host.app_version@
}

impl RuntimeConfig {
    /// The configuration for a renderer served from `local_origin`: the API is
    /// at the same origin, no client token, relay host or runtime headers yet
    /// (`{}`), the home directory from `HOME`/`USERPROFILE` (else empty), and
    /// the platform facts of the host.
    pub fn for_local_origin(local_origin: String, port: u16, host: HostFacts) -> (r: RuntimeConfig)
        ensures
            local_config(local_origin@, host, r),
    {
        let home_directory = match host.home {
            Some(h) => h,
            None => match host.user_profile {
                Some(u) => u,
                None => String::new(),
            },
        };
        let platform = std_detect_platform(host.os.as_str());
        let tray_enabled = crate::text::same_text(host.os.as_str(), "macos")
            || crate::text::same_text(host.os.as_str(), "linux")
            || crate::text::same_text(host.os.as_str(), "windows");
        RuntimeConfig {
            local_origin: local_origin.clone(),
            api_base_url: local_origin,
            client_token: String::new(),
            runtime_headers: JsonValue::empty_object(),
            relay_host_id: String::new(),
            home_directory,
            macos_major: host.macos_major,
            platform,
            arch: host.arch,
            tray_enabled,
            app_version: host.app_version,
        }
    }
}

/// The renderer is told there is a tray exactly on macOS, Linux and Windows:
/// for every host and local origin, the configuration's `tray_enabled` is true
/// for the operating systems `macos`, `linux` and `windows`, and false for any
/// other.
pub proof fn law_tray_on_desktop_systems(local_origin: Seq<char>, host: HostFacts, c: RuntimeConfig)
    requires
        local_config(local_origin, host, c),
    ensures
        host.os@ == "macos"@ ==> c.tray_enabled,
        host.os@ == "linux"@ ==> c.tray_enabled,
        host.os@ == "windows"@ ==> c.tray_enabled,
        c.tray_enabled ==> (host.os@ == "macos"@ || host.os@ == "linux"@ || host.os@ == "windows"@),
{
}

/// The renderer's platform name: `darwin` on macOS, `win32` on Windows,
/// `linux` on Linux and `unknown` on any other system; the home directory is
/// `HOME` when set, else `USERPROFILE`, else empty; the API is served from the
/// local origin itself, with no client token and no relay host.
pub proof fn law_config_platform_and_home(local_origin: Seq<char>, host: HostFacts, c: RuntimeConfig)
    requires
        local_config(local_origin, host, c),
    ensures
        host.os@ == "macos"@ ==> c.platform@ == "darwin"@,
        host.os@ == "windows"@ ==> c.platform@ == "win32"@,
        host.os@ == "linux"@ ==> c.platform@ == "linux"@,
        !(host.os@ == "macos"@ || host.os@ == "windows"@ || host.os@ == "linux"@) ==> c.platform@
            == "unknown"@,
        host.home matches Some(h) ==> c.home_directory@ == h@,
        host.home is None ==> (host.user_profile matches Some(u) ==> c.home_directory@ == u@),
        host.home is None && host.user_profile is None ==> c.home_directory@.len() == 0,
        c.api_base_url@ == local_origin && c.local_origin@ == local_origin,
        c.client_token@.len() == 0 && c.relay_host_id@.len() == 0,
{
    reveal_strlit("macos");
    reveal_strlit("windows");
    reveal_strlit("linux");
    assert("macos"@[0] != "linux"@[0]);
    assert("macos"@.len() != "windows"@.len());
    assert("linux"@.len() != "windows"@.len());
}

} // verus!
