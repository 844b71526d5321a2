//! Runtime commands: the runtime configuration and the script that injects it,
//! platform identity, external URL opening and the boot outcome.

use vstd::prelude::*;

use crate::deps::json_quote;
use crate::json_text::{
    json_string_literal, json_text, law_string_literal_reads_back, string_literal_at, to_json_text,
};
use crate::runtime_config::RuntimeConfig;
use crate::text::{decimal, decimal_string, seq_starts_with, starts_with};

verus! {

// The literal text of the initialization script, between the values it carries.
pub const INIT_SCRIPT_0: &'static str = "\n        (function () {\n            if (window.__OPENCHAMBER_LOCAL_ORIGIN__ === undefined) {\n                window.__OPENCHAMBER_LOCAL_ORIGIN__ = ";
pub const INIT_SCRIPT_1: &'static str = ";\n            }\n            if (window.__OPENCHAMBER_API_BASE_URL__ === undefined) {\n                window.__OPENCHAMBER_API_BASE_URL__ = ";
pub const INIT_SCRIPT_2: &'static str = ";\n            }\n            if (";
pub const INIT_SCRIPT_3: &'static str = " && window.__OPENCHAMBER_CLIENT_TOKEN__ === undefined) {\n                window.__OPENCHAMBER_CLIENT_TOKEN__ = ";
pub const INIT_SCRIPT_4: &'static str = ";\n            }\n            if (window.__OPENCHAMBER_RUNTIME_HEADERS__ === undefined) {\n                window.__OPENCHAMBER_RUNTIME_HEADERS__ = ";
pub const INIT_SCRIPT_5: &'static str = ";\n            }\n            if (";
pub const INIT_SCRIPT_6: &'static str = " && window.__OPENCHAMBER_RELAY_HOST_ID__ === undefined) {\n                window.__OPENCHAMBER_RELAY_HOST_ID__ = ";
pub const INIT_SCRIPT_7: &'static str = ";\n            }\n            if (";
pub const INIT_SCRIPT_8: &'static str = " && window.__OPENCHAMBER_HOME__ === undefined) {\n                window.__OPENCHAMBER_HOME__ = ";
pub const INIT_SCRIPT_9: &'static str = ";\n            }\n            if (window.__OPENCHAMBER_ELECTRON__ === undefined) {\n                // NOTE: `runtime` is a shell-identity flag, not a technology\n                // label. The shared UI treats `runtime === 'electron'` as\n                // \"compatible desktop shell\" (isDesktopShell / isElectronShell\n                // in packages/ui/src/lib/desktop.ts). The Tauri shell speaks\n                // the same __OPENCHAMBER_DESKTOP__ bridge, so it presents the\n                // same identity; anything else silently disables desktop mode\n                // (host switcher, tray, boot-outcome flow).\n                window.__OPENCHAMBER_ELECTRON__ = {\n                    runtime: 'electron',\n                    arch: ";
pub const INIT_SCRIPT_10: &'static str = ",\n                    trayEnabled: ";
pub const INIT_SCRIPT_11: &'static str = ",\n                    version: ";
pub const INIT_SCRIPT_12: &'static str = ",\n                    macosMajor: ";
pub const INIT_SCRIPT_13: &'static str = ",\n                };\n            }\n            if (window.__OPENCHAMBER_PLATFORM__ === undefined) {\n                window.__OPENCHAMBER_PLATFORM__ = ";
pub const INIT_SCRIPT_14: &'static str = ";\n            }\n        })();\n        ";

/// The JSON text of a Rust value as it appears in the initialization script:
/// `true`/`false` for the tray flag, the number or `null` for the macOS version.
pub open spec fn bool_text(b: bool) -> Seq<char> {
    if b {
        "true"@
    } else {
        "false"@
    }
}

pub open spec fn major_text(m: Option<u32>) -> Seq<char> {
    match m {
        Some(v) => decimal(v as nat),
        None => "null"@,
    }
}

/// The initialization script for `config`: it sets each
/// `window.__OPENCHAMBER_*__` global that is still undefined (the client token,
/// relay host id and home directory only when non-empty), with every string
/// written as a JSON string literal and the runtime headers as their JSON text
/// (`json_text`).
pub open spec fn init_script(config: RuntimeConfig) -> Seq<char> {
    let lo = json_string_literal(config.local_origin@);
    let api = json_string_literal(config.api_base_url@);
    let tok = json_string_literal(config.client_token@);
    let relay = json_string_literal(config.relay_host_id@);
    let home = json_string_literal(config.home_directory@);
    let arch = json_string_literal(config.arch@);
    let version = json_string_literal(config.app_version@);
    let platform = json_string_literal(config.platform@);
    INIT_SCRIPT_0@ + lo + INIT_SCRIPT_1@ + api + INIT_SCRIPT_2@ + tok + INIT_SCRIPT_3@ + tok
        + INIT_SCRIPT_4@ + json_text(config.runtime_headers) + INIT_SCRIPT_5@ + relay + INIT_SCRIPT_6@ + relay
        + INIT_SCRIPT_7@ + home + INIT_SCRIPT_8@ + home + INIT_SCRIPT_9@ + arch + INIT_SCRIPT_10@
        + bool_text(config.tray_enabled) + INIT_SCRIPT_11@ + version + INIT_SCRIPT_12@ + major_text(
        config.macos_major,
    ) + INIT_SCRIPT_13@ + platform + INIT_SCRIPT_14@
}

/// Builds the script that injects `config` into the renderer (see `init_script`).
pub fn build_initialization_script(config: &RuntimeConfig) -> (r: String)
    ensures
        r@ == init_script(*config),
{
    let lo = json_quote(config.local_origin.as_str());
    let api = json_quote(config.api_base_url.as_str());
    let tok = json_quote(config.client_token.as_str());
    let relay = json_quote(config.relay_host_id.as_str());
    let home = json_quote(config.home_directory.as_str());
    let arch = json_quote(config.arch.as_str());
    let version = json_quote(config.app_version.as_str());
    let platform = json_quote(config.platform);
    let headers = to_json_text(&config.runtime_headers);
    let tray = if config.tray_enabled {
        "true"
    } else {
        "false"
    };
    let major = match config.macos_major {
        Some(m) => decimal_string(m as u128),
        None => "null".to_owned(),
    };
    INIT_SCRIPT_0.to_owned().concat(lo.as_str()).concat(INIT_SCRIPT_1).concat(api.as_str()).concat(
        INIT_SCRIPT_2,
    ).concat(tok.as_str()).concat(INIT_SCRIPT_3).concat(tok.as_str()).concat(INIT_SCRIPT_4).concat(
        headers.as_str(),
    ).concat(INIT_SCRIPT_5).concat(relay.as_str()).concat(INIT_SCRIPT_6).concat(relay.as_str()).concat(
        INIT_SCRIPT_7,
    ).concat(home.as_str()).concat(INIT_SCRIPT_8).concat(home.as_str()).concat(INIT_SCRIPT_9).concat(
        arch.as_str(),
    ).concat(INIT_SCRIPT_10).concat(tray).concat(INIT_SCRIPT_11).concat(version.as_str()).concat(
        INIT_SCRIPT_12,
    ).concat(major.as_str()).concat(INIT_SCRIPT_13).concat(platform.as_str()).concat(INIT_SCRIPT_14)
}

// ───────────────────────── identity and external URLs ─────────────────────────

/// `is_desktop`: this shell is always a desktop shell.
pub fn is_desktop() -> (r: bool)
    ensures
        r,
{
    true
}

/// What `platform_info` reports.
#[derive(Debug, PartialEq)]
pub struct PlatformInfo {
    pub runtime: &'static str,
    pub os: &'static str,
    pub arch: String,
    pub version: String,
}

/// The platform identity: runtime `tauri`, and the configuration's platform,
/// architecture and version.
pub fn platform_info(config: &RuntimeConfig) -> (r: PlatformInfo)
    ensures
        r.runtime@ == "tauri"@,
        r.os == config.platform,
        r.arch@ == config.arch@,
        r.version@ == config.app_version@,
{
    PlatformInfo {
        runtime: "tauri",
        os: config.platform,
        arch: config.arch.clone(),
        version: config.app_version.clone(),
    }
}

/// The URLs `open_external` agrees to open: `https://`, `http://` and `mailto:`.
pub open spec fn openable_url(url: Seq<char>) -> bool {
    seq_starts_with(url, "https://"@) || seq_starts_with(url, "http://"@) || seq_starts_with(
        url,
        "mailto:"@,
    )
}

/// Checks a URL before it is handed to the system opener; any other scheme is
/// refused with a message that quotes the URL.
pub fn open_external(url: &str) -> (r: Result<(), String>)
    ensures
        openable_url(url@) ==> r is Ok,
        !openable_url(url@) ==> (r matches Err(e) && e@ == "refusing to open non-http(s) url: "@
            + url@),
{
    if !(starts_with(url, "https://") || starts_with(url, "http://") || starts_with(url, "mailto:")) {
        return Err("refusing to open non-http(s) url: ".to_owned().concat(url));
    }
    Ok(())
}

// ───────────────────────── boot outcome ─────────────────────────

/// The boot outcome the desktop UI waits for before dismissing its splash
/// screen: `{ target, status }`.
#[derive(Debug, PartialEq)]
pub struct BootOutcome {
    pub target: Option<String>,
    pub status: String,
}

impl BootOutcome {
    /// The local server came up.
    pub fn local_ok() -> (r: BootOutcome)
        ensures
            r.target matches Some(t) && t@ == "local"@,
            r.status@ == "ok"@,
    {
        BootOutcome { target: Some("local".to_owned()), status: "ok".to_owned() }
    }

    /// The local server did not come up.
    pub fn local_unreachable() -> (r: BootOutcome)
        ensures
            r.target matches Some(t) && t@ == "local"@,
            r.status@ == "unreachable"@,
    {
        BootOutcome { target: Some("local".to_owned()), status: "unreachable".to_owned() }
    }

    /// A copy of this outcome.
    pub fn duplicate(&self) -> (r: BootOutcome)
        ensures
            r == *self,
    {
        BootOutcome {
            target: match &self.target {
                Some(t) => Some(t.clone()),
                None => None,
            },
            status: self.status.clone(),
        }
    }

    /// The JSON text of the outcome: `{"target":…,"status":…}`, the target
    /// being `null` or a string literal.
    pub open spec fn json_text(self) -> Seq<char> {
        "{\"target\":"@ + match self.target {
            Some(t) => json_string_literal(t@),
            None => "null"@,
        } + ",\"status\":"@ + json_string_literal(self.status@) + "}"@
    }

    /// The script that sets `window.__OPENCHAMBER_DESKTOP_BOOT_OUTCOME__`.
    pub fn as_injection_script(&self) -> (r: String)
        ensures
            r@ == "window.__OPENCHAMBER_DESKTOP_BOOT_OUTCOME__="@ + self.json_text() + ";"@,
    {
        let target = match &self.target {
            Some(t) => json_quote(t.as_str()),
            None => "null".to_owned(),
        };
        let json = "{\"target\":".to_owned().concat(target.as_str()).concat(",\"status\":").concat(
            json_quote(self.status.as_str()).as_str(),
        ).concat("}");
        "window.__OPENCHAMBER_DESKTOP_BOOT_OUTCOME__=".to_owned().concat(json.as_str()).concat(";")
    }
}

/// The boot outcome once the supervisor has settled.
pub fn boot_outcome_for(started: bool) -> (r: BootOutcome)
    ensures
        r.target matches Some(t) && t@ == "local"@,
        r.status@ == (if started {
            "ok"@
        } else {
            "unreachable"@
        }),
{
    if started {
        BootOutcome::local_ok()
    } else {
        BootOutcome::local_unreachable()
    }
}

/// The boot-outcome slot: empty while the supervisor is still starting.
#[derive(Debug, PartialEq)]
pub struct BootOutcomeState {
    pub outcome: Option<BootOutcome>,
}

impl BootOutcomeState {
    /// An empty slot.
    pub fn new() -> (r: BootOutcomeState)
        ensures
            r.outcome is None,
    {
        BootOutcomeState { outcome: None }
    }

    /// Stores the settled outcome.
    pub fn settle(&mut self, outcome: BootOutcome)
        ensures
            final(self).outcome == Some(outcome),
    {
        self.outcome = Some(outcome);
    }

    /// `get_boot_outcome`: the stored outcome, or none while starting.
    pub fn get_boot_outcome(&self) -> (r: Option<BootOutcome>)
        ensures
            r == self.outcome,
    {
        match &self.outcome {
            Some(o) => Some(o.duplicate()),
            None => None,
        }
    }
}

/// Reading the boot outcome after it was settled gives the settled outcome.
pub proof fn law_boot_outcome_read_after_settle(
    after: BootOutcomeState,
    outcome: BootOutcome,
    read: Option<BootOutcome>,
)
    requires
        after.outcome == Some(outcome),
        read == after.outcome,
    ensures
        read == Some(outcome),
{
}

/// Reads the JSON text of a boot outcome, `{"target":T,"status":S}` with `T`
/// `null` or a string literal and `S` a string literal, and nothing after it:
/// the target and the status it stands for.
pub open spec fn read_boot_outcome(t: Seq<char>) -> Option<(Option<Seq<char>>, Seq<char>)> {
    let head = "{\"target\":"@;
    let mid = ",\"status\":"@;
    if t.len() >= head.len() && t.subrange(0, head.len() as int) == head {
        let r = t.subrange(head.len() as int, t.len() as int);
        let target: Option<(Option<Seq<char>>, int)> = if r.len() >= 4 && r.subrange(0, 4)
            == "null"@ {
            Some((None, 4))
        } else {
            match string_literal_at(r) {
                Some((s, n)) => Some((Some(s), n)),
                None => None,
            }
        };
        match target {
            Some((tg, n)) => {
                let r2 = r.subrange(n, r.len() as int);
                if r2.len() >= mid.len() && r2.subrange(0, mid.len() as int) == mid {
                    let r3 = r2.subrange(mid.len() as int, r2.len() as int);
                    match string_literal_at(r3) {
                        Some((st, m)) => if r3.subrange(m, r3.len() as int) == "}"@ {
                            Some((tg, st))
                        } else {
                            None
                        },
                        None => None,
                    }
                } else {
                    None
                }
            },
            None => None,
        }
    } else {
        None
    }
}

/// The JSON text of a boot outcome reads back as that outcome, whatever its
/// strings hold: no quote, backslash or control character in them can end
/// a literal early (the doc's "quoting is always safe").
pub proof fn law_boot_outcome_json_reads_back(o: BootOutcome)
    ensures
        read_boot_outcome(o.json_text()) == Some(
            (
                match o.target {
                    Some(t) => Some(t@),
                    None => None,
                },
                o.status@,
            ),
        ),
{
    reveal_strlit("{\"target\":");
    reveal_strlit(",\"status\":");
    reveal_strlit("null");
    reveal_strlit("}");
    let head = "{\"target\":"@;
    let mid = ",\"status\":"@;
    let tgt = match o.target {
        Some(t) => json_string_literal(t@),
        None => "null"@,
    };
    let st = json_string_literal(o.status@);
    let t = o.json_text();
    assert(t =~= head + (tgt + (mid + (st + "}"@))));
    let r = t.subrange(head.len() as int, t.len() as int);
    assert(t.subrange(0, head.len() as int) =~= head);
    assert(r =~= tgt + (mid + (st + "}"@)));
    let after_target = mid + (st + "}"@);
    match o.target {
        Some(x) => {
            law_string_literal_reads_back(x@, after_target);
            assert(r[0] == '"');
            assert(r.subrange(0, 4) != "null"@) by {
                assert(r.subrange(0, 4)[0] == '"');
            }
        },
        None => {
            assert(r.subrange(0, 4) =~= "null"@);
        },
    }
    let n = tgt.len() as int;
    let r2 = r.subrange(n, r.len() as int);
    assert(r2 =~= after_target);
    assert(r2.subrange(0, mid.len() as int) =~= mid);
    let r3 = r2.subrange(mid.len() as int, r2.len() as int);
    assert(r3 =~= st + "}"@);
    law_string_literal_reads_back(o.status@, "}"@);
    assert(r3.subrange(st.len() as int, r3.len() as int) =~= "}"@);
}


/// Each optional global is guarded by its own value and set to it: the script
/// holds the JSON literal of the value, then the guard ` && window.<global>
/// === undefined) {`, then the assignment of that same literal. This holds
/// for the client token, the relay host id and the home directory.
pub proof fn law_init_script_guards_use_their_own_values(c: RuntimeConfig)
    ensures
        ({
            let tok = json_string_literal(c.client_token@);
            exists|pre: Seq<char>, post: Seq<char>|
                init_script(c) == pre + tok + " && window.__OPENCHAMBER_CLIENT_TOKEN__ === undefined) {\n                window.__OPENCHAMBER_CLIENT_TOKEN__ = "@ + tok + post
        }),
        ({
            let relay = json_string_literal(c.relay_host_id@);
            exists|pre: Seq<char>, post: Seq<char>|
                init_script(c) == pre + relay + " && window.__OPENCHAMBER_RELAY_HOST_ID__ === undefined) {\n                window.__OPENCHAMBER_RELAY_HOST_ID__ = "@ + relay + post
        }),
        ({
            let home = json_string_literal(c.home_directory@);
            exists|pre: Seq<char>, post: Seq<char>|
                init_script(c) == pre + home + " && window.__OPENCHAMBER_HOME__ === undefined) {\n                window.__OPENCHAMBER_HOME__ = "@ + home + post
        }),
{
    let lo = json_string_literal(c.local_origin@);
    let api = json_string_literal(c.api_base_url@);
    let tok = json_string_literal(c.client_token@);
    let relay = json_string_literal(c.relay_host_id@);
    let home = json_string_literal(c.home_directory@);
    let s = init_script(c);
    let a = INIT_SCRIPT_0@ + lo + INIT_SCRIPT_1@ + api + INIT_SCRIPT_2@;
    let b = INIT_SCRIPT_4@ + json_text(c.runtime_headers) + INIT_SCRIPT_5@;
    let d = INIT_SCRIPT_7@;
    let e = s.subrange(
        (a.len() + tok.len() + INIT_SCRIPT_3@.len() + tok.len() + b.len() + relay.len()
            + INIT_SCRIPT_6@.len() + relay.len() + d.len() + home.len() + INIT_SCRIPT_8@.len()
            + home.len()) as int,
        s.len() as int,
    );
    assert(s =~= a + tok + INIT_SCRIPT_3@ + tok + b + relay + INIT_SCRIPT_6@ + relay + d + home
        + INIT_SCRIPT_8@ + home + e);
    let post_tok = b + relay + INIT_SCRIPT_6@ + relay + d + home + INIT_SCRIPT_8@ + home + e;
    assert(s =~= a + tok + " && window.__OPENCHAMBER_CLIENT_TOKEN__ === undefined) {\n                window.__OPENCHAMBER_CLIENT_TOKEN__ = "@ + tok + post_tok);
    let pre_relay = a + tok + INIT_SCRIPT_3@ + tok + b;
    let post_relay = d + home + INIT_SCRIPT_8@ + home + e;
    assert(s =~= pre_relay + relay + " && window.__OPENCHAMBER_RELAY_HOST_ID__ === undefined) {\n                window.__OPENCHAMBER_RELAY_HOST_ID__ = "@ + relay + post_relay);
    let pre_home = a + tok + INIT_SCRIPT_3@ + tok + b + relay + INIT_SCRIPT_6@ + relay + d;
    assert(s =~= pre_home + home + " && window.__OPENCHAMBER_HOME__ === undefined) {\n                window.__OPENCHAMBER_HOME__ = "@ + home + e);
}

/// The spec of the script as one sum, grouped as the laws below read it.
proof fn lemma_init_script_parts(c: RuntimeConfig)
    ensures
        init_script(c) == (INIT_SCRIPT_0@ + json_string_literal(c.local_origin@) + INIT_SCRIPT_1@
            + json_string_literal(c.api_base_url@)) + (INIT_SCRIPT_2@ + json_string_literal(
            c.client_token@,
        ) + INIT_SCRIPT_3@ + json_string_literal(c.client_token@)) + (INIT_SCRIPT_4@ + json_text(
            c.runtime_headers,
        ) + INIT_SCRIPT_5@) + (json_string_literal(c.relay_host_id@) + INIT_SCRIPT_6@
            + json_string_literal(c.relay_host_id@) + INIT_SCRIPT_7@ + json_string_literal(
            c.home_directory@,
        ) + INIT_SCRIPT_8@ + json_string_literal(c.home_directory@)) + (INIT_SCRIPT_9@
            + json_string_literal(c.arch@) + INIT_SCRIPT_10@ + bool_text(c.tray_enabled)
            + INIT_SCRIPT_11@ + json_string_literal(c.app_version@) + INIT_SCRIPT_12@ + major_text(
            c.macos_major,
        ) + INIT_SCRIPT_13@ + json_string_literal(c.platform@)) + INIT_SCRIPT_14@,
{
    assert(init_script(c) =~= (INIT_SCRIPT_0@ + json_string_literal(c.local_origin@)
        + INIT_SCRIPT_1@ + json_string_literal(c.api_base_url@)) + (INIT_SCRIPT_2@
        + json_string_literal(c.client_token@) + INIT_SCRIPT_3@ + json_string_literal(
        c.client_token@,
    )) + (INIT_SCRIPT_4@ + json_text(c.runtime_headers) + INIT_SCRIPT_5@) + (json_string_literal(
        c.relay_host_id@,
    ) + INIT_SCRIPT_6@ + json_string_literal(c.relay_host_id@) + INIT_SCRIPT_7@
        + json_string_literal(c.home_directory@) + INIT_SCRIPT_8@ + json_string_literal(
        c.home_directory@,
    )) + (INIT_SCRIPT_9@ + json_string_literal(c.arch@) + INIT_SCRIPT_10@ + bool_text(
        c.tray_enabled,
    ) + INIT_SCRIPT_11@ + json_string_literal(c.app_version@) + INIT_SCRIPT_12@ + major_text(
        c.macos_major,
    ) + INIT_SCRIPT_13@ + json_string_literal(c.platform@)) + INIT_SCRIPT_14@);
}

/// The script starts by assigning the local origin to
/// `__OPENCHAMBER_LOCAL_ORIGIN__` and the API base URL to
/// `__OPENCHAMBER_API_BASE_URL__`, each as its JSON string literal.
pub proof fn law_init_script_starts_with_the_origins(c: RuntimeConfig)
    ensures
        exists|post: Seq<char>|
            init_script(c) == INIT_SCRIPT_0@ + json_string_literal(c.local_origin@) + INIT_SCRIPT_1@
                + json_string_literal(c.api_base_url@) + post,
{
    lemma_init_script_parts(c);
    let head = INIT_SCRIPT_0@ + json_string_literal(c.local_origin@) + INIT_SCRIPT_1@
        + json_string_literal(c.api_base_url@);
    let s = init_script(c);
    let post = s.subrange(head.len() as int, s.len() as int);
    assert(s =~= head + post);
}

/// The runtime headers are assigned to `__OPENCHAMBER_RUNTIME_HEADERS__` as
/// their JSON text.
pub proof fn law_init_script_assigns_the_headers(c: RuntimeConfig)
    ensures
        exists|pre: Seq<char>, post: Seq<char>|
            init_script(c) == pre + (INIT_SCRIPT_4@ + json_text(c.runtime_headers) + INIT_SCRIPT_5@)
                + post,
{
    lemma_init_script_parts(c);
    let mid = INIT_SCRIPT_4@ + json_text(c.runtime_headers) + INIT_SCRIPT_5@;
    let pre = (INIT_SCRIPT_0@ + json_string_literal(c.local_origin@) + INIT_SCRIPT_1@
        + json_string_literal(c.api_base_url@)) + (INIT_SCRIPT_2@ + json_string_literal(
        c.client_token@,
    ) + INIT_SCRIPT_3@ + json_string_literal(c.client_token@));
    let s = init_script(c);
    let post = s.subrange((pre.len() + mid.len()) as int, s.len() as int);
    assert(s =~= pre + mid + post);
}

/// The shell identity carries the architecture, the tray flag, the version and
/// the macOS version under their keys, followed by the platform's assignment,
/// and the script ends after it.
pub proof fn law_init_script_assigns_the_identity(c: RuntimeConfig)
    ensures
        exists|pre: Seq<char>|
            init_script(c) == pre + (INIT_SCRIPT_9@ + json_string_literal(c.arch@) + INIT_SCRIPT_10@
                + bool_text(c.tray_enabled) + INIT_SCRIPT_11@ + json_string_literal(c.app_version@)
                + INIT_SCRIPT_12@ + major_text(c.macos_major) + INIT_SCRIPT_13@
                + json_string_literal(c.platform@)) + INIT_SCRIPT_14@,
{
    lemma_init_script_parts(c);
    let tail = INIT_SCRIPT_9@ + json_string_literal(c.arch@) + INIT_SCRIPT_10@ + bool_text(
        c.tray_enabled,
    ) + INIT_SCRIPT_11@ + json_string_literal(c.app_version@) + INIT_SCRIPT_12@ + major_text(
        c.macos_major,
    ) + INIT_SCRIPT_13@ + json_string_literal(c.platform@);
    let s = init_script(c);
    let pre = s.subrange(0, s.len() - tail.len() - INIT_SCRIPT_14@.len());
    assert(s =~= pre + tail + INIT_SCRIPT_14@);
}

} // verus!
