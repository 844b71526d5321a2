//! Decisions of the child-process supervisor: ports, which children to start
//! and with what command line, where the opencode binary is, and how health is
//! polled.

use vstd::prelude::*;

use crate::deps::{parse_url, parsed_url, UrlParts};
use crate::text::{
    ascii_lower_eq, contains, decimal, decimal_string, lower_eq, same_text, seq_contains,
    trim_end_char, trim_end_slashes,
};

verus! {

/// The URLs of the two local servers, and the opencode password when one is set.
#[derive(Debug, PartialEq)]
pub struct ServerEndpoints {
    pub openchamber_url: String,
    pub opencode_url: String,
    pub opencode_auth: Option<String>,
}

pub open spec fn text_of(o: Option<String>) -> Option<Seq<char>> {
    match o {
        Some(s) => Some(s@),
        None => None,
    }
}

/// A set, non-empty value (`o.filter(|s| !s.is_empty())`).
pub open spec fn non_empty(o: Option<Seq<char>>) -> Option<Seq<char>> {
    match o {
        Some(s) => if s.len() != 0 {
            Some(s)
        } else {
            None
        },
        None => None,
    }
}

/// `o.filter(|s| !s.is_empty())`.
pub fn filter_non_empty(o: Option<String>) -> (r: Option<String>)
    ensures
        text_of(r) == non_empty(text_of(o)),
{
    match o {
        Some(s) => if s.as_str().unicode_len() != 0 {
            Some(s)
        } else {
            None
        },
        None => None,
    }
}

/// The endpoints once both servers are up; `password` is
/// `OPENCODE_SERVER_PASSWORD`, reported only when non-empty.
pub fn server_endpoints(openchamber_url: String, opencode_url: String, password: Option<String>) -> (r:
    ServerEndpoints)
    ensures
        r.openchamber_url == openchamber_url,
        r.opencode_url == opencode_url,
        text_of(r.opencode_auth) == non_empty(text_of(password)),
{
    ServerEndpoints { openchamber_url, opencode_url, opencode_auth: filter_non_empty(password) }
}

// ───────────────────────── ports ─────────────────────────

/// The port of a URL, given how the URL parsed: a parse failure is an invalid
/// server URL; a URL with neither a port nor a scheme default has none.
pub open spec fn port_of(
    url: Seq<char>,
    parsed: Result<(Option<Seq<char>>, Option<u16>, Seq<char>), Seq<char>>,
) -> Result<u16, Seq<char>> {
    match parsed {
        Err(_) => Err("invalid server url"@),
        Ok((_, port, _)) => match port {
            Some(p) => Ok(p),
            None => Err("url is missing a port: "@ + url),
        },
    }
}

pub open spec fn result_text(r: Result<u16, String>) -> Result<u16, Seq<char>> {
    match r {
        Ok(p) => Ok(p),
        Err(e) => Err(e@),
    }
}

pub open spec fn parts_view(r: Result<UrlParts, String>) -> Result<
    (Option<Seq<char>>, Option<u16>, Seq<char>),
    Seq<char>,
> {
    match r {
        Ok(p) => Ok(p.view_tuple()),
        Err(e) => Err(e@),
    }
}

/// The port of `url` from its parse result (see `port_of`).
pub fn port_from_parsed(url: &str, parsed: Result<UrlParts, String>) -> (r: Result<u16, String>)
    ensures
        result_text(r) == port_of(url@, parts_view(parsed)),
{
    match parsed {
        Err(_) => Err("invalid server url".to_owned()),
        Ok(p) => match p.port {
            Some(port) => Ok(port),
            None => Err("url is missing a port: ".to_owned().concat(url)),
        },
    }
}

/// The port of a server URL: its explicit port or its scheme's default.
pub fn port_from_url(url: &str) -> (r: Result<u16, String>)
    ensures
        result_text(r) == port_of(url@, parsed_url(url@)),
{
    let parsed = parse_url(url);
    port_from_parsed(url, parsed)
}

// ───────────────────────── environment flags ─────────────────────────

/// A flag variable is on when its value, lower-cased, is `1`, `true` or `yes`.
pub open spec fn flag_on(value: Option<Seq<char>>) -> bool {
    match value {
        Some(v) => ascii_lower_eq(v, "1"@) || ascii_lower_eq(v, "true"@) || ascii_lower_eq(
            v,
            "yes"@,
        ),
        None => false,
    }
}

/// Whether a flag variable with this value (if set) is on.
pub fn env_flag(value: Option<&str>) -> (r: bool)
    ensures
        r == flag_on(match value {
            Some(v) => Some(v@),
            None => None,
        }),
{
    match value {
        Some(v) => lower_eq(v, "1") || lower_eq(v, "true") || lower_eq(v, "yes"),
        None => false,
    }
}

// ───────────────────────── children ─────────────────────────

/// An executable's file name on the target: `.exe` is appended on Windows.
pub open spec fn binary_file_name(name: Seq<char>, os: Seq<char>) -> Seq<char> {
    if os == "windows"@ {
        name + ".exe"@
    } else {
        name
    }
}

/// An executable's file name for the operating system `os`
/// (`std::env::consts::OS`).
pub fn binary_name(name: &str, os: &str) -> (r: String)
    ensures
        r@ == binary_file_name(name@, os@),
{
    if same_text(os, "windows") {
        name.to_owned().concat(".exe")
    } else {
        name.to_owned()
    }
}

pub open spec fn texts(v: Vec<String>) -> Seq<Seq<char>> {
    v@.map_values(|s: String| s@)
}

/// The arguments of `opencode serve`, bound to loopback on `port`.
pub fn opencode_serve_args(port: u16) -> (r: Vec<String>)
    ensures
        texts(r) == seq!["serve"@, "--port"@, decimal(port as nat), "--hostname"@, "127.0.0.1"@],
{
    let mut v: Vec<String> = Vec::new();
    v.push("serve".to_owned());
    v.push("--port".to_owned());
    v.push(decimal_string(port as u128));
    v.push("--hostname".to_owned());
    v.push("127.0.0.1".to_owned());
    assert(texts(v) =~= seq!["serve"@, "--port"@, decimal(port as nat), "--hostname"@, "127.0.0.1"@]);
    v
}

/// How the OpenChamber server is started.
#[derive(Debug, PartialEq)]
pub struct Launcher {
    pub program: String,
    pub args: Vec<String>,
}

/// The program that runs the server script: `OPENCHAMBER_SERVER_NODE`, else `node`.
pub open spec fn node_program(node_override: Option<Seq<char>>) -> Seq<char> {
    match node_override {
        Some(n) => n,
        None => "node"@,
    }
}

/// The message when no server entry point exists.
pub open spec fn no_launcher_message() -> Seq<char> {
    "could not locate openchamber server entry point (set OPENCHAMBER_SERVER_DIR or run from repo root)"@
}

fn node_or_default(node_override: Option<String>) -> (r: String)
    ensures
        r@ == node_program(text_of(node_override)),
{
    match node_override {
        Some(n) => n,
        None => "node".to_owned(),
    }
}

/// How to start the OpenChamber server on `port`: the built server's
/// `index.js` (`server_entry`, when `OPENCHAMBER_SERVER_DIR` holds one) with
/// `--port`; else the development server script (`dev_script`, when it exists)
/// with `--port` and the two allowed CORS origins; else an error.
pub fn resolve_openchamber_launcher(
    port: u16,
    node_override: Option<String>,
    server_entry: Option<String>,
    dev_script: Option<String>,
) -> (r: Result<Launcher, String>)
    ensures
        match server_entry {
            Some(e) => r matches Ok(l) && l.program@ == node_program(text_of(node_override))
                && texts(l.args) == seq![e@, "--port"@, decimal(port as nat)],
            None => match dev_script {
                Some(d) => r matches Ok(l) && l.program@ == node_program(text_of(node_override))
                    && texts(l.args) == seq![
                    d@,
                    "--port"@,
                    decimal(port as nat),
                    "--cors"@,
                    "tauri://localhost"@,
                    "--cors"@,
                    "http://localhost:5173"@,
                ],
                None => r matches Err(m) && m@ == no_launcher_message(),
            },
        },
{
    match server_entry {
        Some(e) => {
            let mut args: Vec<String> = Vec::new();
            let ghost ev = e@;
            args.push(e);
            args.push("--port".to_owned());
            args.push(decimal_string(port as u128));
            assert(texts(args) =~= seq![ev, "--port"@, decimal(port as nat)]);
            Ok(Launcher { program: node_or_default(node_override), args })
        },
        None => match dev_script {
            Some(d) => {
                let mut args: Vec<String> = Vec::new();
                let ghost dv = d@;
                args.push(d);
                args.push("--port".to_owned());
                args.push(decimal_string(port as u128));
                args.push("--cors".to_owned());
                args.push("tauri://localhost".to_owned());
                args.push("--cors".to_owned());
                args.push("http://localhost:5173".to_owned());
                assert(texts(args) =~= seq![
                    dv,
                    "--port"@,
                    decimal(port as nat),
                    "--cors"@,
                    "tauri://localhost"@,
                    "--cors"@,
                    "http://localhost:5173"@,
                ]);
                Ok(Launcher { program: node_or_default(node_override), args })
            },
            None => Err(
                "could not locate openchamber server entry point (set OPENCHAMBER_SERVER_DIR or run from repo root)".to_owned(),
            ),
        },
    }
}

// ───────────────────────── locating opencode ─────────────────────────

/// A candidate path and whether a file exists there.
#[derive(Debug, PartialEq)]
pub struct PathProbe {
    pub path: String,
    pub is_file: bool,
}

/// The first candidate that is a file.
pub open spec fn first_file_of(ps: Seq<PathProbe>) -> Option<Seq<char>>
    decreases ps.len(),
{
    if ps.len() == 0 {
        None
    } else if ps[0].is_file {
        Some(ps[0].path@)
    } else {
        first_file_of(ps.drop_first())
    }
}

proof fn lemma_first_file_skip(ps: Seq<PathProbe>, i: int)
    requires
        0 <= i <= ps.len(),
        forall|j: int| 0 <= j < i ==> !(#[trigger] ps[j]).is_file,
    ensures
        first_file_of(ps) == first_file_of(ps.subrange(i, ps.len() as int)),
    decreases i,
{
    if i == 0 {
        assert(ps.subrange(0, ps.len() as int) =~= ps);
    } else {
        let t = ps.drop_first();
        assert(!ps[0].is_file);
        assert forall|j: int| 0 <= j < i - 1 implies !(#[trigger] t[j]).is_file by {
            assert(t[j] == ps[j + 1]);
        }
        lemma_first_file_skip(t, i - 1);
        assert(t.subrange(i - 1, t.len() as int) =~= ps.subrange(i, ps.len() as int));
    }
}

/// The first candidate, in order, that is a file.
pub fn first_file(probes: &Vec<PathProbe>) -> (r: Option<String>)
    ensures
        text_of(r) == first_file_of(probes@),
{
    let n = probes.len();
    let mut i: usize = 0;
    while i < n
        invariant
            n == probes@.len(),
            i <= n,
            forall|j: int| 0 <= j < i ==> !(#[trigger] probes@[j]).is_file,
        decreases n - i,
    {
        if probes[i].is_file {
            proof {
                lemma_first_file_skip(probes@, i as int);
                assert(probes@.subrange(i as int, n as int)[0] == probes@[i as int]);
            }
            return Some(probes[i].path.clone());
        }
        i = i + 1;
    }
    proof {
        lemma_first_file_skip(probes@, n as int);
    }
    None
}

/// The variables that can name the opencode binary, in the order they are tried.
pub fn opencode_binary_vars() -> (r: Vec<&'static str>)
    ensures
        r@.map_values(|s: &'static str| s@) == seq![
            "OPENCODE_BINARY"@,
            "OPENCODE_PATH"@,
            "OPENCHAMBER_OPENCODE_PATH"@,
            "OPENCHAMBER_OPENCODE_BIN"@,
        ],
{
    let mut v: Vec<&'static str> = Vec::new();
    v.push("OPENCODE_BINARY");
    v.push("OPENCODE_PATH");
    v.push("OPENCHAMBER_OPENCODE_PATH");
    v.push("OPENCHAMBER_OPENCODE_BIN");
    assert(v@.map_values(|s: &'static str| s@) =~= seq![
        "OPENCODE_BINARY"@,
        "OPENCODE_PATH"@,
        "OPENCHAMBER_OPENCODE_PATH"@,
        "OPENCHAMBER_OPENCODE_BIN"@,
    ]);
    v
}

/// A path given as the components to join, in order.
pub open spec fn components(c: Vec<String>) -> Seq<Seq<char>> {
    c@.map_values(|s: String| s@)
}

pub open spec fn candidates_view(v: Vec<Vec<String>>) -> Seq<Seq<Seq<char>>> {
    v@.map_values(|c: Vec<String>| components(c))
}

/// The values of the variables that are set, each as a one-component path.
pub open spec fn set_values(vars: Seq<Option<String>>) -> Seq<Seq<Seq<char>>>
    decreases vars.len(),
{
    if vars.len() == 0 {
        Seq::empty()
    } else {
        set_values(vars.drop_last()) + match vars[vars.len() - 1] {
            Some(v) => seq![seq![v@]],
            None => Seq::empty(),
        }
    }
}

/// The candidates for the opencode binary, in the order they are tried: the
/// value of each opencode variable that is set (`vars`, in the order of
/// `opencode_binary_vars`), then `<resources>/opencode-cli/<name>` when
/// `TAURI_RESOURCES_DIR` is set, then `<entry>/<name>` for each `PATH` entry,
/// with `name` the binary's file name on `os`.
pub open spec fn opencode_candidate_paths(
    vars: Seq<Option<String>>,
    resources_dir: Option<Seq<char>>,
    path_entries: Seq<Seq<char>>,
    os: Seq<char>,
) -> Seq<Seq<Seq<char>>> {
    let name = binary_file_name("opencode"@, os);
    set_values(vars) + match resources_dir {
        Some(r) => seq![seq![r, "opencode-cli"@, name]],
        None => Seq::empty(),
    } + path_entries.map_values(|e: Seq<char>| seq![e, name])
}

/// Lists the candidates for the opencode binary (see `opencode_candidate_paths`),
/// each as the path components to join.
pub fn opencode_candidates(
    vars: Vec<Option<String>>,
    resources_dir: Option<String>,
    path_entries: Vec<String>,
    os: &str,
) -> (r: Vec<Vec<String>>)
    ensures
        candidates_view(r) == opencode_candidate_paths(
            vars@,
            text_of(resources_dir),
            path_entries@.map_values(|s: String| s@),
            os@,
        ),
{
    let name = binary_name("opencode", os);
    let mut out: Vec<Vec<String>> = Vec::new();
    let n = vars.len();
    let mut i: usize = 0;
    while i < n
        invariant
            n == vars@.len(),
            i <= n,
            candidates_view(out) == set_values(vars@.subrange(0, i as int)),
        decreases n - i,
    {
        let ghost before = candidates_view(out);
        proof {
            assert(vars@.subrange(0, i + 1).drop_last() =~= vars@.subrange(0, i as int));
        }
        match &vars[i] {
            Some(v) => {
                let mut c: Vec<String> = Vec::new();
                c.push(v.clone());
                assert(components(c) =~= seq![v@]);
                out.push(c);
                assert(candidates_view(out) =~= before + seq![seq![v@]]);
            },
            None => {
                assert(before + Seq::<Seq<Seq<char>>>::empty() =~= before);
            },
        }
        i = i + 1;
    }
    proof {
        assert(vars@.subrange(0, n as int) =~= vars@);
    }
    let ghost after_vars = candidates_view(out);
    match resources_dir {
        Some(r) => {
            let ghost rv = r@;
            let mut c: Vec<String> = Vec::new();
            c.push(r);
            c.push("opencode-cli".to_owned());
            c.push(name.clone());
            assert(components(c) =~= seq![rv, "opencode-cli"@, name@]);
            out.push(c);
            assert(candidates_view(out) =~= after_vars + seq![seq![rv, "opencode-cli"@, name@]]);
        },
        None => {
            assert(after_vars + Seq::<Seq<Seq<char>>>::empty() =~= after_vars);
        },
    }
    let ghost after_resources = candidates_view(out);
    let ghost entries = path_entries@.map_values(|s: String| s@);
    let m = path_entries.len();
    let mut j: usize = 0;
    while j < m
        invariant
            m == path_entries@.len(),
            j <= m,
            entries == path_entries@.map_values(|s: String| s@),
            candidates_view(out) == after_resources + entries.subrange(0, j as int).map_values(
                |e: Seq<char>| seq![e, name@],
            ),
        decreases m - j,
    {
        let ghost before = candidates_view(out);
        let mut c: Vec<String> = Vec::new();
        c.push(path_entries[j].clone());
        c.push(name.clone());
        assert(components(c) =~= seq![entries[j as int], name@]);
        out.push(c);
        assert(entries.subrange(0, j + 1).map_values(|e: Seq<char>| seq![e, name@])
            =~= entries.subrange(0, j as int).map_values(|e: Seq<char>| seq![e, name@]).push(
            seq![entries[j as int], name@],
        ));
        assert(candidates_view(out) =~= before.push(seq![entries[j as int], name@]));
        j = j + 1;
    }
    assert(entries.subrange(0, m as int) =~= entries);
    out
}

/// The opencode binary: the first candidate that is a file (the candidates of
/// `opencode_candidates`, probed in order); an error when none is.
pub fn resolve_opencode_binary(probes: &Vec<PathProbe>) -> (r: Result<String, String>)
    ensures
        match first_file_of(probes@) {
            Some(p) => r matches Ok(s) && s@ == p,
            None => r matches Err(m) && m@ == "opencode binary not found"@,
        },
{
    match first_file(probes) {
        Some(p) => Ok(p),
        None => Err("opencode binary not found".to_owned()),
    }
}

// ───────────────────────── health polling ─────────────────────────

/// The first pause between health probes, in milliseconds.
pub const HEALTH_INITIAL_DELAY_MS: u64 = 250;

/// The longest pause between health probes, in milliseconds.
pub const HEALTH_MAX_DELAY_MS: u64 = 2000;

/// The health endpoint of a server: its base URL without trailing slashes,
/// then `path`.
pub fn health_url(base: &str, path: &str) -> (r: String)
    ensures
        r@ == trim_end_char(base@, '/') + path@,
{
    trim_end_slashes(base).to_owned().concat(path)
}

/// The pause after `delay_ms`: doubled, at most `HEALTH_MAX_DELAY_MS`.
pub open spec fn next_delay_spec(delay_ms: int) -> int {
    if delay_ms * 2 < HEALTH_MAX_DELAY_MS {
        delay_ms * 2
    } else {
        HEALTH_MAX_DELAY_MS as int
    }
}

/// The pause that follows `delay_ms`.
pub fn next_delay(delay_ms: u64) -> (r: u64)
    requires
        delay_ms <= u64::MAX / 2,
    ensures
        r == next_delay_spec(delay_ms as int),
{
    let d = delay_ms * 2;
    if d < HEALTH_MAX_DELAY_MS {
        d
    } else {
        HEALTH_MAX_DELAY_MS
    }
}

/// The pause after the `k`-th failed probe.
pub open spec fn backoff_delay(k: nat) -> int
    decreases k,
{
    if k == 0 {
        HEALTH_INITIAL_DELAY_MS as int
    } else {
        next_delay_spec(backoff_delay((k - 1) as nat))
    }
}

/// Pauses between health probes start at 250 ms, double each time, never
/// exceed 2 s, and stay at 2 s from the fourth pause on.
pub proof fn law_backoff(k: nat)
    ensures
        HEALTH_INITIAL_DELAY_MS <= backoff_delay(k) <= HEALTH_MAX_DELAY_MS,
        backoff_delay(k) <= backoff_delay(k + 1),
        k >= 3 ==> backoff_delay(k) == HEALTH_MAX_DELAY_MS,
    decreases k,
{
    if k > 0 {
        law_backoff((k - 1) as nat);
    }
    assert(backoff_delay(k + 1) == next_delay_spec(backoff_delay(k)));
    if k == 3 {
        reveal_with_fuel(backoff_delay, 4);
        assert(backoff_delay(3) == 2000);
    }
}

/// What a health poll does after a probe.
#[derive(Debug, PartialEq)]
pub enum HealthStep {
    /// The server answered; polling is over.
    Ready,
    /// The deadline passed; polling failed.
    TimedOut,
    /// Pause for the current delay, then probe again.
    Pause,
}

/// After a probe at `now` (nanoseconds on a monotonic clock) with a poll
/// deadline of `deadline`.
pub fn health_step(probe_ok: bool, now: u128, deadline: u128) -> (r: HealthStep)
    ensures
        r == (if probe_ok {
            HealthStep::Ready
        } else if now >= deadline {
            HealthStep::TimedOut
        } else {
            HealthStep::Pause
        }),
{
    if probe_ok {
        HealthStep::Ready
    } else if now >= deadline {
        HealthStep::TimedOut
    } else {
        HealthStep::Pause
    }
}

/// The error when a server did not become healthy in time.
pub fn health_timeout_message(url: &str) -> (r: String)
    ensures
        r@ == "timeout waiting for "@ + url@,
{
    "timeout waiting for ".to_owned().concat(url)
}

/// Where and what to send for a health probe.
#[derive(Debug, PartialEq)]
pub struct HealthTarget {
    pub host: String,
    pub port: u16,
    pub request: String,
}

/// The raw HTTP request of a health probe.
pub open spec fn health_request_text(path: Seq<char>, host: Seq<char>) -> Seq<char> {
    "GET "@ + path + " HTTP/1.1\r\nHost: "@ + host + "\r\nConnection: close\r\n\r\n"@
}

/// The target of a health probe from how its URL parsed: the host (default
/// `127.0.0.1`), the port (default 80) and a `GET` of the URL's path.
pub fn health_target_from(parsed: Result<UrlParts, String>) -> (r: Result<HealthTarget, String>)
    ensures
        match parsed {
            Err(_) => r matches Err(m) && m@ == "invalid health url"@,
            Ok(p) => r matches Ok(t) && t.host@ == (match p.host {
                Some(h) => h@,
                None => "127.0.0.1"@,
            }) && t.port == (match p.port {
                Some(x) => x,
                None => 80,
            }) && t.request@ == health_request_text(p.path@, t.host@),
        },
{
    match parsed {
        Err(_) => Err("invalid health url".to_owned()),
        Ok(p) => {
            let host = match p.host {
                Some(h) => h,
                None => "127.0.0.1".to_owned(),
            };
            let port = match p.port {
                Some(x) => x,
                None => 80,
            };
            let request = "GET ".to_owned().concat(p.path.as_str()).concat(
                " HTTP/1.1\r\nHost: ",
            ).concat(host.as_str()).concat("\r\nConnection: close\r\n\r\n");
            Ok(HealthTarget { host, port, request })
        },
    }
}

/// The target of a health probe of `url`.
pub fn health_target(url: &str) -> (r: Result<HealthTarget, String>)
    ensures
        match parsed_url(url@) {
            Err(_) => r matches Err(m) && m@ == "invalid health url"@,
            Ok((host, port, path)) => r matches Ok(t) && t.host@ == (match host {
                Some(h) => h,
                None => "127.0.0.1"@,
            }) && t.port == (match port {
                Some(x) => x,
                None => 80,
            }) && t.request@ == health_request_text(path, t.host@),
        },
{
    health_target_from(parse_url(url))
}

/// A response head reports health when it carries status 200 or 204.
pub open spec fn healthy_head(head: Seq<char>) -> bool {
    seq_contains(head, " 200 "@) || seq_contains(head, " 204 "@)
}

/// Whether the start of a response reports health.
pub fn is_healthy_head(head: &str) -> (r: bool)
    ensures
        r == healthy_head(head@),
{
    contains(head, " 200 ") || contains(head, " 204 ")
}

// ───────────────────────── start ─────────────────────────

/// A health poll: the endpoint to probe and how long to wait for it, in seconds.
#[derive(Debug, PartialEq)]
pub struct HealthCheck {
    pub url: String,
    pub timeout_secs: u64,
}

/// What starting the supervisor does, decided before anything is spawned.
#[derive(Debug, PartialEq)]
pub struct StartPlan {
    pub openchamber_port: u16,
    pub opencode_port: u16,
    /// Spawn `opencode serve` (unless `OPENCODE_SKIP_START` is on).
    pub spawn_opencode: bool,
    /// Spawn the OpenChamber server (unless `OPENCHAMBER_SKIP_LOCAL_SERVER` is on).
    pub spawn_openchamber: bool,
    /// The health polls that must succeed, in order, once the children are spawned.
    pub health_checks: Vec<HealthCheck>,
}

pub open spec fn check_view(c: HealthCheck) -> (Seq<char>, int) {
    (c.url@, c.timeout_secs as int)
}

/// The health polls of a start: the OpenChamber server's `/health` within 20
/// seconds, then the opencode server's `/global/health` within 10 seconds.
pub open spec fn start_health_checks(openchamber_url: Seq<char>, opencode_url: Seq<char>) -> Seq<
    (Seq<char>, int),
> {
    seq![
        (trim_end_char(openchamber_url, '/') + "/health"@, 20),
        (trim_end_char(opencode_url, '/') + "/global/health"@, 10),
    ]
}

/// Plans `Supervisor::start`: both ports must be found (the OpenChamber URL's
/// first), each child is spawned unless its skip flag is on, and both servers
/// are then polled for health.
pub fn plan_start(
    openchamber_url: &str,
    opencode_url: &str,
    skip_opencode: Option<&str>,
    skip_openchamber: Option<&str>,
) -> (r: Result<StartPlan, String>)
    ensures
        match port_of(openchamber_url@, parsed_url(openchamber_url@)) {
            Err(e) => r matches Err(m) && m@ == e,
            Ok(p1) => match port_of(opencode_url@, parsed_url(opencode_url@)) {
                Err(e) => r matches Err(m) && m@ == e,
                Ok(p2) => r matches Ok(plan) && plan.openchamber_port == p1 && plan.opencode_port
                    == p2 && plan.spawn_opencode == !flag_on(
                    match skip_opencode {
                        Some(v) => Some(v@),
                        None => None,
                    },
                ) && plan.spawn_openchamber == !flag_on(
                    match skip_openchamber {
                        Some(v) => Some(v@),
                        None => None,
                    },
                ) && plan.health_checks@.map_values(|c: HealthCheck| check_view(c))
                    == start_health_checks(openchamber_url@, opencode_url@),
            },
        },
{
    let openchamber_port = match port_from_url(openchamber_url) {
        Ok(p) => p,
        Err(e) => return Err(e),
    };
    let opencode_port = match port_from_url(opencode_url) {
        Ok(p) => p,
        Err(e) => return Err(e),
    };
    let mut health_checks: Vec<HealthCheck> = Vec::new();
    health_checks.push(HealthCheck { url: health_url(openchamber_url, "/health"), timeout_secs: 20 });
    health_checks.push(
        HealthCheck { url: health_url(opencode_url, "/global/health"), timeout_secs: 10 },
    );
    assert(health_checks@.map_values(|c: HealthCheck| check_view(c)) =~= start_health_checks(
        openchamber_url@,
        opencode_url@,
    ));
    Ok(
        StartPlan {
            openchamber_port,
            opencode_port,
            spawn_opencode: !env_flag(skip_opencode),
            spawn_openchamber: !env_flag(skip_openchamber),
            health_checks,
        },
    )
}

/// Which children the supervisor holds.
#[derive(Debug, PartialEq)]
pub struct ChildSlots {
    pub opencode: bool,
    pub openchamber: bool,
}

/// The children to stop at shutdown, in order: opencode first, then the
/// OpenChamber server; each only when it was started.
pub fn shutdown_order(slots: &ChildSlots) -> (r: Vec<&'static str>)
    ensures
        r@.map_values(|s: &'static str| s@) == (if slots.opencode {
            seq!["opencode"@]
        } else {
            Seq::empty()
        }) + (if slots.openchamber {
            seq!["openchamber"@]
        } else {
            Seq::empty()
        }),
{
    let mut v: Vec<&'static str> = Vec::new();
    if slots.opencode {
        v.push("opencode");
    }
    if slots.openchamber {
        v.push("openchamber");
    }
    assert(v@.map_values(|s: &'static str| s@) =~= (if slots.opencode {
        seq!["opencode"@]
    } else {
        Seq::empty()
    }) + (if slots.openchamber {
        seq!["openchamber"@]
    } else {
        Seq::empty()
    }));
    v
}

} // verus!
