use openchamber_tauri::process::{
    binary_name, env_flag, first_file, health_step, health_target, health_timeout_message,
    health_url, is_healthy_head, next_delay, opencode_binary_vars, opencode_serve_args, plan_start,
    port_from_url, resolve_opencode_binary, resolve_openchamber_launcher, server_endpoints,
    shutdown_order, ChildSlots, HealthCheck, HealthStep, PathProbe, HEALTH_INITIAL_DELAY_MS,
    HEALTH_MAX_DELAY_MS,
};

fn probe(path: &str, is_file: bool) -> PathProbe {
    PathProbe { path: path.to_string(), is_file }
}

#[test]
fn port_from_explicit_port() {
    assert_eq!(port_from_url("http://127.0.0.1:57123"), Ok(57123));
    assert_eq!(port_from_url("http://127.0.0.1:4096/"), Ok(4096));
}

#[test]
fn port_from_scheme_default() {
    assert_eq!(port_from_url("http://localhost"), Ok(80));
    assert_eq!(port_from_url("https://example.com/x"), Ok(443));
}

#[test]
fn port_from_invalid_url() {
    assert_eq!(port_from_url("not a url"), Err("invalid server url".to_string()));
}

#[test]
fn port_missing_for_unknown_scheme() {
    assert_eq!(
        port_from_url("foo://bar"),
        Err("url is missing a port: foo://bar".to_string())
    );
}

#[test]
fn env_flags() {
    assert!(env_flag(Some("1")));
    assert!(env_flag(Some("TRUE")));
    assert!(env_flag(Some("Yes")));
    assert!(!env_flag(Some("0")));
    assert!(!env_flag(Some("on")));
    assert!(!env_flag(Some("")));
    assert!(!env_flag(None));
}

#[test]
fn binary_names() {
    assert_eq!(binary_name("opencode", "windows"), "opencode.exe");
    assert_eq!(binary_name("opencode", "linux"), "opencode");
    assert_eq!(binary_name("opencode", "macos"), "opencode");
}

#[test]
fn serve_arguments() {
    assert_eq!(
        opencode_serve_args(4096),
        vec!["serve", "--port", "4096", "--hostname", "127.0.0.1"]
    );
}

#[test]
fn launcher_prefers_built_server() {
    let l = resolve_openchamber_launcher(
        57123,
        None,
        Some("/srv/index.js".into()),
        Some("/repo/dev.js".into()),
    )
    .unwrap();
    assert_eq!(l.program, "node");
    assert_eq!(l.args, vec!["/srv/index.js", "--port", "57123"]);
}

#[test]
fn launcher_falls_back_to_dev_script() {
    let l = resolve_openchamber_launcher(8080, Some("/usr/bin/node20".into()), None, Some("/repo/dev.js".into()))
        .unwrap();
    assert_eq!(l.program, "/usr/bin/node20");
    assert_eq!(
        l.args,
        vec![
            "/repo/dev.js",
            "--port",
            "8080",
            "--cors",
            "tauri://localhost",
            "--cors",
            "http://localhost:5173"
        ]
    );
}

#[test]
fn launcher_missing() {
    assert_eq!(
        resolve_openchamber_launcher(1, None, None, None),
        Err("could not locate openchamber server entry point (set OPENCHAMBER_SERVER_DIR or run from repo root)".to_string())
    );
}

#[test]
fn first_existing_candidate() {
    let probes = vec![probe("/a", false), probe("/b", true), probe("/c", true)];
    assert_eq!(first_file(&probes), Some("/b".to_string()));
    assert_eq!(resolve_opencode_binary(&probes), Ok("/b".to_string()));
    let none = vec![probe("/a", false)];
    assert_eq!(first_file(&none), None);
    assert_eq!(
        resolve_opencode_binary(&none),
        Err("opencode binary not found".to_string())
    );
    assert_eq!(resolve_opencode_binary(&vec![]), Err("opencode binary not found".to_string()));
}

#[test]
fn binary_variables_in_order() {
    assert_eq!(
        opencode_binary_vars(),
        vec![
            "OPENCODE_BINARY",
            "OPENCODE_PATH",
            "OPENCHAMBER_OPENCODE_PATH",
            "OPENCHAMBER_OPENCODE_BIN"
        ]
    );
}

#[test]
fn health_urls() {
    assert_eq!(health_url("http://127.0.0.1:4096//", "/global/health"), "http://127.0.0.1:4096/global/health");
    assert_eq!(health_url("http://h", "/health"), "http://h/health");
}

#[test]
fn backoff_sequence() {
    let mut d = HEALTH_INITIAL_DELAY_MS;
    let mut seen = vec![d];
    for _ in 0..5 {
        d = next_delay(d);
        seen.push(d);
    }
    assert_eq!(seen, vec![250, 500, 1000, 2000, 2000, 2000]);
    assert_eq!(next_delay(1500), HEALTH_MAX_DELAY_MS);
    assert_eq!(next_delay(0), 0);
}

#[test]
fn health_steps() {
    assert_eq!(health_step(true, 100, 10), HealthStep::Ready);
    assert_eq!(health_step(false, 10, 10), HealthStep::TimedOut);
    assert_eq!(health_step(false, 9, 10), HealthStep::Pause);
    assert_eq!(health_timeout_message("http://x/health"), "timeout waiting for http://x/health");
}

#[test]
fn health_targets() {
    let t = health_target("http://127.0.0.1:4096/global/health").unwrap();
    assert_eq!(t.host, "127.0.0.1");
    assert_eq!(t.port, 4096);
    assert_eq!(
        t.request,
        "GET /global/health HTTP/1.1\r\nHost: 127.0.0.1\r\nConnection: close\r\n\r\n"
    );
    let t = health_target("http://localhost").unwrap();
    assert_eq!(t.port, 80);
    assert_eq!(t.request, "GET / HTTP/1.1\r\nHost: localhost\r\nConnection: close\r\n\r\n");
    assert_eq!(health_target("::"), Err("invalid health url".to_string()));
}

#[test]
fn healthy_heads() {
    assert!(is_healthy_head("HTTP/1.1 200 OK\r\n"));
    assert!(is_healthy_head("HTTP/1.1 204 No Content\r\n"));
    assert!(!is_healthy_head("HTTP/1.1 500 Internal Server Error\r\n"));
    assert!(!is_healthy_head("HTTP/1.1 2000\r\n"));
    assert!(!is_healthy_head(""));
}

#[test]
fn start_plans() {
    let p = plan_start("http://127.0.0.1:57123", "http://127.0.0.1:4096", None, Some("true")).unwrap();
    assert_eq!(p.openchamber_port, 57123);
    assert_eq!(p.opencode_port, 4096);
    assert!(p.spawn_opencode);
    assert!(!p.spawn_openchamber);
    assert_eq!(
        p.health_checks,
        vec![
            HealthCheck { url: "http://127.0.0.1:57123/health".into(), timeout_secs: 20 },
            HealthCheck { url: "http://127.0.0.1:4096/global/health".into(), timeout_secs: 10 },
        ]
    );
    assert_eq!(
        plan_start("bad", "http://127.0.0.1:4096", None, None),
        Err("invalid server url".to_string())
    );
    assert_eq!(
        plan_start("http://127.0.0.1:1", "foo://x", None, None),
        Err("url is missing a port: foo://x".to_string())
    );
}

#[test]
fn shutdown_opencode_first() {
    assert_eq!(
        shutdown_order(&ChildSlots { opencode: true, openchamber: true }),
        vec!["opencode", "openchamber"]
    );
    assert_eq!(shutdown_order(&ChildSlots { opencode: false, openchamber: true }), vec!["openchamber"]);
    assert!(shutdown_order(&ChildSlots { opencode: false, openchamber: false }).is_empty());
}

#[test]
fn supervisor_endpoints() {
    let e = server_endpoints("a".into(), "b".into(), Some("".into()));
    assert_eq!(e.opencode_auth, None);
    let e = server_endpoints("a".into(), "b".into(), Some("pw".into()));
    assert_eq!(e.openchamber_url, "a");
    assert_eq!(e.opencode_url, "b");
    assert_eq!(e.opencode_auth, Some("pw".to_string()));
}

#[test]
fn opencode_candidate_order() {
    let c = openchamber_tauri::process::opencode_candidates(
        vec![Some("/a".into()), None, Some("/c".into()), None],
        Some("/res".into()),
        vec!["/usr/bin".into(), "/bin".into()],
        "windows",
    );
    assert_eq!(
        c,
        vec![
            vec!["/a".to_string()],
            vec!["/c".to_string()],
            vec!["/res".to_string(), "opencode-cli".to_string(), "opencode.exe".to_string()],
            vec!["/usr/bin".to_string(), "opencode.exe".to_string()],
            vec!["/bin".to_string(), "opencode.exe".to_string()],
        ]
    );
    let c = openchamber_tauri::process::opencode_candidates(vec![None], None, vec![], "linux");
    assert!(c.is_empty());
}
