use openchamber_tauri::commands::desktop::{probe_after_health_text, probe_after_version_text};
use openchamber_tauri::commands::desktop::{
    classify_version_payload, desktop_browser_capture_page, desktop_check_for_updates,
    desktop_dev_tunnel_open, desktop_get_keep_awake, desktop_get_lan_address, desktop_host_probe,
    desktop_hosts_get, desktop_hosts_set, desktop_local_client_token_get, desktop_new_window_at_url,
    desktop_new_window_for_host, desktop_set_keep_awake, desktop_ssh_connect, desktop_ssh_logs,
    desktop_ssh_status, dev_or_prod_url, probe_after_health, probe_after_version, probe_start,
    DesktopUpdateInfo, HealthReply, HostStatus, KeepAwake, ProbeStep, VersionReply,
};
use openchamber_tauri::commands::updates::UpdateCheck;
use openchamber_tauri::json::{JsonMember, JsonNumber, JsonValue};

fn s(t: &str) -> JsonValue {
    JsonValue::Str(t.to_string())
}

fn n(v: u64) -> JsonValue {
    JsonValue::Number(JsonNumber::PosInt(v))
}

fn obj(members: Vec<(&str, JsonValue)>) -> JsonValue {
    JsonValue::Object(
        members
            .into_iter()
            .map(|(k, v)| JsonMember { key: k.to_string(), value: v })
            .collect(),
    )
}

#[test]
fn hosts_get_defaults_on_empty_settings() {
    let c = desktop_hosts_get(obj(vec![]));
    assert_eq!(c.hosts, JsonValue::Array(vec![]));
    assert_eq!(c.default_host_id, "local");
    assert!(!c.initial_host_choice_completed);
    assert_eq!(c.local_client_token, "");
}

#[test]
fn hosts_get_reads_stored_values_and_ignores_wrong_types() {
    let root = obj(vec![
        ("desktopHosts", JsonValue::Array(vec![s("h1")])),
        ("desktopDefaultHostId", n(5)),
        ("desktopInitialHostChoiceCompleted", JsonValue::Bool(true)),
        ("desktopLocalClientToken", s("tok")),
    ]);
    let c = desktop_hosts_get(root);
    assert_eq!(c.hosts, JsonValue::Array(vec![s("h1")]));
    assert_eq!(c.default_host_id, "local");
    assert!(c.initial_host_choice_completed);
    assert_eq!(c.local_client_token, "tok");
}

#[test]
fn hosts_set_then_get_reads_back_what_was_set() {
    let root = obj(vec![
        ("theme", s("dark")),
        ("desktopLocalClientToken", s("old")),
        ("desktopDefaultHostId", s("remote-1")),
    ]);
    let input = obj(vec![
        ("hosts", JsonValue::Array(vec![s("a"), s("b")])),
        ("initialHostChoiceCompleted", JsonValue::Bool(true)),
        ("localClientToken", s("new-token")),
    ]);
    let new = desktop_hosts_set(root, input).unwrap();
    assert_eq!(new.get_str("theme"), Some("dark".to_string()));
    let c = desktop_hosts_get(new);
    assert_eq!(c.hosts, JsonValue::Array(vec![s("a"), s("b")]));
    assert_eq!(c.default_host_id, "remote-1");
    assert!(c.initial_host_choice_completed);
    assert_eq!(c.local_client_token, "new-token");
}

#[test]
fn hosts_set_with_empty_token_removes_it() {
    let root = obj(vec![("desktopLocalClientToken", s("old"))]);
    let new = desktop_hosts_set(root, obj(vec![("localClientToken", s(""))])).unwrap();
    assert_eq!(new.get("desktopLocalClientToken"), None);
    assert_eq!(desktop_local_client_token_get(&new), "");
}

#[test]
fn hosts_set_ignores_values_of_the_wrong_type() {
    let root = obj(vec![("desktopDefaultHostId", s("keep"))]);
    let input = obj(vec![("defaultHostId", n(1)), ("initialHostChoiceCompleted", s("yes"))]);
    let new = desktop_hosts_set(root, input).unwrap();
    assert_eq!(new.get_str("desktopDefaultHostId"), Some("keep".to_string()));
    assert_eq!(new.get("desktopInitialHostChoiceCompleted"), None);
}

#[test]
fn hosts_set_rejects_a_root_that_is_not_an_object() {
    let r = desktop_hosts_set(JsonValue::Array(vec![]), obj(vec![]));
    assert_eq!(r, Err("settings root must be an object".to_string()));
}

fn version_payload(status: &str, caps: Vec<&str>, api: Option<u64>, min_client: Option<u64>) -> JsonValue {
    let mut compat = vec![("capabilities", JsonValue::Array(caps.into_iter().map(s).collect()))];
    if let Some(a) = api {
        compat.push(("apiVersion", n(a)));
    }
    if let Some(m) = min_client {
        compat.push(("minClientApiVersion", n(m)));
    }
    obj(vec![("status", s(status)), ("compatibility", obj(compat))])
}

#[test]
fn classify_version_payload_cases() {
    assert_eq!(classify_version_payload(&JsonValue::Null), HostStatus::WrongService);
    assert_eq!(classify_version_payload(&obj(vec![("status", s("ok"))])), HostStatus::WrongService);
    assert_eq!(
        classify_version_payload(&version_payload("degraded", vec!["api.runtime-url.v1"], Some(1), Some(1))),
        HostStatus::WrongService
    );
    assert_eq!(
        classify_version_payload(&version_payload("ok", vec!["other"], Some(1), Some(1))),
        HostStatus::Incompatible
    );
    assert_eq!(
        classify_version_payload(&version_payload("ok", vec!["api.runtime-url.v1"], Some(2), Some(1))),
        HostStatus::UpdateRecommended
    );
    assert_eq!(
        classify_version_payload(&version_payload("ok", vec!["api.runtime-url.v1"], Some(1), Some(2))),
        HostStatus::UpdateRecommended
    );
    assert_eq!(
        classify_version_payload(&version_payload("ok", vec!["api.runtime-url.v1"], None, None)),
        HostStatus::UpdateRecommended
    );
    assert_eq!(
        classify_version_payload(&version_payload("ok", vec!["x", "api.runtime-url.v1"], Some(1), None)),
        HostStatus::Compatible
    );
    assert_eq!(HostStatus::Compatible.as_str(), "ok");
    assert_eq!(HostStatus::UpdateRecommended.as_str(), "update-recommended");
    assert_eq!(HostStatus::WrongService.as_str(), "wrong-service");
}

#[test]
fn probe_plan_builds_urls_and_headers() {
    let headers = obj(vec![
        ("X-Trace", s("1")),
        ("bad header", s("2")),
        ("X-Num", n(3)),
        ("X-Bad-Value", s("a\nb")),
    ]);
    let plan = desktop_host_probe(
        "http://host:3000//",
        Some("  secret ".to_string()),
        Some(headers),
        Some("  ".to_string()),
    );
    assert_eq!(plan.base, "http://host:3000");
    assert_eq!(plan.health_url, "http://host:3000/health");
    assert_eq!(plan.version_url, "http://host:3000/api/version");
    assert_eq!(
        plan.headers,
        vec![
            ("accept".to_string(), "application/json".to_string()),
            ("X-Trace".to_string(), "1".to_string()),
            ("authorization".to_string(), "Bearer secret".to_string()),
        ]
    );
    assert_eq!(plan.expected_server_id, None);
    assert_eq!(probe_start(&plan), ProbeStep::FetchVersion);
}

#[test]
fn probe_plan_without_token_or_headers() {
    let plan = desktop_host_probe("http://h", Some(" ".to_string()), Some(s("x")), Some("srv".to_string()));
    assert_eq!(plan.headers, vec![("accept".to_string(), "application/json".to_string())]);
    assert_eq!(plan.expected_server_id, Some("srv".to_string()));
    assert_eq!(probe_start(&plan), ProbeStep::FetchHealth);
}

#[test]
fn probe_identity_gate() {
    let plan = desktop_host_probe("http://h", None, None, Some(" srv-1 ".to_string()));
    let other = HealthReply::Response { status: 200, payload: Some(obj(vec![("serverId", s("srv-2"))])) };
    assert_eq!(probe_after_health(&plan, &other), ProbeStep::Finished(HostStatus::WrongService));
    let same = HealthReply::Response { status: 200, payload: Some(obj(vec![("serverId", s("srv-1"))])) };
    assert_eq!(probe_after_health(&plan, &same), ProbeStep::FetchVersion);
    let blank = HealthReply::Response { status: 200, payload: Some(obj(vec![("serverId", s("  "))])) };
    assert_eq!(probe_after_health(&plan, &blank), ProbeStep::FetchVersion);
    let error = HealthReply::Response { status: 500, payload: Some(obj(vec![("serverId", s("srv-2"))])) };
    assert_eq!(probe_after_health(&plan, &error), ProbeStep::FetchVersion);
    assert_eq!(probe_after_health(&plan, &HealthReply::Failed), ProbeStep::FetchVersion);
}

#[test]
fn probe_version_replies() {
    assert_eq!(probe_after_version(&VersionReply::Failed), ProbeStep::Finished(HostStatus::Unreachable));
    assert_eq!(
        probe_after_version(&VersionReply::Response { status: 401, payload: None }),
        ProbeStep::Finished(HostStatus::Auth)
    );
    assert_eq!(
        probe_after_version(&VersionReply::Response { status: 403, payload: None }),
        ProbeStep::Finished(HostStatus::Auth)
    );
    assert_eq!(
        probe_after_version(&VersionReply::Response { status: 502, payload: None }),
        ProbeStep::Finished(HostStatus::Unreachable)
    );
    assert_eq!(
        probe_after_version(&VersionReply::Response { status: 200, payload: None }),
        ProbeStep::Finished(HostStatus::WrongService)
    );
    let good = version_payload("ok", vec!["api.runtime-url.v1"], Some(1), Some(1));
    assert_eq!(
        probe_after_version(&VersionReply::Response { status: 200, payload: Some(good) }),
        ProbeStep::Finished(HostStatus::Compatible)
    );
}

#[test]
fn lan_address_is_the_first_non_loopback_ipv4_word() {
    assert_eq!(desktop_get_lan_address("127.0.0.1 192.168.1.5 10.0.0.2 \n"), Some("192.168.1.5".to_string()));
    assert_eq!(desktop_get_lan_address("  fe80::1 10.1.2.3"), Some("10.1.2.3".to_string()));
    assert_eq!(desktop_get_lan_address("127.0.0.1 ::1\n"), None);
    assert_eq!(desktop_get_lan_address(""), None);
    assert_eq!(desktop_get_lan_address("127.0.1.1x 1270.0.0.1"), Some("1270.0.0.1".to_string()));
}

#[test]
fn unsupported_features_have_fixed_shapes() {
    let off = KeepAwake { supported: false, enabled: false, active: false };
    assert_eq!(desktop_get_keep_awake(), off);
    assert_eq!(desktop_set_keep_awake(true), KeepAwake { supported: false, enabled: false, active: false });
    assert_eq!(desktop_ssh_status(None), JsonValue::Array(vec![]));
    assert_eq!(desktop_ssh_logs("x".into(), Some(5)), JsonValue::Array(vec![]));
    assert_eq!(
        desktop_ssh_connect("x".into()),
        Err("SSH is not implemented in the Tauri shell yet".to_string())
    );
    assert_eq!(desktop_browser_capture_page(), JsonValue::Null);
    assert_eq!(desktop_dev_tunnel_open(JsonValue::Null), JsonValue::Null);
}

#[test]
fn update_info_shapes() {
    let a = desktop_check_for_updates(
        "1.0.0".into(),
        UpdateCheck::Available { version: "1.1.0".into(), notes: Some("n".into()), date: None },
    );
    assert_eq!(
        a,
        DesktopUpdateInfo::Available {
            version: "1.1.0".into(),
            current_version: "1.0.0".into(),
            body: Some("n".into()),
            date: None
        }
    );
    assert_eq!(
        desktop_check_for_updates("1.0.0".into(), UpdateCheck::UpToDate),
        DesktopUpdateInfo::UpToDate { current_version: "1.0.0".into() }
    );
    assert_eq!(
        desktop_check_for_updates("1.0.0".into(), UpdateCheck::Failed { error: "e".into() }),
        DesktopUpdateInfo::Failed { current_version: "1.0.0".into(), error: "e".into() }
    );
}

#[test]
fn extra_windows() {
    let w = desktop_new_window_at_url("https://example.com/a".into(), 1234).unwrap();
    assert_eq!(w.label, "extra-1234");
    assert_eq!(w.url, "https://example.com/a");
    assert_eq!(
        desktop_new_window_at_url("not a url".into(), 1),
        Err("relative URL without a base".to_string())
    );
    let base = dev_or_prod_url(true, None, "index.html");
    assert_eq!(base, "http://localhost:5173");
    let w = desktop_new_window_for_host("h1".into(), base, 99).unwrap();
    assert_eq!(w.url, "http://localhost:5173?relayHostId=h1");
    assert_eq!(w.label, "host-h1-99");
    let w = desktop_new_window_for_host("h2".into(), "http://x/?a=1".into(), 5).unwrap();
    assert_eq!(w.url, "http://x/?a=1&relayHostId=h2");
    assert_eq!(dev_or_prod_url(false, Some("http://dev".into()), "index.html"), "index.html");
    assert!(desktop_new_window_for_host("h".into(), "index.html".into(), 1).is_err());
}

#[test]
fn probe_replies_from_body_text() {
    let plan = desktop_host_probe("http://h", None, None, Some("srv-1".to_string()));
    assert_eq!(
        probe_after_health_text(&plan, 200, Some("{\"serverId\":\"srv-2\"}")),
        ProbeStep::Finished(HostStatus::WrongService)
    );
    assert_eq!(probe_after_health_text(&plan, 200, Some("garbage")), ProbeStep::FetchVersion);
    assert_eq!(probe_after_health_text(&plan, 200, None), ProbeStep::FetchVersion);
    let ok = "{\"status\":\"ok\",\"compatibility\":{\"capabilities\":[\"api.runtime-url.v1\"],\"apiVersion\":1,\"minClientApiVersion\":1}}";
    assert_eq!(probe_after_version_text(200, Some(ok)), ProbeStep::Finished(HostStatus::Compatible));
    assert_eq!(
        probe_after_version_text(200, Some("not json")),
        ProbeStep::Finished(HostStatus::WrongService)
    );
    assert_eq!(probe_after_version_text(403, None), ProbeStep::Finished(HostStatus::Auth));
}
