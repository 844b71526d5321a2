use openchamber_tauri::commands::runtime::{
    boot_outcome_for, build_initialization_script, is_desktop, open_external, platform_info,
    BootOutcome, BootOutcomeState,
};
use openchamber_tauri::json::{JsonMember, JsonNumber, JsonValue};
use openchamber_tauri::json_text::to_json_text;
use openchamber_tauri::runtime_config::{
    detect_macos_major, home_directory, parse_macos_major, std_detect_platform, HostFacts,
    RuntimeConfig,
};

fn facts(os: &str) -> HostFacts {
    HostFacts {
        home: None,
        user_profile: Some("C:\\Users\\me".into()),
        macos_major: Some(14),
        os: os.into(),
        arch: "aarch64".into(),
        app_version: "1.2.3".into(),
    }
}

#[test]
fn platform_names() {
    assert_eq!(std_detect_platform("macos"), "darwin");
    assert_eq!(std_detect_platform("windows"), "win32");
    assert_eq!(std_detect_platform("linux"), "linux");
    assert_eq!(std_detect_platform("freebsd"), "unknown");
}

#[test]
fn macos_major_version() {
    assert_eq!(parse_macos_major("14.4.1\n"), Some(14));
    assert_eq!(parse_macos_major(" 15\n"), Some(15));
    assert_eq!(parse_macos_major("abc.1"), None);
    assert_eq!(parse_macos_major(""), None);
    assert_eq!(detect_macos_major("linux", Some("14.1")), None);
    assert_eq!(detect_macos_major("macos", Some("13.0")), Some(13));
    assert_eq!(detect_macos_major("macos", None), None);
}

#[test]
fn home_directory_fallbacks() {
    assert_eq!(home_directory(Some("/home/a".into()), Some("x".into())), "/home/a");
    assert_eq!(home_directory(None, Some("x".into())), "x");
    assert_eq!(home_directory(None, None), ".");
}

#[test]
fn runtime_config_for_local_origin() {
    let c = RuntimeConfig::for_local_origin("http://127.0.0.1:57123".into(), 57123, facts("windows"));
    assert_eq!(c.local_origin, "http://127.0.0.1:57123");
    assert_eq!(c.api_base_url, "http://127.0.0.1:57123");
    assert_eq!(c.client_token, "");
    assert_eq!(c.runtime_headers, JsonValue::Object(vec![]));
    assert_eq!(c.home_directory, "C:\\Users\\me");
    assert_eq!(c.platform, "win32");
    assert!(c.tray_enabled);
    let mut f = facts("freebsd");
    f.user_profile = None;
    let c = RuntimeConfig::for_local_origin("o".into(), 1, f);
    assert_eq!(c.home_directory, "");
    assert!(!c.tray_enabled);
    assert_eq!(c.platform, "unknown");
}

#[test]
fn initialization_script_quotes_values() {
    let mut c = RuntimeConfig::for_local_origin("http://127.0.0.1:57123".into(), 57123, facts("macos"));
    c.home_directory = "/Users/a \"b\"".into();
    let script = build_initialization_script(&c);
    assert!(script.contains("window.__OPENCHAMBER_LOCAL_ORIGIN__ = \"http://127.0.0.1:57123\";"));
    assert!(script.contains("window.__OPENCHAMBER_HOME__ = \"/Users/a \\\"b\\\"\";"));
    assert!(script.contains("if (\"\" && window.__OPENCHAMBER_CLIENT_TOKEN__ === undefined)"));
    assert!(script.contains("window.__OPENCHAMBER_RUNTIME_HEADERS__ = {};"));
    assert!(script.contains("trayEnabled: true,"));
    assert!(script.contains("macosMajor: 14,"));
    assert!(script.contains("window.__OPENCHAMBER_PLATFORM__ = \"darwin\";"));
    assert!(script.contains("arch: \"aarch64\","));
    c.macos_major = None;
    assert!(build_initialization_script(&c).contains("macosMajor: null,"));
}

#[test]
fn boot_outcome_injection() {
    assert_eq!(
        BootOutcome::local_ok().as_injection_script(),
        "window.__OPENCHAMBER_DESKTOP_BOOT_OUTCOME__={\"target\":\"local\",\"status\":\"ok\"};"
    );
    assert_eq!(
        BootOutcome::local_unreachable().as_injection_script(),
        "window.__OPENCHAMBER_DESKTOP_BOOT_OUTCOME__={\"target\":\"local\",\"status\":\"unreachable\"};"
    );
    let o = BootOutcome { target: None, status: "x\"y".into() };
    assert_eq!(
        o.as_injection_script(),
        "window.__OPENCHAMBER_DESKTOP_BOOT_OUTCOME__={\"target\":null,\"status\":\"x\\\"y\"};"
    );
    assert_eq!(boot_outcome_for(true), BootOutcome::local_ok());
    assert_eq!(boot_outcome_for(false), BootOutcome::local_unreachable());
}

#[test]
fn boot_outcome_slot() {
    let mut state = BootOutcomeState::new();
    assert_eq!(state.get_boot_outcome(), None);
    state.settle(BootOutcome::local_unreachable());
    assert_eq!(state.get_boot_outcome(), Some(BootOutcome::local_unreachable()));
}

#[test]
fn external_urls() {
    assert_eq!(open_external("https://x"), Ok(()));
    assert_eq!(open_external("http://x"), Ok(()));
    assert_eq!(open_external("mailto:a@b"), Ok(()));
    assert_eq!(
        open_external("file:///etc/passwd"),
        Err("refusing to open non-http(s) url: file:///etc/passwd".to_string())
    );
    assert!(is_desktop());
    let c = RuntimeConfig::for_local_origin("o".into(), 1, facts("linux"));
    let p = platform_info(&c);
    assert_eq!(p.runtime, "tauri");
    assert_eq!(p.os, "linux");
    assert_eq!(p.version, "1.2.3");
}

#[test]
fn initialization_script_writes_runtime_headers_as_json() {
    let mut c = RuntimeConfig::for_local_origin("o".into(), 1, facts("linux"));
    c.runtime_headers = JsonValue::Object(vec![
        JsonMember { key: "x-a".into(), value: JsonValue::Str("v\"</script>".into()) },
        JsonMember { key: "n".into(), value: JsonValue::Number(JsonNumber::NegInt(-3)) },
    ]);
    let script = build_initialization_script(&c);
    assert!(script.contains(
        "window.__OPENCHAMBER_RUNTIME_HEADERS__ = {\"x-a\":\"v\\\"</script>\",\"n\":-3};"
    ));
}

#[test]
fn json_text_matches_serde_json() {
    let v = JsonValue::Array(vec![
        JsonValue::Null,
        JsonValue::Bool(true),
        JsonValue::Number(JsonNumber::PosInt(18446744073709551615)),
        JsonValue::Number(JsonNumber::NegInt(-9223372036854775808)),
        JsonValue::Number(JsonNumber::Float("1.5".into())),
        JsonValue::Str("tab\t nl\n bell\u{7} quote\" slash\\ é".into()),
        JsonValue::Object(vec![
            JsonMember { key: "a".into(), value: JsonValue::Array(vec![]) },
            JsonMember { key: "b\u{1}".into(), value: JsonValue::Object(vec![]) },
        ]),
    ]);
    let text = to_json_text(&v);
    assert_eq!(
        text,
        "[null,true,18446744073709551615,-9223372036854775808,1.5,\"tab\\t nl\\n bell\\u0007 quote\\\" slash\\\\ é\",{\"a\":[],\"b\\u0001\":{}}]"
    );
    let parsed: serde_json::Value = serde_json::from_str(&text).unwrap();
    assert_eq!(serde_json::to_string(&parsed).unwrap(), text);
    assert_eq!(
        to_json_text(&JsonValue::Str("\u{8}\u{c}\r\u{1f}".into())),
        "\"\\b\\f\\r\\u001f\""
    );
}

#[test]
fn boot_outcome_with_hostile_strings_parses_back() {
    let o = BootOutcome { target: Some("a\"};alert(1);//\n".into()), status: "</script>\\".into() };
    let script = o.as_injection_script();
    let json = script
        .strip_prefix("window.__OPENCHAMBER_DESKTOP_BOOT_OUTCOME__=")
        .unwrap()
        .strip_suffix(';')
        .unwrap();
    let back: serde_json::Value = serde_json::from_str(json).unwrap();
    assert_eq!(back["target"], "a\"};alert(1);//\n");
    assert_eq!(back["status"], "</script>\\");
}
