use openchamber_tauri::commands::settings::read_settings_text;
use openchamber_tauri::commands::settings::{
    get_desktop_hosts, get_settings, read_settings_file, set_desktop_hosts, set_settings,
    settings_path, settings_tmp_extension, SETTINGS_FILE_NAME,
};
use openchamber_tauri::json::{JsonMember, JsonNumber, JsonValue};

fn s(t: &str) -> JsonValue {
    JsonValue::Str(t.to_string())
}

fn obj(members: Vec<(&str, JsonValue)>) -> JsonValue {
    JsonValue::Object(
        members
            .into_iter()
            .map(|(k, v)| JsonMember { key: k.to_string(), value: v })
            .collect(),
    )
}

#[test]
fn settings_path_from_data_dir() {
    assert_eq!(
        settings_path(Some("/data".into()), Some("/home/u".into()), None),
        vec!["/data", "settings.json"]
    );
    assert_eq!(SETTINGS_FILE_NAME, "settings.json");
}

#[test]
fn settings_path_blank_data_dir_uses_home() {
    assert_eq!(
        settings_path(Some("  ".into()), Some("/home/u".into()), None),
        vec!["/home/u", ".config", "openchamber", "settings.json"]
    );
    assert_eq!(
        settings_path(None, None, Some("C:\\Users\\u".into())),
        vec!["C:\\Users\\u", ".config", "openchamber", "settings.json"]
    );
    assert_eq!(settings_path(None, None, None), vec![".", ".config", "openchamber", "settings.json"]);
}

#[test]
fn damaged_settings_read_as_empty_object() {
    assert_eq!(read_settings_file(None), JsonValue::Object(vec![]));
    assert_eq!(read_settings_file(Some(JsonValue::Array(vec![]))), JsonValue::Object(vec![]));
    let v = || obj(vec![("theme", s("dark"))]);
    assert_eq!(read_settings_file(Some(v())), v());
}

#[test]
fn tmp_extension() {
    assert_eq!(settings_tmp_extension(42, 1700000000123456789), "tmp-42-1700000000123456789");
    assert_eq!(settings_tmp_extension(0, 0), "tmp-0-0");
}

#[test]
fn set_settings_requires_object() {
    let v = || obj(vec![("a", JsonValue::Bool(true))]);
    assert_eq!(set_settings(v()), Ok(v()));
    assert_eq!(get_settings(v()), v());
    assert_eq!(set_settings(s("x")), Err("settings root must be an object".to_string()));
}

#[test]
fn desktop_hosts_default_to_empty_array() {
    assert_eq!(get_desktop_hosts(obj(vec![])), JsonValue::Array(vec![]));
    let hosts = || JsonValue::Array(vec![obj(vec![("id", s("h1"))])]);
    assert_eq!(get_desktop_hosts(obj(vec![("desktopHosts", hosts())])), hosts());
}

#[test]
fn desktop_hosts_read_after_write() {
    let root = obj(vec![("theme", s("dark")), ("desktopHosts", JsonValue::Array(vec![]))]);
    let hosts = || {
        JsonValue::Array(vec![obj(vec![
            ("id", s("h1")),
            ("port", JsonValue::Number(JsonNumber::PosInt(3))),
        ])])
    };
    let new = set_desktop_hosts(root, hosts()).unwrap();
    assert_eq!(new.get_str("theme"), Some("dark".to_string()));
    assert_eq!(get_desktop_hosts(new), hosts());
}

#[test]
fn desktop_hosts_must_be_array() {
    assert_eq!(
        set_desktop_hosts(obj(vec![]), obj(vec![])),
        Err("hosts must be an array".to_string())
    );
    assert_eq!(set_desktop_hosts(s("x"), JsonValue::Array(vec![])), Ok(s("x")));
}

#[test]
fn settings_read_after_write() {
    let v = || obj(vec![("a", s("b"))]);
    let written = set_settings(v()).unwrap();
    assert_eq!(read_settings_file(Some(written)), v());
}

#[test]
fn settings_text_is_parsed_by_the_library() {
    assert_eq!(read_settings_text(None), JsonValue::Object(vec![]));
    assert_eq!(read_settings_text(Some("not json")), JsonValue::Object(vec![]));
    assert_eq!(read_settings_text(Some("[1,2]")), JsonValue::Object(vec![]));
    assert_eq!(
        read_settings_text(Some("{\"theme\": \"dark\", \"n\": -2, \"f\": 1.5}")),
        obj(vec![
            ("f", JsonValue::Number(JsonNumber::Float("1.5".into()))),
            ("n", JsonValue::Number(JsonNumber::NegInt(-2))),
            ("theme", s("dark")),
        ])
    );
}
