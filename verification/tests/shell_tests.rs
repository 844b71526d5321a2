use openchamber_tauri::bootstrap::{
    local_url, main_window_url, port_or_default, DEFAULT_OPENCHAMBER_PORT, DEFAULT_OPENCODE_PORT,
};
use openchamber_tauri::commands::files::{
    open_dialog_result, open_file_dialog, read_text_file_error, save_file_dialog,
    write_text_file_error, DialogFilter, OpenDialogOptions, PickMode, SaveDialogOptions,
};
use openchamber_tauri::commands::updates::{check_for_update, UpdateCheck, UpdateStatus};
use openchamber_tauri::commands::window::{
    new_mini_chat_window, set_tray_visible, MiniChatAction, MAIN_WINDOW_LABEL, MINI_CHAT_LABEL,
};
use openchamber_tauri::process::port_from_url;
use openchamber_tauri::run;
use openchamber_tauri::runtime_config::HostFacts;

fn facts() -> HostFacts {
    HostFacts {
        home: Some("/home/me".into()),
        user_profile: None,
        macos_major: None,
        os: "linux".into(),
        arch: "x86_64".into(),
        app_version: "0.9.0".into(),
    }
}

#[test]
fn ports_from_environment() {
    assert_eq!(port_or_default(None, 57123), 57123);
    assert_eq!(port_or_default(Some("8080"), 57123), 8080);
    assert_eq!(port_or_default(Some("65535"), 1), 65535);
    assert_eq!(port_or_default(Some("65536"), 1), 1);
    assert_eq!(port_or_default(Some("-1"), 7), 7);
    assert_eq!(port_or_default(Some(""), 7), 7);
    assert_eq!(port_or_default(Some(" 80"), 7), 7);
    assert_eq!(port_or_default(Some("+8080"), 7), 8080);
    assert_eq!(port_or_default(Some("+"), 7), 7);
}

#[test]
fn local_urls() {
    assert_eq!(local_url(57123), "http://127.0.0.1:57123");
    assert_eq!(local_url(0), "http://127.0.0.1:0");
}

#[test]
fn boot_plan_defaults() {
    let plan = run(None, None, facts());
    assert_eq!(plan.openchamber_port, DEFAULT_OPENCHAMBER_PORT);
    assert_eq!(plan.opencode_port, DEFAULT_OPENCODE_PORT);
    assert_eq!(plan.openchamber_url, "http://127.0.0.1:57123");
    assert_eq!(plan.opencode_url, "http://127.0.0.1:4096");
    assert_eq!(plan.runtime_config.local_origin, "http://127.0.0.1:57123");
    assert_eq!(plan.runtime_config.home_directory, "/home/me");
}

#[test]
fn boot_plan_from_environment() {
    let plan = run(Some("9000"), Some("nope"), facts());
    assert_eq!(plan.openchamber_port, 9000);
    assert_eq!(plan.opencode_port, 4096);
    assert_eq!(plan.openchamber_url, "http://127.0.0.1:9000");
}

#[test]
fn boot_url_port_parses_back() {
    let plan = run(Some("12345"), None, facts());
    assert_eq!(port_from_url(&plan.openchamber_url), Ok(12345));
    assert_eq!(port_from_url(&plan.opencode_url), Ok(4096));
}

#[test]
fn main_window_page() {
    assert_eq!(main_window_url(false, Some("http://x".into())), "index.html");
    assert_eq!(main_window_url(true, None), "http://localhost:5173");
    assert_eq!(main_window_url(true, Some("http://dev:1".into())), "http://dev:1");
}

#[test]
fn mini_chat_window() {
    assert_eq!(new_mini_chat_window(true, false, None), MiniChatAction::FocusExisting);
    assert_eq!(
        new_mini_chat_window(false, false, None),
        MiniChatAction::Open { url: "mini-chat.html".into() }
    );
    assert_eq!(
        new_mini_chat_window(false, true, None),
        MiniChatAction::Open { url: "http://localhost:5173".into() }
    );
    assert_eq!(MINI_CHAT_LABEL, "mini-chat");
    assert_eq!(MAIN_WINDOW_LABEL, "main");
    assert_eq!(set_tray_visible(true), Ok(()));
}

#[test]
fn open_dialogs() {
    let opts = |directory, multiple, title: Option<&str>| OpenDialogOptions {
        title: title.map(|t| t.to_string()),
        default_path: Some("/tmp".into()),
        directory,
        filters: vec![DialogFilter { name: "Text".into(), extensions: vec!["txt".into()] }],
        multiple,
    };
    let p = open_file_dialog(opts(Some(true), Some(true), None));
    assert_eq!(p.mode, PickMode::Folder);
    assert_eq!(p.title, "Open");
    assert_eq!(p.start_directory, Some("/tmp".to_string()));
    assert_eq!(open_file_dialog(opts(None, Some(true), Some("Pick"))).mode, PickMode::Files);
    assert_eq!(open_file_dialog(opts(None, Some(true), Some("Pick"))).title, "Pick");
    assert_eq!(open_file_dialog(opts(Some(false), None, None)).mode, PickMode::File);
}

#[test]
fn open_dialog_answers() {
    let r = open_dialog_result(Some("/a.txt".into()));
    assert_eq!(r.path, Some("/a.txt".to_string()));
    assert_eq!(r.paths, vec!["/a.txt".to_string()]);
    let r = open_dialog_result(None);
    assert_eq!(r.path, None);
    assert!(r.paths.is_empty());
}

#[test]
fn save_dialogs() {
    let p = save_file_dialog(SaveDialogOptions { title: None, default_path: Some("out.md".into()), filters: vec![] });
    assert_eq!(p.title, "Save");
    assert_eq!(p.file_name, Some("out.md".to_string()));
    let p = save_file_dialog(SaveDialogOptions { title: Some("Export".into()), default_path: None, filters: vec![] });
    assert_eq!(p.title, "Export");
    assert_eq!(p.file_name, None);
}

#[test]
fn text_file_errors() {
    assert_eq!(read_text_file_error("/x", "not found"), "read_text_file(/x): not found");
    assert_eq!(write_text_file_error("/y", "denied"), "write_text_file(/y): denied");
}

#[test]
fn update_statuses() {
    let st = check_for_update(UpdateCheck::Available {
        version: "1.1.0".into(),
        notes: Some("fixes".into()),
        date: None,
    });
    assert_eq!(
        st,
        UpdateStatus {
            available: true,
            version: Some("1.1.0".into()),
            notes: Some("fixes".into()),
            date: None,
            error: None
        }
    );
    let st = check_for_update(UpdateCheck::UpToDate);
    assert!(!st.available);
    assert_eq!(st.version, None);
    let st = check_for_update(UpdateCheck::Failed { error: "offline".into() });
    assert!(!st.available);
    assert_eq!(st.error, Some("offline".to_string()));
}
