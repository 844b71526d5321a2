use openchamber_tauri::commands::process::{list_sessions_text, open_session_text};
use openchamber_tauri::commands::process::{
    abort_session, abort_session_url, list_sessions, open_session, open_session_body,
    openchamber_base, pick_opencode_binary, server_endpoints, session_from_json, sessions_url,
    SessionHandle,
};
use openchamber_tauri::json::{JsonMember, JsonNumber, JsonValue};
use openchamber_tauri::process::PathProbe;

fn s(t: &str) -> JsonValue {
    JsonValue::Str(t.to_string())
}

fn obj(members: Vec<(&str, JsonValue)>) -> JsonValue {
    JsonValue::Object(
        members
            .into_iter()
            .map(|(k, v)| JsonMember { key: k.to_string(), value: v })
            .collect(),
    )
}

#[test]
fn endpoints_default_and_override() {
    let e = server_endpoints(None, None, None);
    assert_eq!(e.openchamber_url, "http://127.0.0.1:57123");
    assert_eq!(e.opencode_url, "http://127.0.0.1:4096");
    assert_eq!(e.opencode_auth, None);
    let e = server_endpoints(Some("http://a".into()), Some("http://b".into()), Some("pw".into()));
    assert_eq!(e.openchamber_url, "http://a");
    assert_eq!(e.opencode_url, "http://b");
    assert_eq!(e.opencode_auth, Some("pw".to_string()));
    assert_eq!(openchamber_base(None), "http://127.0.0.1:57123");
}

#[test]
fn session_urls() {
    assert_eq!(sessions_url("http://127.0.0.1:57123/"), "http://127.0.0.1:57123/session");
    assert_eq!(abort_session_url("http://h//", "ses_1"), "http://h/session/ses_1/abort");
}

#[test]
fn open_session_request_body() {
    assert_eq!(
        open_session_body(Some("p1".into()), None),
        obj(vec![("parentID", s("p1")), ("title", JsonValue::Null)])
    );
    assert_eq!(
        open_session_body(None, Some("T".into())),
        obj(vec![("parentID", JsonValue::Null), ("title", s("T"))])
    );
}

#[test]
fn session_from_description() {
    let v = obj(vec![("id", s("ses_9")), ("title", s("Hello")), ("parentID", JsonValue::Null)]);
    assert_eq!(
        session_from_json(&v),
        SessionHandle { id: "ses_9".into(), title: Some("Hello".into()), parent_id: None }
    );
    let v = obj(vec![("id", JsonValue::Number(JsonNumber::PosInt(1)))]);
    assert_eq!(session_from_json(&v), SessionHandle { id: "".into(), title: None, parent_id: None });
}

#[test]
fn open_session_outcomes() {
    let ok = open_session(200, "OK", Ok(obj(vec![("id", s("a")), ("parentID", s("p"))]))).unwrap();
    assert_eq!(ok, SessionHandle { id: "a".into(), title: None, parent_id: Some("p".into()) });
    assert_eq!(
        open_session(500, "500 Internal Server Error", Ok(obj(vec![]))),
        Err("open_session failed: 500 Internal Server Error".to_string())
    );
    assert_eq!(open_session(201, "Created", Err("bad json".into())), Err("bad json".to_string()));
}

#[test]
fn abort_outcomes() {
    assert!(abort_session(200));
    assert!(abort_session(204));
    assert!(!abort_session(404));
    assert!(!abort_session(199));
}

#[test]
fn list_sessions_outcomes() {
    let items = vec![obj(vec![("id", s("a"))]), obj(vec![("id", s("b")), ("title", s("B"))])];
    let out = list_sessions(200, "OK", Ok(items)).unwrap();
    assert_eq!(out.len(), 2);
    assert_eq!(out[0].id, "a");
    assert_eq!(out[1].title, Some("B".to_string()));
    assert_eq!(
        list_sessions(401, "401 Unauthorized", Ok(vec![])),
        Err("list_sessions failed: 401 Unauthorized".to_string())
    );
    assert_eq!(list_sessions(200, "OK", Err("not an array".into())), Err("not an array".to_string()));
}

#[test]
fn picks_first_named_binary() {
    let probes = vec![
        PathProbe { path: "/missing".into(), is_file: false },
        PathProbe { path: "/opt/opencode".into(), is_file: true },
    ];
    assert_eq!(pick_opencode_binary(&probes), Some("/opt/opencode".to_string()));
    assert_eq!(pick_opencode_binary(&vec![]), None);
}

#[test]
fn session_bodies_are_parsed_by_the_library() {
    assert_eq!(
        open_session_text(200, "200 OK", Ok("{\"id\":\"s1\",\"title\":\"T\"}".into())),
        Ok(SessionHandle { id: "s1".into(), title: Some("T".into()), parent_id: None })
    );
    assert_eq!(
        open_session_text(200, "200 OK", Ok("not json".into())),
        Err("error decoding response body".to_string())
    );
    assert_eq!(
        open_session_text(200, "200 OK", Err("request or response body error".into())),
        Err("request or response body error".to_string())
    );
    assert_eq!(
        open_session_text(404, "404 Not Found", Ok("{}".into())),
        Err("open_session failed: 404 Not Found".to_string())
    );
    let out = list_sessions_text(200, "200 OK", Ok("[{\"id\":\"a\"},{\"id\":\"b\",\"parentID\":\"a\"}]".into()))
        .unwrap();
    assert_eq!(out.len(), 2);
    assert_eq!(out[1].parent_id, Some("a".to_string()));
    assert_eq!(
        list_sessions_text(200, "200 OK", Ok("{\"id\":\"a\"}".into())),
        Err("error decoding response body".to_string())
    );
    assert_eq!(
        list_sessions_text(500, "500 Internal Server Error", Ok("[]".into())),
        Err("list_sessions failed: 500 Internal Server Error".to_string())
    );
}
