//! Session commands: the endpoints of the local servers and the opencode
//! session API reached through the OpenChamber server.

use vstd::prelude::*;

use crate::deps::parsed_json;
use crate::json::JsonValue;
use crate::json_text::json_from_text;
use crate::process::{first_file, first_file_of, text_of, PathProbe, ServerEndpoints, non_empty, filter_non_empty};
use crate::text::{trim_end_char, trim_end_slashes};

verus! {

/// An opencode session.
#[derive(Debug, PartialEq)]
pub struct SessionHandle {
    pub id: String,
    pub title: Option<String>,
    pub parent_id: Option<String>,
}

/// Where the OpenChamber server is reached unless `OPENCHAMBER_URL` says otherwise.
pub open spec fn default_openchamber_url() -> Seq<char> {
    "http://127.0.0.1:57123"@
}

/// Where the opencode server is reached unless `OPENCODE_URL` says otherwise.
pub open spec fn default_opencode_url() -> Seq<char> {
    "http://127.0.0.1:4096"@
}

pub open spec fn text_or(o: Option<String>, d: Seq<char>) -> Seq<char> {
    match o {
        Some(s) => s@,
        None => d,
    }
}

/// The OpenChamber server's base URL: `OPENCHAMBER_URL`, else the default.
pub fn openchamber_base(env: Option<String>) -> (r: String)
    ensures
        r@ == text_or(env, default_openchamber_url()),
{
    match env {
        Some(u) => u,
        None => "http://127.0.0.1:57123".to_owned(),
    }
}

/// `server_endpoints`: `OPENCHAMBER_URL` and `OPENCODE_URL` (or their
/// defaults), and `OPENCODE_SERVER_PASSWORD` when non-empty.
pub fn server_endpoints(
    openchamber_env: Option<String>,
    opencode_env: Option<String>,
    password: Option<String>,
) -> (r: ServerEndpoints)
    ensures
        r.openchamber_url@ == text_or(openchamber_env, default_openchamber_url()),
        r.opencode_url@ == text_or(opencode_env, default_opencode_url()),
        text_of(r.opencode_auth) == non_empty(text_of(password)),
{
    ServerEndpoints {
        openchamber_url: openchamber_base(openchamber_env),
        opencode_url: match opencode_env {
            Some(u) => u,
            None => "http://127.0.0.1:4096".to_owned(),
        },
        opencode_auth: filter_non_empty(password),
    }
}

/// The sessions endpoint: the base URL without trailing slashes, then `/session`.
pub fn sessions_url(base: &str) -> (r: String)
    ensures
        r@ == trim_end_char(base@, '/') + "/session"@,
{
    trim_end_slashes(base).to_owned().concat("/session")
}

/// The abort endpoint of session `id`.
pub fn abort_session_url(base: &str, id: &str) -> (r: String)
    ensures
        r@ == trim_end_char(base@, '/') + "/session/"@ + id@ + "/abort"@,
{
    trim_end_slashes(base).to_owned().concat("/session/").concat(id).concat("/abort")
}

pub open spec fn json_text_or_null(o: Option<String>, v: Option<JsonValue>) -> bool {
    match o {
        Some(s) => v matches Some(x) && x.str_spec() == Some(s@),
        None => v == Some(JsonValue::Null),
    }
}

fn string_or_null(o: Option<String>) -> (r: JsonValue)
    ensures
        json_text_or_null(o, Some(r)),
{
    match o {
        Some(s) => JsonValue::Str(s),
        None => JsonValue::Null,
    }
}

/// The body of `open_session`: `{ parentID, title }`, each a string or `null`.
pub fn open_session_body(parent_id: Option<String>, title: Option<String>) -> (r: JsonValue)
    ensures
        r is Object,
        json_text_or_null(parent_id, r.get_spec("parentID"@)),
        json_text_or_null(title, r.get_spec("title"@)),
        forall|k: Seq<char>| k != "parentID"@ && k != "title"@ ==> #[trigger] r.get_spec(k) is None,
{
    proof {
        reveal_strlit("parentID");
        reveal_strlit("title");
    }
    let body = JsonValue::empty_object();
    let body = body.with_member("parentID".to_owned(), string_or_null(parent_id));
    let body = body.with_member("title".to_owned(), string_or_null(title));
    assert("parentID"@ != "title"@) by {
        assert("parentID"@.len() != "title"@.len());
    }
    body
}

/// `s` is the session described by `v`: its `id` (or `""`), and its `title`
/// and `parentID` when they are strings.
pub open spec fn session_of(v: JsonValue, s: SessionHandle) -> bool {
    &&& s.id@ == (match v.str_member("id"@) {
        Some(i) => i,
        None => ""@,
    })
    &&& text_of(s.title) == v.str_member("title"@)
    &&& text_of(s.parent_id) == v.str_member("parentID"@)
}

/// Reads a session out of its JSON description.
pub fn session_from_json(v: &JsonValue) -> (r: SessionHandle)
    ensures
        session_of(*v, r),
{
    SessionHandle {
        id: match v.get_str("id") {
            Some(i) => i,
            None => "".to_owned(),
        },
        title: v.get_str("title"),
        parent_id: v.get_str("parentID"),
    }
}

pub open spec fn is_success_status(status: u16) -> bool {
    200 <= status < 300
}

/// `open_session` once the server answered with `status` (shown as
/// `status_text`) and, on success, a body read as JSON (or the reason it could
/// not be): a non-success status fails, and so does an unreadable body.
pub fn open_session(status: u16, status_text: &str, body: Result<JsonValue, String>) -> (r: Result<
    SessionHandle,
    String,
>)
    ensures
        !is_success_status(status) ==> (r matches Err(e) && e@ == "open_session failed: "@ + status_text@),
        is_success_status(status) ==> match body {
            Ok(v) => r matches Ok(s) && session_of(v, s),
            Err(e) => r matches Err(m) && m@ == e@,
        },
{
    if !(200 <= status && status < 300) {
        return Err("open_session failed: ".to_owned().concat(status_text));
    }
    match body {
        Ok(v) => Ok(session_from_json(&v)),
        Err(e) => Err(e),
    }
}

/// `abort_session`: whether the server answered with success.
pub fn abort_session(status: u16) -> (r: bool)
    ensures
        r == is_success_status(status),
{
    200 <= status && status < 300
}

/// `list_sessions` once the server answered: a non-success status fails, an
/// unreadable body fails, and each element of the array describes a session.
pub fn list_sessions(status: u16, status_text: &str, body: Result<Vec<JsonValue>, String>) -> (r:
    Result<Vec<SessionHandle>, String>)
    ensures
        !is_success_status(status) ==> (r matches Err(e) && e@ == "list_sessions failed: "@ + status_text@),
        is_success_status(status) ==> match body {
            Ok(items) => r matches Ok(ss) && ss@.len() == items@.len() && forall|i: int|
                0 <= i < items@.len() ==> session_of(#[trigger] items@[i], ss@[i]),
            Err(e) => r matches Err(m) && m@ == e@,
        },
{
    if !(200 <= status && status < 300) {
        return Err("list_sessions failed: ".to_owned().concat(status_text));
    }
    let items = match body {
        Ok(items) => items,
        Err(e) => return Err(e),
    };
    let mut out: Vec<SessionHandle> = Vec::new();
    let n = items.len();
    let mut i: usize = 0;
    while i < n
        invariant
            n == items@.len(),
            i <= n,
            out@.len() == i,
            forall|j: int| 0 <= j < i ==> session_of(#[trigger] items@[j], out@[j]),
        decreases n - i,
    {
        out.push(session_from_json(&items[i]));
        i = i + 1;
    }
    Ok(out)
}

/// The error of a response body that is not the JSON expected
/// (`reqwest::Response::json`'s decode error).
pub open spec fn decode_error() -> Seq<char> {
    "error decoding response body"@
}

/// A read body parsed as JSON: the read error, the parsed value, or the
/// decode error when the text is not JSON.
pub open spec fn body_json(body: Result<String, String>) -> Result<JsonValue, Seq<char>> {
    match body {
        Err(e) => Err(e@),
        Ok(t) => match parsed_json(t@) {
            Some(v) => Ok(v),
            None => Err(decode_error()),
        },
    }
}

fn parse_body(body: Result<String, String>) -> (r: Result<JsonValue, String>)
    ensures
        match body_json(body) {
            Ok(v) => r == Ok::<JsonValue, String>(v),
            Err(e) => r matches Err(m) && m@ == e,
        },
{
    match body {
        Err(e) => Err(e),
        Ok(t) => match json_from_text(t.as_str()) {
            Some(v) => Ok(v),
            None => Err("error decoding response body".to_owned()),
        },
    }
}

/// `open_session` once the server answered with `status` (shown as
/// `status_text`) and, on success, the body's text (or the reason it could not
/// be read): the body is parsed here as JSON.
pub fn open_session_text(status: u16, status_text: &str, body: Result<String, String>) -> (r: Result<
    SessionHandle,
    String,
>)
    ensures
        !is_success_status(status) ==> (r matches Err(e) && e@ == "open_session failed: "@ + status_text@),
        is_success_status(status) ==> match body_json(body) {
            Ok(v) => r matches Ok(s) && session_of(v, s),
            Err(e) => r matches Err(m) && m@ == e,
        },
{
    if !(200 <= status && status < 300) {
        return Err("open_session failed: ".to_owned().concat(status_text));
    }
    open_session(status, status_text, parse_body(body))
}

/// A read body parsed as a JSON array: its elements, or the read error, or the
/// decode error when the text is not a JSON array.
pub open spec fn body_items(body: Result<String, String>) -> Result<Seq<JsonValue>, Seq<char>> {
    match body_json(body) {
        Ok(JsonValue::Array(items)) => Ok(items@),
        Ok(_) => Err(decode_error()),
        Err(e) => Err(e),
    }
}

/// `list_sessions` once the server answered with `status` (shown as
/// `status_text`) and, on success, the body's text (or the reason it could not
/// be read): the body is parsed here as a JSON array of session descriptions.
pub fn list_sessions_text(status: u16, status_text: &str, body: Result<String, String>) -> (r:
    Result<Vec<SessionHandle>, String>)
    ensures
        !is_success_status(status) ==> (r matches Err(e) && e@ == "list_sessions failed: "@ + status_text@),
        is_success_status(status) ==> match body_items(body) {
            Ok(items) => r matches Ok(ss) && ss@.len() == items.len() && forall|i: int|
                0 <= i < items.len() ==> session_of(#[trigger] items[i], ss@[i]),
            Err(e) => r matches Err(m) && m@ == e,
        },
{
    if !(200 <= status && status < 300) {
        return Err("list_sessions failed: ".to_owned().concat(status_text));
    }
    let items = match parse_body(body) {
        Ok(JsonValue::Array(items)) => Ok(items),
        Ok(_) => Err("error decoding response body".to_owned()),
        Err(e) => Err(e),
    };
    list_sessions(status, status_text, items)
}

/// `pick_opencode_binary`: the first of the opencode variables (in the order of
/// `opencode_binary_vars`) that names a file.
pub fn pick_opencode_binary(probes: &Vec<PathProbe>) -> (r: Option<String>)
    ensures
        text_of(r) == first_file_of(probes@),
{
    first_file(probes)
}

} // verus!
