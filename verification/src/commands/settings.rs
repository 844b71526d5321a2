//! The settings document: where it lives, how a damaged file is read, and the
//! commands that read and replace it or its desktop hosts.

use vstd::prelude::*;

use crate::deps::{parse_json, parsed_json};
use crate::json::JsonValue;
use crate::runtime_config::{home_or, opt_text};
use crate::text::{decimal, decimal_string, is_blank, trim_ws};

verus! {

/// The settings file's name.
pub const SETTINGS_FILE_NAME: &'static str = "settings.json";

/// A desktop host the user can switch to.
#[derive(Debug, PartialEq)]
pub struct HostEntry {
    pub id: String,
    pub label: String,
    pub url: Option<String>,
    pub api_url: Option<String>,
    pub client_token: Option<String>,
    pub request_headers: JsonValue,
    pub relay: Option<RelayDescriptor>,
}

/// How a host is reached through a relay.
#[derive(Debug, PartialEq)]
pub struct RelayDescriptor {
    pub relay_url: String,
    pub server_id: String,
    pub host_enc_pub_jwk: JsonValue,
}

pub open spec fn texts(v: Vec<String>) -> Seq<Seq<char>> {
    v@.map_values(|s: String| s@)
}

/// The components of the settings path, to be joined in order:
/// `$OPENCHAMBER_DATA_DIR/settings.json` when that variable is set and not
/// blank, else `<home>/.config/openchamber/settings.json` with the home from
/// `HOME`, else `USERPROFILE`, else `.`.
pub fn settings_path(data_dir: Option<String>, home: Option<String>, user_profile: Option<String>) -> (r:
    Vec<String>)
    ensures
        match data_dir {
            Some(d) if trim_ws(d@).len() != 0 => texts(r) == seq![d@, "settings.json"@],
            _ => texts(r) == seq![
                home_or(opt_text(home), opt_text(user_profile), "."@),
                ".config"@,
                "openchamber"@,
                "settings.json"@,
            ],
        },
{
    let mut v: Vec<String> = Vec::new();
    match data_dir {
        Some(d) => {
            if !is_blank(d.as_str()) {
                let ghost dv = d@;
                v.push(d);
                v.push(SETTINGS_FILE_NAME.to_owned());
                assert(texts(v) =~= seq![dv, "settings.json"@]);
                return v;
            }
        },
        None => {},
    }
    let h = crate::runtime_config::home_directory(home, user_profile);
    let ghost hv = h@;
    v.push(h);
    v.push(".config".to_owned());
    v.push("openchamber".to_owned());
    v.push(SETTINGS_FILE_NAME.to_owned());
    assert(texts(v) =~= seq![hv, ".config"@, "openchamber"@, "settings.json"@]);
    v
}

/// `r` is the document read from a file whose contents parsed as `parsed`:
/// an object read as is, anything else as an empty object.
pub open spec fn settings_read(parsed: Option<JsonValue>, r: JsonValue) -> bool {
    &&& r is Object
    &&& match parsed {
        Some(v) => if v is Object {
            r == v
        } else {
            forall|k: Seq<char>| #[trigger] r.get_spec(k) is None
        },
        None => forall|k: Seq<char>| #[trigger] r.get_spec(k) is None,
    }
}

/// The settings document read from a file whose contents parsed as `parsed`
/// (`None` when the file could not be read or was not JSON): the parsed value
/// when it is an object, else an empty object.
pub fn read_settings_file(parsed: Option<JsonValue>) -> (r: JsonValue)
    ensures
        settings_read(parsed, r),
{
    match parsed {
        Some(v) => if v.is_object() {
            v
        } else {
            JsonValue::empty_object()
        },
        None => JsonValue::empty_object(),
    }
}

/// The settings document read from the text of the settings file (`None`
/// when it could not be read): the text parsed as JSON when that gives an
/// object, else an empty object.
pub fn read_settings_text(text: Option<&str>) -> (r: JsonValue)
    ensures
        settings_read(
            match text {
                Some(t) => parsed_json(t@),
                None => None,
            },
            r,
        ),
{
    let parsed = match text {
        Some(t) => parse_json(t),
        None => None,
    };
    read_settings_file(parsed)
}

/// The extension of the temporary file a settings write goes through:
/// `tmp-<pid>-<nanoseconds>`.
pub fn settings_tmp_extension(pid: u32, nanos: u128) -> (r: String)
    ensures
        r@ == "tmp-"@ + decimal(pid as nat) + "-"@ + decimal(nanos as nat),
{
    "tmp-".to_owned().concat(decimal_string(pid as u128).as_str()).concat("-").concat(
        decimal_string(nanos).as_str(),
    )
}

/// `get_settings`: the settings document.
pub fn get_settings(root: JsonValue) -> (r: JsonValue)
    ensures
        r == root,
{
    root
}

/// `r` is what `set_settings` answers for `value`: the value itself when it is
/// an object, else an error.
pub open spec fn settings_accepted(value: JsonValue, r: Result<JsonValue, String>) -> bool {
    &&& value is Object ==> r == Ok::<JsonValue, String>(value)
    &&& !(value is Object) ==> (r matches Err(e) && e@ == "settings root must be an object"@)
}

/// `set_settings`: a new settings document must be an object; it is written
/// and returned as is.
pub fn set_settings(value: JsonValue) -> (r: Result<JsonValue, String>)
    ensures
        settings_accepted(value, r),
{
    if !value.is_object() {
        return Err("settings root must be an object".to_owned());
    }
    Ok(value)
}

/// `r` is what `get_desktop_hosts` reads from `root`: the stored hosts, or an
/// empty array.
pub open spec fn hosts_read(root: JsonValue, r: JsonValue) -> bool {
    match root.get_spec("desktopHosts"@) {
        Some(h) => r == h,
        None => r.array_spec() == Some(Seq::<JsonValue>::empty()),
    }
}

/// `new` is `root` with its stored hosts replaced by `hosts`.
pub open spec fn hosts_written(root: JsonValue, hosts: JsonValue, new: JsonValue) -> bool {
    &&& new is Object
    &&& new.get_spec("desktopHosts"@) == Some(hosts)
    &&& forall|k: Seq<char>| k != "desktopHosts"@ ==> #[trigger] new.get_spec(k) == root.get_spec(k)
}

/// `get_desktop_hosts`: the stored hosts, or an empty array.
pub fn get_desktop_hosts(root: JsonValue) -> (r: JsonValue)
    ensures
        hosts_read(root, r),
{
    match root.into_member("desktopHosts") {
        Some(h) => h,
        None => JsonValue::empty_array(),
    }
}

/// `set_desktop_hosts`: the hosts must be an array; they replace the stored
/// hosts of an object document (a document that is not an object is written
/// back unchanged).
pub fn set_desktop_hosts(root: JsonValue, hosts: JsonValue) -> (r: Result<JsonValue, String>)
    ensures
        !(hosts is Array) ==> (r matches Err(e) && e@ == "hosts must be an array"@),
        hosts is Array && !(root is Object) ==> r == Ok::<JsonValue, String>(root),
        hosts is Array && root is Object ==> (r matches Ok(new) && hosts_written(root, hosts, new)),
{
    if !hosts.is_array() {
        return Err("hosts must be an array".to_owned());
    }
    if root.is_object() {
        Ok(root.with_member("desktopHosts".to_owned(), hosts))
    } else {
        Ok(root)
    }
}

/// Reading the hosts back after `set_desktop_hosts` gives the hosts written,
/// and every other setting is what it was.
pub proof fn law_desktop_hosts_read_after_write(
    root: JsonValue,
    hosts: JsonValue,
    new: JsonValue,
    read: JsonValue,
)
    requires
        hosts_written(root, hosts, new),
        hosts_read(new, read),
    ensures
        read == hosts,
        forall|k: Seq<char>| k != "desktopHosts"@ ==> #[trigger] new.get_spec(k) == root.get_spec(k),
{
}

/// A document that `set_settings` accepts reads back unchanged.
pub proof fn law_settings_read_after_write(value: JsonValue, written: JsonValue, read: JsonValue)
    requires
        settings_accepted(value, Ok::<JsonValue, String>(written)),
        settings_read(Some(written), read),
    ensures
        read == value,
{
}

} // verus!
