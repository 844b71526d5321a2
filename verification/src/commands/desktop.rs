//! The `desktop_*` command surface: desktop hosts stored in the settings
//! document, host probing, LAN address discovery, extra windows and the
//! shapes returned by the commands that are not backed by a native feature.

use vstd::prelude::*;

use crate::deps::{
    header_name_ok, header_value_ok, parse_url, parsed_url, valid_header_name, valid_header_value,
    parsed_json,
};
use crate::json_text::json_from_text;
use crate::commands::updates::UpdateCheck;
use crate::json::{JsonMember, JsonValue};
use crate::text::{
    contains, contains_char, decimal, decimal_string, is_blank, is_white_space, same_text,
    seq_contains, seq_starts_with, starts_with, trim, trim_end_char, trim_end_slashes, trim_ws,
    white_space,
};

verus! {

// ───────────────────────── hosts ─────────────────────────

/// The hosts configuration read by the UI's `desktopHostsGet()`.
#[derive(Debug, PartialEq)]
pub struct HostsConfig {
    pub hosts: JsonValue,
    pub default_host_id: String,
    pub initial_host_choice_completed: bool,
    pub local_client_token: String,
}

pub open spec fn seq_or(o: Option<Seq<char>>, d: Seq<char>) -> Seq<char> {
    match o {
        Some(s) => s,
        None => d,
    }
}

pub open spec fn bool_or(o: Option<bool>, d: bool) -> bool {
    match o {
        Some(b) => b,
        None => d,
    }
}

/// `c` is what `desktop_hosts_get` reports for the settings document `root`:
/// the stored hosts (or `[]`), the stored default host id (or `"local"`), the
/// stored initial-choice flag (or `false`) and the stored client token (or `""`).
pub open spec fn hosts_config_of(root: JsonValue, c: HostsConfig) -> bool {
    &&& match root.get_spec("desktopHosts"@) {
        Some(h) => c.hosts == h,
        None => c.hosts.array_spec() == Some(Seq::<JsonValue>::empty()),
    }
    &&& c.default_host_id@ == seq_or(root.str_member("desktopDefaultHostId"@), "local"@)
    &&& c.initial_host_choice_completed == bool_or(
        root.bool_member("desktopInitialHostChoiceCompleted"@),
        false,
    )
    &&& c.local_client_token@ == seq_or(root.str_member("desktopLocalClientToken"@), ""@)
}

/// Reads the hosts configuration out of the settings document `root`.
pub fn desktop_hosts_get(root: JsonValue) -> (r: HostsConfig)
    ensures
        hosts_config_of(root, r),
{
    let default_host_id = match root.get_str("desktopDefaultHostId") {
        Some(s) => s,
        None => "local".to_owned(),
    };
    let initial = match root.get_bool("desktopInitialHostChoiceCompleted") {
        Some(b) => b,
        None => false,
    };
    let local_client_token = desktop_local_client_token_get(&root);
    let hosts = match root.into_member("desktopHosts") {
        Some(h) => h,
        None => JsonValue::empty_array(),
    };
    HostsConfig {
        hosts,
        default_host_id,
        initial_host_choice_completed: initial,
        local_client_token,
    }
}

/// The client token stored in the settings document, or `""`.
pub fn desktop_local_client_token_get(root: &JsonValue) -> (r: String)
    ensures
        r@ == seq_or(root.str_member("desktopLocalClientToken"@), ""@),
{
    match root.get_str("desktopLocalClientToken") {
        Some(s) => s,
        None => "".to_owned(),
    }
}

/// The keys of the settings document that `desktop_hosts_set` writes.
pub open spec fn is_hosts_key(k: Seq<char>) -> bool {
    k == "desktopHosts"@ || k == "desktopDefaultHostId"@ || k
        == "desktopInitialHostChoiceCompleted"@ || k == "desktopLocalClientToken"@
}

/// Key `k` of `new` holds what it holds in `old`.
pub open spec fn kept(old: JsonValue, new: JsonValue, k: Seq<char>) -> bool {
    new.get_spec(k) == old.get_spec(k)
}

/// `new` is the settings document `root` after `desktop_hosts_set(input)`:
/// `hosts` is stored when present; `defaultHostId` and a non-empty
/// `localClientToken` are stored when they are strings; an empty
/// `localClientToken` removes the stored token; `initialHostChoiceCompleted`
/// is stored when it is a boolean; every other key is unchanged.
pub open spec fn hosts_set_result(root: JsonValue, input: JsonValue, new: JsonValue) -> bool {
    &&& new is Object
    &&& match input.get_spec("hosts"@) {
        Some(h) => new.get_spec("desktopHosts"@) == Some(h),
        None => kept(root, new, "desktopHosts"@),
    }
    &&& match input.str_member("defaultHostId"@) {
        Some(s) => new.str_member("desktopDefaultHostId"@) == Some(s),
        None => kept(root, new, "desktopDefaultHostId"@),
    }
    &&& match input.bool_member("initialHostChoiceCompleted"@) {
        Some(b) => new.get_spec("desktopInitialHostChoiceCompleted"@) == Some(JsonValue::Bool(b)),
        None => kept(root, new, "desktopInitialHostChoiceCompleted"@),
    }
    &&& match input.str_member("localClientToken"@) {
        Some(t) => if t.len() == 0 {
            new.get_spec("desktopLocalClientToken"@) is None
        } else {
            new.str_member("desktopLocalClientToken"@) == Some(t)
        },
        None => kept(root, new, "desktopLocalClientToken"@),
    }
    &&& forall|k: Seq<char>| !is_hosts_key(k) ==> #[trigger] new.get_spec(k) == root.get_spec(k)
}

/// Applies the UI's `desktopHostsSet(input)` to the settings document `root`.
/// Fails when the document is not an object.
pub fn desktop_hosts_set(root: JsonValue, input: JsonValue) -> (r: Result<JsonValue, String>)
    ensures
        r is Ok <==> root is Object,
        r matches Ok(new) ==> hosts_set_result(root, input, new),
        r matches Err(e) ==> e@ == "settings root must be an object"@,
{
    if !root.is_object() {
        return Err("settings root must be an object".to_owned());
    }
    let ghost root0 = root;
    let id = input.get_str("defaultHostId");
    let done = input.get_bool("initialHostChoiceCompleted");
    let token = input.get_str("localClientToken");
    let hosts = input.into_member("hosts");
    let mut obj = root;
    match hosts {
        Some(h) => {
            obj = obj.with_member("desktopHosts".to_owned(), h);
        },
        None => {},
    }
    let ghost s1 = obj;
    match id {
        Some(s) => {
            obj = obj.with_member("desktopDefaultHostId".to_owned(), JsonValue::Str(s));
        },
        None => {},
    }
    let ghost s2 = obj;
    match done {
        Some(b) => {
            obj = obj.with_member("desktopInitialHostChoiceCompleted".to_owned(), JsonValue::Bool(b));
        },
        None => {},
    }
    let ghost s3 = obj;
    match token {
        Some(t) => {
            if t.as_str().unicode_len() == 0 {
                obj = obj.without_member("desktopLocalClientToken");
            } else {
                obj = obj.with_member("desktopLocalClientToken".to_owned(), JsonValue::Str(t));
            }
        },
        None => {},
    }
    proof {
        reveal_strlit("desktopHosts");
        reveal_strlit("desktopDefaultHostId");
        reveal_strlit("desktopInitialHostChoiceCompleted");
        reveal_strlit("desktopLocalClientToken");
        let kh = "desktopHosts"@;
        let kd = "desktopDefaultHostId"@;
        let ki = "desktopInitialHostChoiceCompleted"@;
        let kt = "desktopLocalClientToken"@;
        assert(kh.len() == 12);
        assert(kd.len() == 20);
        assert(ki.len() == 33);
        assert(kt.len() == 23);
        assert(kh != kd && kh != ki && kh != kt && kd != ki && kd != kt && ki != kt);
        assert(obj.get_spec(kh) == s3.get_spec(kh));
        assert(s3.get_spec(kh) == s2.get_spec(kh));
        assert(s2.get_spec(kh) == s1.get_spec(kh));
        assert(obj.get_spec(kd) == s3.get_spec(kd));
        assert(s3.get_spec(kd) == s2.get_spec(kd));
        assert(s1.get_spec(kd) == root0.get_spec(kd));
        assert(obj.get_spec(ki) == s3.get_spec(ki));
        assert(s2.get_spec(ki) == s1.get_spec(ki));
        assert(s1.get_spec(ki) == root0.get_spec(ki));
        assert(s3.get_spec(kt) == s2.get_spec(kt));
        assert(s2.get_spec(kt) == s1.get_spec(kt));
        assert(s1.get_spec(kt) == root0.get_spec(kt));
        assert forall|k: Seq<char>| !is_hosts_key(k) implies #[trigger] obj.get_spec(k)
            == root0.get_spec(k) by {
            assert(s1.get_spec(k) == root0.get_spec(k));
            assert(s2.get_spec(k) == s1.get_spec(k));
            assert(s3.get_spec(k) == s2.get_spec(k));
        }
    }
    Ok(obj)
}

/// Reading the hosts configuration back after `desktop_hosts_set(input)` gives
/// what `input` set, and what was stored before for each field it left out.
pub proof fn law_hosts_read_after_write(
    root: JsonValue,
    input: JsonValue,
    new: JsonValue,
    c: HostsConfig,
)
    requires
        root is Object,
        hosts_set_result(root, input, new),
        hosts_config_of(new, c),
    ensures
        match input.get_spec("hosts"@) {
            Some(h) => c.hosts == h,
            None => match root.get_spec("desktopHosts"@) {
                Some(h) => c.hosts == h,
                None => c.hosts.array_spec() == Some(Seq::<JsonValue>::empty()),
            },
        },
        c.default_host_id@ == seq_or(
            input.str_member("defaultHostId"@),
            seq_or(root.str_member("desktopDefaultHostId"@), "local"@),
        ),
        c.initial_host_choice_completed == bool_or(
            input.bool_member("initialHostChoiceCompleted"@),
            bool_or(root.bool_member("desktopInitialHostChoiceCompleted"@), false),
        ),
        c.local_client_token@ == seq_or(
            input.str_member("localClientToken"@),
            seq_or(root.str_member("desktopLocalClientToken"@), ""@),
        ),
{
    reveal_strlit("");
    match input.str_member("localClientToken"@) {
        Some(t) => {
            if t.len() == 0 {
                assert(t =~= ""@);
            }
        },
        None => {},
    }
}


// ───────────────────────── host probe ─────────────────────────

/// How a probed host is classified.
#[derive(Debug, PartialEq)]
pub enum HostStatus {
    Compatible,
    Auth,
    UpdateRecommended,
    Incompatible,
    WrongService,
    Unreachable,
}

impl HostStatus {
    /// The status text the UI expects.
    pub open spec fn text(self) -> Seq<char> {
        match self {
            HostStatus::Compatible => "ok"@,
            HostStatus::Auth => "auth"@,
            HostStatus::UpdateRecommended => "update-recommended"@,
            HostStatus::Incompatible => "incompatible"@,
            HostStatus::WrongService => "wrong-service"@,
            HostStatus::Unreachable => "unreachable"@,
        }
    }

    pub fn as_str(&self) -> (r: &'static str)
        ensures
            r@ == self.text(),
    {
        match self {
            HostStatus::Compatible => "ok",
            HostStatus::Auth => "auth",
            HostStatus::UpdateRecommended => "update-recommended",
            HostStatus::Incompatible => "incompatible",
            HostStatus::WrongService => "wrong-service",
            HostStatus::Unreachable => "unreachable",
        }
    }
}

pub open spec fn u64_or(o: Option<u64>, d: u64) -> u64 {
    match o {
        Some(u) => u,
        None => d,
    }
}

/// The capability a compatible server advertises.
pub open spec fn runtime_capability() -> Seq<char> {
    "api.runtime-url.v1"@
}

/// `compat.capabilities` is an array holding the string `api.runtime-url.v1`.
pub open spec fn has_runtime_capability(compat: JsonValue) -> bool {
    match compat.get_spec("capabilities"@) {
        Some(c) => match c.array_spec() {
            Some(caps) => exists|i: int|
                0 <= i < caps.len() && (#[trigger] caps[i]).str_spec() == Some(runtime_capability()),
            None => false,
        },
        None => false,
    }
}

/// The classification of a `/api/version` payload: without a `compatibility`
/// object or a `status` of `"ok"` the host is another service; without the
/// runtime capability it is incompatible; with an API version other than 1 or a
/// minimum client API version above 1 an update is recommended.
pub open spec fn version_class(payload: JsonValue) -> HostStatus {
    match payload.get_spec("compatibility"@) {
        None => HostStatus::WrongService,
        Some(compat) => if payload.str_member("status"@) != Some("ok"@) {
            HostStatus::WrongService
        } else if !has_runtime_capability(compat) {
            HostStatus::Incompatible
        } else if u64_or(compat.u64_member("apiVersion"@), 0) != 1 || u64_or(
            compat.u64_member("minClientApiVersion"@),
            0,
        ) > 1 {
            HostStatus::UpdateRecommended
        } else {
            HostStatus::Compatible
        },
    }
}

#[verifier::loop_isolation(false)]
fn has_capability(compat: &JsonValue) -> (r: bool)
    ensures
        r == has_runtime_capability(*compat),
{
    let caps = match compat.get("capabilities") {
        Some(c) => match c.as_array() {
            Some(a) => a,
            None => return false,
        },
        None => return false,
    };
    let n = caps.len();
    let mut i: usize = 0;
    while i < n
        invariant
            n == caps@.len(),
            i <= n,
            forall|j: int| 0 <= j < i ==> (#[trigger] caps@[j]).str_spec() != Some(runtime_capability()),
        decreases n - i,
    {
        match caps[i].as_str() {
            Some(s) => {
                if same_text(s.as_str(), "api.runtime-url.v1") {
                    assert(caps@[i as int].str_spec() == Some(runtime_capability()));
                    return true;
                }
            },
            None => {},
        }
        i = i + 1;
    }
    false
}

/// Classifies the payload of a host's `/api/version` endpoint.
pub fn classify_version_payload(payload: &JsonValue) -> (r: HostStatus)
    ensures
        r == version_class(*payload),
{
    let compat = match payload.get("compatibility") {
        Some(c) => c,
        None => return HostStatus::WrongService,
    };
    match payload.get_str("status") {
        Some(s) => {
            if !same_text(s.as_str(), "ok") {
                return HostStatus::WrongService;
            }
        },
        None => return HostStatus::WrongService,
    }
    if !has_capability(compat) {
        return HostStatus::Incompatible;
    }
    let api_version = match compat.get_u64("apiVersion") {
        Some(v) => v,
        None => 0,
    };
    let min_client = match compat.get_u64("minClientApiVersion") {
        Some(v) => v,
        None => 0,
    };
    if api_version != 1 || min_client > 1 {
        return HostStatus::UpdateRecommended;
    }
    HostStatus::Compatible
}

/// The requests a host probe makes, decided before any of them is sent.
#[derive(Debug, PartialEq)]
pub struct ProbePlan {
    /// The host URL without trailing slashes.
    pub base: String,
    /// `base` + `/health`, fetched without credentials when an identity is expected.
    pub health_url: String,
    /// `base` + `/api/version`, fetched with `headers`.
    pub version_url: String,
    /// Header names and values for the version request, in insertion order
    /// (a later header replaces an earlier one of the same name).
    pub headers: Vec<(String, String)>,
    /// The server id the host must report on `/health`, when one is expected.
    pub expected_server_id: Option<String>,
}

pub open spec fn pair_view(p: (String, String)) -> (Seq<char>, Seq<char>) {
    (p.0@, p.1@)
}

/// The caller's extra headers that a request can carry: members with a valid
/// header name whose value is a string that is a valid header value.
pub open spec fn extra_header_pairs(ms: Seq<JsonMember>) -> Seq<(Seq<char>, Seq<char>)>
    decreases ms.len(),
{
    if ms.len() == 0 {
        Seq::empty()
    } else {
        let m = ms[0];
        let rest = extra_header_pairs(ms.drop_first());
        match m.value.str_spec() {
            Some(v) => if valid_header_name(m.key@) && valid_header_value(v) {
                seq![(m.key@, v)] + rest
            } else {
                rest
            },
            None => rest,
        }
    }
}

/// The `Authorization` value sent for a client token.
pub open spec fn bearer_value(token: Seq<char>) -> Seq<char> {
    "Bearer "@ + trim_ws(token)
}

/// The headers of the version request: `accept: application/json`, then the
/// caller's valid extra headers (when they form an object), then
/// `authorization: Bearer <token>` for a non-blank token whose value is valid.
pub open spec fn probe_headers(
    request_headers: Option<JsonValue>,
    client_token: Option<Seq<char>>,
) -> Seq<(Seq<char>, Seq<char>)> {
    let base = seq![("accept"@, "application/json"@)];
    let extra = match request_headers {
        Some(JsonValue::Object(ms)) => extra_header_pairs(ms@),
        _ => Seq::empty(),
    };
    let auth = match client_token {
        Some(t) => if trim_ws(t).len() != 0 && valid_header_value(bearer_value(t)) {
            seq![("authorization"@, bearer_value(t))]
        } else {
            Seq::empty()
        },
        None => Seq::empty(),
    };
    base + extra + auth
}

pub open spec fn opt_view(o: Option<String>) -> Option<Seq<char>> {
    match o {
        Some(s) => Some(s@),
        None => None,
    }
}

/// A string given and not blank (`o.filter(|s| !s.trim().is_empty())`).
pub open spec fn non_blank(o: Option<Seq<char>>) -> Option<Seq<char>> {
    match o {
        Some(s) => if trim_ws(s).len() != 0 {
            Some(s)
        } else {
            None
        },
        None => None,
    }
}

fn extra_headers(ms: &Vec<JsonMember>, out: &mut Vec<(String, String)>)
    ensures
        final(out)@.map_values(|p: (String, String)| pair_view(p)) == old(out)@.map_values(
            |p: (String, String)| pair_view(p),
        ) + extra_header_pairs(ms@),
{
    let n = ms.len();
    let ghost start = out@.map_values(|p: (String, String)| pair_view(p));
    assert(ms@.subrange(0, n as int) =~= ms@);
    let mut i: usize = 0;
    while i < n
        invariant
            n == ms@.len(),
            i <= n,
            start + extra_header_pairs(ms@) == out@.map_values(|p: (String, String)| pair_view(p))
                + extra_header_pairs(ms@.subrange(i as int, n as int)),
        decreases n - i,
    {
        let m = &ms[i];
        let ghost rest = ms@.subrange(i as int, n as int);
        let ghost tail = ms@.subrange(i + 1, n as int);
        proof {
            assert(rest.drop_first() =~= tail);
            assert(rest[0] == ms@[i as int]);
        }
        match m.value.as_str() {
            Some(v) => {
                if header_name_ok(m.key.as_str()) && header_value_ok(v.as_str()) {
                    let ghost before = out@.map_values(|p: (String, String)| pair_view(p));
                    out.push((m.key.clone(), v.clone()));
                    proof {
                        let item = (m.key@, v@);
                        assert(out@.map_values(|p: (String, String)| pair_view(p)) =~= before.push(
                            item,
                        ));
                        assert(before + (seq![item] + extra_header_pairs(tail)) =~= before.push(
                            item,
                        ) + extra_header_pairs(tail));
                    }
                }
            },
            None => {},
        }
        i = i + 1;
    }
    proof {
        assert(extra_header_pairs(ms@.subrange(n as int, n as int)) =~= Seq::empty());
        assert(out@.map_values(|p: (String, String)| pair_view(p)) + Seq::empty() =~= out@.map_values(
            |p: (String, String)| pair_view(p),
        ));
    }
}

/// Plans a probe of the host at `url` (`desktop_host_probe`): the URLs it
/// fetches, the headers of the version request, and the identity it expects.
pub fn desktop_host_probe(
    url: &str,
    client_token: Option<String>,
    request_headers: Option<JsonValue>,
    expected_server_id: Option<String>,
) -> (r: ProbePlan)
    ensures
        r.base@ == trim_end_char(url@, '/'),
        r.health_url@ == r.base@ + "/health"@,
        r.version_url@ == r.base@ + "/api/version"@,
        r.headers@.map_values(|p: (String, String)| pair_view(p)) == probe_headers(
            request_headers,
            opt_view(client_token),
        ),
        opt_view(r.expected_server_id) == non_blank(opt_view(expected_server_id)),
{
    let base = trim_end_slashes(url).to_owned();
    let health_url = base.clone().concat("/health");
    let version_url = base.clone().concat("/api/version");
    let mut headers: Vec<(String, String)> = Vec::new();
    headers.push(("accept".to_owned(), "application/json".to_owned()));
    let ghost first = headers@.map_values(|p: (String, String)| pair_view(p));
    assert(first =~= seq![("accept"@, "application/json"@)]);
    match &request_headers {
        Some(JsonValue::Object(ms)) => {
            extra_headers(ms, &mut headers);
        },
        _ => {
            assert(first + Seq::<(Seq<char>, Seq<char>)>::empty() =~= first);
        },
    }
    let ghost with_extra = headers@.map_values(|p: (String, String)| pair_view(p));
    match &client_token {
        Some(t) => {
            if !is_blank(t.as_str()) {
                let value = "Bearer ".to_owned().concat(trim(t.as_str()));
                if header_value_ok(value.as_str()) {
                    headers.push(("authorization".to_owned(), value));
                    assert(headers@.map_values(|p: (String, String)| pair_view(p)) =~= with_extra
                        + seq![("authorization"@, bearer_value(t@))]);
                } else {
                    assert(with_extra + Seq::<(Seq<char>, Seq<char>)>::empty() =~= with_extra);
                }
            } else {
                assert(with_extra + Seq::<(Seq<char>, Seq<char>)>::empty() =~= with_extra);
            }
        },
        None => {
            assert(with_extra + Seq::<(Seq<char>, Seq<char>)>::empty() =~= with_extra);
        },
    }
    let expected = match expected_server_id {
        Some(e) => if is_blank(e.as_str()) {
            None
        } else {
            Some(e)
        },
        None => None,
    };
    ProbePlan { base, health_url, version_url, headers, expected_server_id: expected }
}

/// What the unauthenticated `/health` request of a probe got back.
#[derive(Debug, PartialEq)]
pub enum HealthReply {
    /// The request could not be sent or answered.
    Failed,
    /// An HTTP status and the body read as JSON, when it was JSON.
    Response { status: u16, payload: Option<JsonValue> },
}

/// What the `/api/version` request of a probe got back.
#[derive(Debug, PartialEq)]
pub enum VersionReply {
    /// The request could not be sent or answered.
    Failed,
    /// An HTTP status and the body read as JSON, when it was JSON.
    Response { status: u16, payload: Option<JsonValue> },
}

pub open spec fn is_success_status(status: u16) -> bool {
    200 <= status < 300
}

/// The host answered `/health` with success and a non-blank `serverId` that
/// differs from the expected one (both compared trimmed).
pub open spec fn identity_mismatch(expected: Seq<char>, reply: HealthReply) -> bool {
    match reply {
        HealthReply::Response { status, payload: Some(p) } => {
            let reported = trim_ws(seq_or(p.str_member("serverId"@), ""@));
            is_success_status(status) && reported.len() != 0 && reported != trim_ws(expected)
        },
        _ => false,
    }
}

/// The status that a version reply gives: no answer or an error status other
/// than 401/403 is unreachable, 401/403 is an authentication problem, and a
/// success is classified by its payload (`null` when the body was not JSON).
pub open spec fn version_status(reply: VersionReply) -> HostStatus {
    match reply {
        VersionReply::Failed => HostStatus::Unreachable,
        VersionReply::Response { status, payload } => if status == 401 || status == 403 {
            HostStatus::Auth
        } else if !is_success_status(status) {
            HostStatus::Unreachable
        } else {
            match payload {
                Some(p) => version_class(p),
                None => version_class(JsonValue::Null),
            }
        },
    }
}

/// The next step of a host probe.
#[derive(Debug, PartialEq)]
pub enum ProbeStep {
    /// Fetch `/health` and report it with `probe_after_health`.
    FetchHealth,
    /// Fetch `/api/version` and report it with `probe_after_version`.
    FetchVersion,
    /// The probe is over.
    Finished(HostStatus),
}

/// The first step of a probe: the identity check when an identity is
/// expected, else the version request.
pub fn probe_start(plan: &ProbePlan) -> (r: ProbeStep)
    ensures
        r == (if plan.expected_server_id is Some {
            ProbeStep::FetchHealth
        } else {
            ProbeStep::FetchVersion
        }),
{
    if plan.expected_server_id.is_some() {
        ProbeStep::FetchHealth
    } else {
        ProbeStep::FetchVersion
    }
}

/// The step after `/health` answered `reply`: a host that reports another
/// server id than `expected` is the wrong service; otherwise the version
/// request follows.
pub open spec fn after_health(expected: Option<String>, reply: HealthReply) -> ProbeStep {
    match expected {
        Some(e) => if identity_mismatch(e@, reply) {
            ProbeStep::Finished(HostStatus::WrongService)
        } else {
            ProbeStep::FetchVersion
        },
        None => ProbeStep::FetchVersion,
    }
}

/// After `/health` (see `after_health`).
pub fn probe_after_health(plan: &ProbePlan, reply: &HealthReply) -> (r: ProbeStep)
    ensures
        r == after_health(plan.expected_server_id, *reply),
{
    let expected = match &plan.expected_server_id {
        Some(e) => e,
        None => return ProbeStep::FetchVersion,
    };
    match reply {
        HealthReply::Response { status, payload: Some(p) } => {
            if 200 <= *status && *status < 300 {
                let reported_owned = match p.get_str("serverId") {
                    Some(s) => s,
                    None => "".to_owned(),
                };
                let reported = trim(reported_owned.as_str());
                if reported.unicode_len() != 0 && !same_text(reported, trim(expected.as_str())) {
                    return ProbeStep::Finished(HostStatus::WrongService);
                }
            }
            ProbeStep::FetchVersion
        },
        _ => ProbeStep::FetchVersion,
    }
}

/// After `/api/version`: the probe is over with the reply's status.
pub fn probe_after_version(reply: &VersionReply) -> (r: ProbeStep)
    ensures
        r == ProbeStep::Finished(version_status(*reply)),
{
    let status = match reply {
        VersionReply::Failed => HostStatus::Unreachable,
        VersionReply::Response { status, payload } => {
            if *status == 401 || *status == 403 {
                HostStatus::Auth
            } else if !(200 <= *status && *status < 300) {
                HostStatus::Unreachable
            } else {
                match payload {
                    Some(p) => classify_version_payload(p),
                    None => classify_version_payload(&JsonValue::Null),
                }
            }
        },
    };
    ProbeStep::Finished(status)
}

/// What a reply body is as JSON: the body parsed, when there is a body and it
/// is JSON.
pub open spec fn body_payload(body: Option<&str>) -> Option<JsonValue> {
    match body {
        Some(b) => parsed_json(b@),
        None => None,
    }
}

fn payload_of(body: Option<&str>) -> (r: Option<JsonValue>)
    ensures
        r == body_payload(body),
{
    match body {
        Some(b) => json_from_text(b),
        None => None,
    }
}

/// After `/health` answered with `status` and, when it was read, the text
/// `body`: the body is parsed as JSON and the reply judged as by
/// `probe_after_health`.
pub fn probe_after_health_text(plan: &ProbePlan, status: u16, body: Option<&str>) -> (r: ProbeStep)
    ensures
        r == after_health(
            plan.expected_server_id,
            HealthReply::Response { status, payload: body_payload(body) },
        ),
{
    let reply = HealthReply::Response { status, payload: payload_of(body) };
    probe_after_health(plan, &reply)
}

/// After `/api/version` answered with `status` and, when it was read, the
/// text `body`: the body is parsed as JSON (a body that is not JSON counts as
/// `null`) and the reply judged as by `probe_after_version`.
pub fn probe_after_version_text(status: u16, body: Option<&str>) -> (r: ProbeStep)
    ensures
        r == ProbeStep::Finished(
            version_status(VersionReply::Response { status, payload: body_payload(body) }),
        ),
{
    let reply = VersionReply::Response { status, payload: payload_of(body) };
    probe_after_version(&reply)
}

/// What a probe reports to the UI: `{ status, latencyMs }`.
#[derive(Debug, PartialEq)]
pub struct ProbeReport {
    pub status: HostStatus,
    pub latency_ms: u64,
}

// ───────────────────────── LAN address ─────────────────────────

/// `s[i..j]` is one of the white-space separated words of `s`
/// (`str::split_whitespace`).
pub open spec fn word_at(s: Seq<char>, i: int, j: int) -> bool {
    &&& 0 <= i < j <= s.len()
    &&& (i == 0 || is_white_space(s[i - 1]))
    &&& (j == s.len() || is_white_space(s[j]))
    &&& forall|k: int| i <= k < j ==> !is_white_space(#[trigger] s[k])
}

/// A word that can be a LAN IPv4 address: it has a `.` and does not start with `127.`.
pub open spec fn lan_candidate(t: Seq<char>) -> bool {
    !seq_starts_with(t, "127."@) && t.contains('.')
}

pub open spec fn lan_word_at(s: Seq<char>, i: int, j: int) -> bool {
    word_at(s, i, j) && lan_candidate(s.subrange(i, j))
}

/// Picks the LAN address out of the output of `hostname -I`: the first word
/// that is not a loopback address and has a `.`.
pub fn desktop_get_lan_address(output: &str) -> (r: Option<String>)
    ensures
        r is None <==> !exists|i: int, j: int| lan_word_at(output@, i, j),
        r matches Some(t) ==> exists|i: int, j: int|
            lan_word_at(output@, i, j) && t@ == output@.subrange(i, j) && forall|i2: int, j2: int|
                lan_word_at(output@, i2, j2) ==> i <= i2,
{
    let ghost s = output@;
    let n = output.unicode_len();
    let mut i: usize = 0;
    while i < n
        invariant
            n == s.len(),
            s == output@,
            i <= n,
            i == 0 || i == n || is_white_space(s[i as int]),
            forall|i2: int, j2: int| lan_word_at(s, i2, j2) ==> i <= i2,
        decreases n - i,
    {
        let mut a: usize = i;
        while a < n && white_space(output.get_char(a))
            invariant
                n == s.len(),
                s == output@,
                i <= a <= n,
                forall|k: int| i <= k < a ==> is_white_space(#[trigger] s[k]),
            decreases n - a,
        {
            a = a + 1;
        }
        if a == n {
            proof {
                assert forall|i2: int, j2: int| !lan_word_at(s, i2, j2) by {
                    if lan_word_at(s, i2, j2) {
                        assert(!is_white_space(s[i2]));
                    }
                }
            }
            return None;
        }
        let mut b: usize = a + 1;
        while b < n && !white_space(output.get_char(b))
            invariant
                n == s.len(),
                s == output@,
                a < b <= n,
                !is_white_space(s[a as int]),
                forall|k: int| a <= k < b ==> !is_white_space(#[trigger] s[k]),
            decreases n - b,
        {
            b = b + 1;
        }
        proof {
            if a > i {
                assert(is_white_space(s[a - 1]));
            }
            assert(word_at(s, a as int, b as int));
            // The only word starting at `a` ends at `b`.
            assert forall|j2: int| word_at(s, a as int, j2) implies j2 == b by {
                if j2 < b {
                    assert(!is_white_space(s[j2]));
                } else if j2 > b {
                    assert(!is_white_space(s[b as int]));
                }
            }
        }
        let word = output.substring_char(a, b);
        if !starts_with(word, "127.") && contains_char(word, '.') {
            proof {
                assert(lan_word_at(s, a as int, b as int));
                assert forall|i2: int, j2: int| lan_word_at(s, i2, j2) implies a <= i2 by {
                    if i2 < a {
                        assert(i <= i2);
                        assert(is_white_space(s[i2]));
                    }
                }
            }
            return Some(word.to_owned());
        }
        proof {
            assert forall|i2: int, j2: int| lan_word_at(s, i2, j2) implies b <= i2 by {
                assert(i <= i2);
                if i2 < a {
                    assert(is_white_space(s[i2]));
                } else if i2 == a {
                    assert(j2 == b);
                } else if i2 < b {
                    assert(!is_white_space(s[i2 - 1]));
                }
            }
        }
        i = b;
    }
    proof {
        assert forall|i2: int, j2: int| !lan_word_at(s, i2, j2) by {
            if lan_word_at(s, i2, j2) {
                assert(i <= i2);
            }
        }
    }
    None
}

// ───────────────────────── updates ─────────────────────────

/// The shape read by the UI's `checkDesktopUpdates()`.
#[derive(Debug, PartialEq)]
pub enum DesktopUpdateInfo {
    /// `{ available: true, version, currentVersion, body, date }`
    Available {
        version: String,
        current_version: String,
        body: Option<String>,
        date: Option<String>,
    },
    /// `{ available: false, currentVersion }`
    UpToDate { current_version: String },
    /// `{ available: false, currentVersion, error }`
    Failed { current_version: String, error: String },
}

/// Reports an update check together with the running version.
pub fn desktop_check_for_updates(current_version: String, check: UpdateCheck) -> (r:
    DesktopUpdateInfo)
    ensures
        r == (match check {
            UpdateCheck::Available { version, notes, date } => DesktopUpdateInfo::Available {
                version,
                current_version,
                body: notes,
                date,
            },
            UpdateCheck::UpToDate => DesktopUpdateInfo::UpToDate { current_version },
            UpdateCheck::Failed { error } => DesktopUpdateInfo::Failed { current_version, error },
        }),
{
    match check {
        UpdateCheck::Available { version, notes, date } => DesktopUpdateInfo::Available {
            version,
            current_version,
            body: notes,
            date,
        },
        UpdateCheck::UpToDate => DesktopUpdateInfo::UpToDate { current_version },
        UpdateCheck::Failed { error } => DesktopUpdateInfo::Failed { current_version, error },
    }
}

// ───────────────────────── features without a native backend ─────────────────────────

/// The keep-awake state: `{ supported, enabled, active }`.
#[derive(Debug, PartialEq)]
pub struct KeepAwake {
    pub supported: bool,
    pub enabled: bool,
    pub active: bool,
}

/// Keep-awake is not supported: every flag is off.
pub fn desktop_get_keep_awake() -> (r: KeepAwake)
    ensures
        r == (KeepAwake { supported: false, enabled: false, active: false }),
{
    KeepAwake { supported: false, enabled: false, active: false }
}

/// Keep-awake is not supported: the request changes nothing and every flag is off.
pub fn desktop_set_keep_awake(enabled: bool) -> (r: KeepAwake)
    ensures
        r == (KeepAwake { supported: false, enabled: false, active: false }),
{
    KeepAwake { supported: false, enabled: false, active: false }
}

/// There is no native application menu; showing it succeeds and does nothing.
pub fn desktop_show_app_menu() -> (r: Result<(), String>)
    ensures
        r is Ok,
{
    Ok(())
}

/// Tray snapshots are accepted and ignored.
pub fn desktop_tray_update(snapshot: JsonValue) -> (r: Result<(), String>)
    ensures
        r is Ok,
{
    Ok(())
}

/// No SSH connection exists: the status is an empty array.
pub fn desktop_ssh_status(id: Option<String>) -> (r: JsonValue)
    ensures
        r.array_spec() == Some(Seq::<JsonValue>::empty()),
{
    JsonValue::empty_array()
}

/// SSH connections are refused with a fixed message.
pub fn desktop_ssh_connect(id: String) -> (r: Result<(), String>)
    ensures
        r matches Err(e) && e@ == "SSH is not implemented in the Tauri shell yet"@,
{
    Err("SSH is not implemented in the Tauri shell yet".to_owned())
}

/// Disconnecting succeeds: nothing is connected.
pub fn desktop_ssh_disconnect(id: String) -> (r: Result<(), String>)
    ensures
        r is Ok,
{
    Ok(())
}

/// No SSH logs exist: an empty array.
pub fn desktop_ssh_logs(id: String, limit: Option<u64>) -> (r: JsonValue)
    ensures
        r.array_spec() == Some(Seq::<JsonValue>::empty()),
{
    JsonValue::empty_array()
}

/// Clearing SSH logs succeeds.
pub fn desktop_ssh_logs_clear(id: String) -> (r: Result<(), String>)
    ensures
        r is Ok,
{
    Ok(())
}

/// The browser panel cannot capture pages: `null`.
pub fn desktop_browser_capture_page() -> (r: JsonValue)
    ensures
        r is Null,
{
    JsonValue::Null
}

/// Clearing browser data succeeds and does nothing.
pub fn desktop_browser_clear_data() -> (r: Result<(), String>)
    ensures
        r is Ok,
{
    Ok(())
}

/// Setting the browser colour scheme succeeds and does nothing.
pub fn desktop_browser_set_color_scheme(scheme: Option<String>) -> (r: Result<(), String>)
    ensures
        r is Ok,
{
    Ok(())
}

/// Dev tunnels are unavailable: `null`, which the UI reads as
/// "tunnel unavailable".
pub fn desktop_dev_tunnel_open(args: JsonValue) -> (r: JsonValue)
    ensures
        r is Null,
{
    JsonValue::Null
}

/// Closing every relay dev tunnel succeeds: none is open.
pub fn desktop_relay_dev_tunnel_close_all() -> (r: Result<(), String>)
    ensures
        r is Ok,
{
    Ok(())
}

// ───────────────────────── extra windows ─────────────────────────

/// The URL the dev server is reached at: `OPENCHAMBER_DEV_URL` when set, else
/// `http://localhost:5173`.
pub open spec fn dev_server_url(dev_env: Option<Seq<char>>) -> Seq<char> {
    seq_or(dev_env, "http://localhost:5173"@)
}

/// The dev server URL in a debug build, else the bundled `page`.
pub fn dev_or_prod_url(debug_build: bool, dev_env: Option<String>, page: &str) -> (r: String)
    ensures
        r@ == (if debug_build {
            dev_server_url(opt_view(dev_env))
        } else {
            page@
        }),
{
    if debug_build {
        match dev_env {
            Some(u) => u,
            None => "http://localhost:5173".to_owned(),
        }
    } else {
        page.to_owned()
    }
}

/// A window to open: its label and the URL it loads.
#[derive(Debug, PartialEq)]
pub struct WindowRequest {
    pub label: String,
    pub url: String,
}

/// The label of a window opened at a URL, from the time in milliseconds.
pub open spec fn url_window_label(now_millis: u128) -> Seq<char> {
    "extra-"@ + decimal(now_millis as nat)
}

/// Given whether `url` parsed (`Ok`) or the parse error's text, the window
/// request for `desktop_new_window_at_url`.
pub fn window_at_url(url: String, now_millis: u128, parsed: Result<(), String>) -> (r: Result<
    WindowRequest,
    String,
>)
    ensures
        match parsed {
            Ok(_) => r matches Ok(w) && w.label@ == url_window_label(now_millis) && w.url@ == url@,
            Err(e) => r matches Err(m) && m@ == e@,
        },
{
    match parsed {
        Ok(_) => {
            let label = "extra-".to_owned().concat(decimal_string(now_millis).as_str());
            Ok(WindowRequest { label, url })
        },
        Err(e) => Err(e),
    }
}

/// Plans a new window at an external URL; fails with the URL parser's message.
pub fn desktop_new_window_at_url(url: String, now_millis: u128) -> (r: Result<
    WindowRequest,
    String,
>)
    ensures
        match parsed_url(url@) {
            Ok(_) => r matches Ok(w) && w.label@ == url_window_label(now_millis) && w.url@ == url@,
            Err(e) => r matches Err(m) && m@ == e,
        },
{
    let parsed = match parse_url(url.as_str()) {
        Ok(_) => Ok(()),
        Err(e) => Err(e),
    };
    window_at_url(url, now_millis, parsed)
}

/// The URL a window for a relay host loads: `base`, then `&` when `base`
/// already has a `?` and `?` otherwise, then `relayHostId=<host id>`.
pub open spec fn host_window_url(base: Seq<char>, host_id: Seq<char>) -> Seq<char> {
    base + (if base.contains('?') {
        "&"@
    } else {
        "?"@
    }) + "relayHostId="@ + host_id
}

/// The label of a window for a relay host.
pub open spec fn host_window_label(host_id: Seq<char>, now_millis: u128) -> Seq<char> {
    "host-"@ + host_id + "-"@ + decimal(now_millis as nat)
}

/// The URL text of a window for a relay host (see `host_window_url`).
pub fn host_window_target(base: &str, host_id: &str) -> (r: String)
    ensures
        r@ == host_window_url(base@, host_id@),
{
    let sep = if contains_char(base, '?') {
        "&"
    } else {
        "?"
    };
    base.to_owned().concat(sep).concat("relayHostId=").concat(host_id)
}

/// Given whether the target URL parsed (`Ok`) or the parse error's text, the
/// window request for `desktop_new_window_for_host`.
pub fn window_for_host(
    host_id: &str,
    target: String,
    now_millis: u128,
    parsed: Result<(), String>,
) -> (r: Result<WindowRequest, String>)
    ensures
        match parsed {
            Ok(_) => r matches Ok(w) && w.label@ == host_window_label(host_id@, now_millis) && w.url@
                == target@,
            Err(e) => r matches Err(m) && m@ == e@,
        },
{
    match parsed {
        Ok(_) => {
            let label = "host-".to_owned().concat(host_id).concat("-").concat(
                decimal_string(now_millis).as_str(),
            );
            Ok(WindowRequest { label, url: target })
        },
        Err(e) => Err(e),
    }
}

/// Plans a new window for a relay-capable host: the local UI at `base` (see
/// `dev_or_prod_url`) with the host id in its query; fails with the URL
/// parser's message when that URL does not parse.
pub fn desktop_new_window_for_host(host_id: String, base: String, now_millis: u128) -> (r: Result<
    WindowRequest,
    String,
>)
    ensures
        match parsed_url(host_window_url(base@, host_id@)) {
            Ok(_) => r matches Ok(w) && w.label@ == host_window_label(host_id@, now_millis) && w.url@
                == host_window_url(base@, host_id@),
            Err(e) => r matches Err(m) && m@ == e,
        },
{
    let target = host_window_target(base.as_str(), host_id.as_str());
    let parsed = match parse_url(target.as_str()) {
        Ok(_) => Ok(()),
        Err(e) => Err(e),
    };
    window_for_host(host_id.as_str(), target, now_millis, parsed)
}

// ───────────────────────── laws of the host probe ─────────────────────────

/// A version reply is an authentication problem exactly when it answered 401
/// or 403; any other status outside 200..299, and no answer at all, is
/// unreachable; a success is never reported as either.
pub proof fn law_version_status_classes(status: u16, payload: Option<JsonValue>)
    ensures
        (version_status(VersionReply::Response { status, payload }) == HostStatus::Auth) <==> (
        status == 401 || status == 403),
        !(200 <= status < 300) && status != 401 && status != 403 ==> version_status(
            VersionReply::Response { status, payload },
        ) == HostStatus::Unreachable,
        200 <= status < 300 ==> version_status(VersionReply::Response { status, payload })
            != HostStatus::Unreachable,
        version_status(VersionReply::Failed) == HostStatus::Unreachable,
{
}

/// A member of the caller's headers that can be sent: a valid header name with
/// a string value that is a valid header value.
pub open spec fn sendable_member(m: JsonMember) -> bool {
    match m.value.str_spec() {
        Some(v) => valid_header_name(m.key@) && valid_header_value(v),
        None => false,
    }
}

/// The header a sendable member is sent as.
pub open spec fn member_header(m: JsonMember) -> (Seq<char>, Seq<char>) {
    (m.key@, m.value.str_spec()->0)
}

/// The caller's extra headers are exactly the sendable members, every one of
/// them, in member order: the members filtered by `sendable_member`.
pub proof fn law_extra_headers_are_the_sendable_members(ms: Seq<JsonMember>)
    ensures
        extra_header_pairs(ms) == ms.filter(|m: JsonMember| sendable_member(m)).map_values(
            |m: JsonMember| member_header(m),
        ),
        extra_header_pairs(ms).len() == ms.filter(|m: JsonMember| sendable_member(m)).len(),
    decreases ms.len(),
{
    let pred = |m: JsonMember| sendable_member(m);
    let f = |m: JsonMember| member_header(m);
    if ms.len() == 0 {
        assert(ms.filter(pred) =~= Seq::<JsonMember>::empty()) by {
            reveal(Seq::filter);
        }
        assert(ms.filter(pred).map_values(f) =~= Seq::<(Seq<char>, Seq<char>)>::empty());
    } else {
        let head = seq![ms[0]];
        let tail = ms.drop_first();
        law_extra_headers_are_the_sendable_members(tail);
        assert(ms =~= head + tail);
        Seq::filter_distributes_over_add(head, tail, pred);
        assert(head.filter(pred) =~= (if pred(ms[0]) {
            head
        } else {
            Seq::<JsonMember>::empty()
        })) by {
            reveal(Seq::filter);
            assert(head.drop_last() =~= Seq::<JsonMember>::empty());
            assert(head.drop_last().filter(pred) =~= Seq::<JsonMember>::empty());
        }
        let hf = head.filter(pred);
        let tf = tail.filter(pred);
        assert((hf + tf).map_values(f) =~= hf.map_values(f) + tf.map_values(f));
        if pred(ms[0]) {
            assert(hf.map_values(f) =~= seq![member_header(ms[0])]);
        } else {
            assert(hf.map_values(f) =~= Seq::<(Seq<char>, Seq<char>)>::empty());
        }
    }
}

/// Without a client token, the version request carries `accept:
/// application/json` and then exactly the sendable members of the caller's
/// header object, in order.
pub proof fn law_probe_headers_without_token(ms: Vec<JsonMember>)
    ensures
        probe_headers(Some(JsonValue::Object(ms)), None) == seq![("accept"@, "application/json"@)]
            + ms@.filter(|m: JsonMember| sendable_member(m)).map_values(
            |m: JsonMember| member_header(m),
        ),
{
    law_extra_headers_are_the_sendable_members(ms@);
    assert(probe_headers(Some(JsonValue::Object(ms)), None) =~= seq![
        ("accept"@, "application/json"@),
    ] + extra_header_pairs(ms@));
}

/// A `/api/version` payload marks a compatible host exactly when it has a
/// `compatibility` member, its `status` is the string `ok`, the compatibility's
/// `capabilities` array holds the string `api.runtime-url.v1`, its
/// `apiVersion` is 1 and its `minClientApiVersion`, when given as an integer,
/// is at most 1. Without `compatibility` or a `status` of `ok` the host is
/// another service; with them but without the capability it is incompatible.
pub proof fn law_version_payload_classes(payload: JsonValue)
    ensures
        (version_class(payload) == HostStatus::Compatible) <==> (payload.get_spec(
            "compatibility"@,
        ) is Some && payload.str_member("status"@) == Some("ok"@) && (exists|i: int|
            #![trigger payload.get_spec("compatibility"@)->0.get_spec("capabilities"@)->0.array_spec()->0[i]]
            0 <= i < payload.get_spec("compatibility"@)->0.get_spec(
                "capabilities"@,
            )->0.array_spec()->0.len() && payload.get_spec("compatibility"@)->0.get_spec(
                "capabilities"@,
            )->0.array_spec()->0[i].str_spec() == Some("api.runtime-url.v1"@)) && payload.get_spec(
            "compatibility"@,
        )->0.get_spec("capabilities"@) is Some && payload.get_spec("compatibility"@)->0.get_spec(
            "capabilities"@,
        )->0.array_spec() is Some && payload.get_spec("compatibility"@)->0.u64_member(
            "apiVersion"@,
        ) == Some(1u64) && match payload.get_spec("compatibility"@)->0.u64_member(
            "minClientApiVersion"@,
        ) {
            Some(m) => m <= 1,
            None => true,
        }),
        payload.get_spec("compatibility"@) is None ==> version_class(payload)
            == HostStatus::WrongService,
        payload.str_member("status"@) != Some("ok"@) ==> version_class(payload)
            == HostStatus::WrongService,
        version_class(payload) != HostStatus::Auth && version_class(payload)
            != HostStatus::Unreachable,
{
}

/// A client token that is not blank, and whose `Bearer` value is a valid header
/// value, is sent last as `authorization: Bearer <token trimmed>`; without a
/// token, or with a blank one, the headers are those sent without a token.
pub proof fn law_probe_bearer_header(request_headers: Option<JsonValue>, token: Option<Seq<char>>)
    ensures
        (token matches Some(t) && trim_ws(t).len() != 0 && valid_header_value("Bearer "@ + trim_ws(t)))
            ==> probe_headers(request_headers, token) == probe_headers(request_headers, None)
            + seq![("authorization"@, "Bearer "@ + trim_ws(token->0))],
        !(token matches Some(t) && trim_ws(t).len() != 0 && valid_header_value(
            "Bearer "@ + trim_ws(t),
        )) ==> probe_headers(request_headers, token) == probe_headers(request_headers, None),
{
    assert(probe_headers(request_headers, None) =~= probe_headers(request_headers, None)
        + Seq::<(Seq<char>, Seq<char>)>::empty());
}

} // verus!
