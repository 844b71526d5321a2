//! The calls this library makes into `serde_json`, `url` and `reqwest`.
//!
//! Each function here is trusted: Verus takes its contract as given. The
//! contracts state what the outside function returns as its source shows it,
//! and name the result where stating it would take pages (URL parsing).

use vstd::prelude::*;

use serde_json::Value;

use crate::json::{JsonMember, JsonNumber, JsonValue};
use crate::json_text::json_string_literal;

verus! {

// ───────────────────────── serde_json ─────────────────────────

/// Calls `serde_json::to_string` on a string slice.
///
/// Claims: the result is the literal that `json_string_literal` spells out,
/// which is what the escape table and `write_char_escape` of `serde_json::ser`
/// produce. Serialising a `str` cannot fail, so the `Err` arm (an empty string)
/// is never taken.
#[verifier::external_body]
pub(crate) fn json_quote(s: &str) -> (r: String)
    ensures
        r@ == json_string_literal(s@),
{
    match serde_json::to_string(s) {
        Ok(text) => text,
        Err(_) => String::new(),
    }
}

/// `serde_json::Value`, carried through opaquely.
#[verifier::external_type_specification]
#[verifier::external_body]
pub struct ExSerdeJsonValue(serde_json::Value);

/// What `serde_json::from_str::<serde_json::Value>` gives for `text`, in the
/// library's JSON model: `None` when `text` is not JSON.
pub uninterp spec fn parsed_json(text: Seq<char>) -> Option<JsonValue>;

/// Calls `serde_json::from_str::<serde_json::Value>` and converts the value
/// into the library's model (`value_to_model`).
///
/// Claims only that the outcome is the name `parsed_json` applied to the input.
#[verifier::external_body]
pub(crate) fn parse_json(text: &str) -> (r: Option<JsonValue>)
    ensures
        r == parsed_json(text@),
{
    match serde_json::from_str::<serde_json::Value>(text) {
        Ok(v) => Some(value_to_model(&v)),
        Err(_) => None,
    }
}

/// The conversion of `parse_json`'s result, one for one: each variant of
/// `serde_json::Value` to the same variant of `JsonValue` (a number by its
/// `N` variant: `as_u64`, else `as_i64`, else its text), object members in
/// the map's order.
#[verifier::external_body]
fn value_to_model(v: &Value) -> JsonValue {
    match v {
        Value::Null => JsonValue::Null,
        Value::Bool(b) => JsonValue::Bool(*b),
        Value::Number(n) => JsonValue::Number(match (n.as_u64(), n.as_i64()) {
            (Some(u), _) => JsonNumber::PosInt(u),
            (_, Some(i)) => JsonNumber::NegInt(i),
            _ => JsonNumber::Float(n.to_string()),
        }),
        Value::String(s) => JsonValue::Str(s.clone()),
        Value::Array(a) => JsonValue::Array(a.iter().map(value_to_model).collect()),
        Value::Object(m) => JsonValue::Object(
            m.iter().map(|(k, x)| JsonMember { key: k.clone(), value: value_to_model(x) }).collect(),
        ),
    }
}

// ───────────────────────── url ─────────────────────────

/// The parts of a parsed URL that this library reads.
#[derive(Debug, PartialEq)]
pub struct UrlParts {
    /// `Url::host_str`
    pub host: Option<String>,
    /// `Url::port_or_known_default`
    pub port: Option<u16>,
    /// `Url::path`
    pub path: String,
}

impl UrlParts {
    pub open spec fn view_tuple(self) -> (Option<Seq<char>>, Option<u16>, Seq<char>) {
        (
            match self.host {
                Some(h) => Some(h@),
                None => None,
            },
            self.port,
            self.path@,
        )
    }
}

/// What `url::Url::parse(text)` gives, read through `host_str`,
/// `port_or_known_default` and `path`; or the text of the `ParseError`.
pub uninterp spec fn parsed_url(text: Seq<char>) -> Result<
    (Option<Seq<char>>, Option<u16>, Seq<char>),
    Seq<char>,
>;

/// Calls `url::Url::parse` and reads the host, the port (explicit or the
/// scheme's default) and the path of the result; on failure, the error's text.
///
/// Claims only that the outcome is the name `parsed_url` applied to the input.
#[verifier::external_body]
pub(crate) fn parse_url(text: &str) -> (r: Result<UrlParts, String>)
    ensures
        match r {
            Ok(p) => parsed_url(text@) == Ok::<_, Seq<char>>(p.view_tuple()),
            Err(e) => parsed_url(text@) == Err::<(Option<Seq<char>>, Option<u16>, Seq<char>), _>(
                e@,
            ),
        },
{
    match url::Url::parse(text) {
        Ok(u) => Ok(
            UrlParts {
                host: match u.host_str() {
                    Some(h) => Some(h.to_string()),
                    None => None,
                },
                port: u.port_or_known_default(),
                path: u.path().to_string(),
            },
        ),
        Err(e) => Err(e.to_string()),
    }
}

// ───────────────────────── HTTP headers (reqwest) ─────────────────────────

/// A character of an HTTP token (RFC 9110): the ASCII letters and digits and
/// ``!#$%&'*+-.^_`|~``; the characters that `HEADER_CHARS` of the `http` crate
/// maps to a non-zero byte.
pub open spec fn token_char(c: char) -> bool {
    ('a' <= c && c <= 'z') || ('A' <= c && c <= 'Z') || ('0' <= c && c <= '9') || c == '!' || c
        == '#' || c == '$' || c == '%' || c == '&' || c == '\'' || c == '*' || c == '+' || c
        == '-' || c == '.' || c == '^' || c == '_' || c == '`' || c == '|' || c == '~'
}

/// Whether `HeaderName::from_bytes` accepts the UTF-8 bytes of `name`: from 1
/// to 65535 bytes, each of them a token character (every token character is
/// ASCII, so the byte count is the character count).
pub open spec fn valid_header_name(name: Seq<char>) -> bool {
    1 <= name.len() <= 65535 && forall|i: int| 0 <= i < name.len() ==> token_char(#[trigger] name[i])
}

/// Whether `HeaderValue::from_str` accepts `value`: every UTF-8 byte is a tab
/// or at least 0x20 and not 0x7F; bytes of characters above U+007F are all at
/// least 0x80, so this is a condition on each character.
pub open spec fn valid_header_value(value: Seq<char>) -> bool {
    forall|i: int|
        0 <= i < value.len() ==> #[trigger] value[i] == '\t' || ((value[i] as int) >= 0x20
            && (value[i] as int) != 0x7F)
}

/// Calls `reqwest::header::HeaderName::from_bytes` (the `http` crate's) on the
/// bytes of `name` and reports whether it succeeded. Claims that it succeeds
/// exactly when `valid_header_name` holds, as `parse_hdr` and `HEADER_CHARS`
/// show; it returns a `Result` and does not panic.
#[verifier::external_body]
pub(crate) fn header_name_ok(name: &str) -> (r: bool)
    ensures
        r == valid_header_name(name@),
{
    reqwest::header::HeaderName::from_bytes(name.as_bytes()).is_ok()
}

/// Calls `reqwest::header::HeaderValue::from_str` (the `http` crate's) and
/// reports whether it succeeded. Claims that it succeeds exactly when
/// `valid_header_value` holds, as `try_from_generic` and `is_valid` show.
#[verifier::external_body]
pub(crate) fn header_value_ok(value: &str) -> (r: bool)
    ensures
        r == valid_header_value(value@),
{
    reqwest::header::HeaderValue::from_str(value).is_ok()
}

} // verus!
