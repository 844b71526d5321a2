//! JSON text: the string literal that `serde_json` writes for a string, the
//! decoding of a string literal back into its characters, the law that a
//! literal reads back as exactly the string it was written for (so no content
//! of the string can end the literal early), and the compact text of a
//! `JsonValue`.

use vstd::prelude::*;

use crate::deps::{json_quote, parse_json, parsed_json};
use crate::json::{JsonMember, JsonNumber, JsonValue};
use crate::text::{all_digits, decimal, decimal_string, digits_value, is_digit, lemma_decimal_digits};

verus! {

/// The lowercase hexadecimal digit of `n` (`0 <= n < 16`).
pub open spec fn hex_digit(n: int) -> char {
    if n == 0 {
        '0'
    } else if n == 1 {
        '1'
    } else if n == 2 {
        '2'
    } else if n == 3 {
        '3'
    } else if n == 4 {
        '4'
    } else if n == 5 {
        '5'
    } else if n == 6 {
        '6'
    } else if n == 7 {
        '7'
    } else if n == 8 {
        '8'
    } else if n == 9 {
        '9'
    } else if n == 10 {
        'a'
    } else if n == 11 {
        'b'
    } else if n == 12 {
        'c'
    } else if n == 13 {
        'd'
    } else if n == 14 {
        'e'
    } else {
        'f'
    }
}

/// The value of a hexadecimal digit, in either case.
pub open spec fn hex_value(c: char) -> Option<int> {
    if '0' <= c && c <= '9' {
        Some(c as int - '0' as int)
    } else if 'a' <= c && c <= 'f' {
        Some(c as int - 'a' as int + 10)
    } else if 'A' <= c && c <= 'F' {
        Some(c as int - 'A' as int + 10)
    } else {
        None
    }
}

/// How `serde_json` writes one character inside a string literal: `"` and `\`
/// behind a backslash, the short escapes `\b`, `\f`, `\n`, `\r`, `\t`, any
/// other character below U+0020 as `\u00` and two lowercase hex digits, and
/// every other character as itself.
pub open spec fn escape_char(c: char) -> Seq<char> {
    if c == '"' {
        seq!['\\', '"']
    } else if c == '\\' {
        seq!['\\', '\\']
    } else if c == '\x08' {
        seq!['\\', 'b']
    } else if c == '\x0c' {
        seq!['\\', 'f']
    } else if c == '\n' {
        seq!['\\', 'n']
    } else if c == '\r' {
        seq!['\\', 'r']
    } else if c == '\t' {
        seq!['\\', 't']
    } else if (c as int) < 0x20 {
        seq!['\\', 'u', '0', '0', hex_digit((c as int) / 16), hex_digit((c as int) % 16)]
    } else {
        seq![c]
    }
}

/// The characters of `s`, each written as `escape_char` writes it.
pub open spec fn escape(s: Seq<char>) -> Seq<char>
    decreases s.len(),
{
    if s.len() == 0 {
        Seq::empty()
    } else {
        escape_char(s[0]) + escape(s.drop_first())
    }
}

/// The JSON string literal that `serde_json::to_string` writes for `s`.
pub open spec fn json_string_literal(s: Seq<char>) -> Seq<char> {
    seq!['"'] + escape(s) + seq!['"']
}

/// The character a two-character escape `\c` stands for.
pub open spec fn unescape_char(c: char) -> Option<char> {
    if c == '"' {
        Some('"')
    } else if c == '\\' {
        Some('\\')
    } else if c == '/' {
        Some('/')
    } else if c == 'b' {
        Some('\x08')
    } else if c == 'f' {
        Some('\x0c')
    } else if c == 'n' {
        Some('\n')
    } else if c == 'r' {
        Some('\r')
    } else if c == 't' {
        Some('\t')
    } else {
        None
    }
}

/// The value of the four hex digits `t[i..i + 4]`.
pub open spec fn hex4(t: Seq<char>, i: int) -> Option<int> {
    match (hex_value(t[i]), hex_value(t[i + 1]), hex_value(t[i + 2]), hex_value(t[i + 3])) {
        (Some(a), Some(b), Some(c), Some(d)) => Some(4096 * a + 256 * b + 16 * c + d),
        _ => None,
    }
}

/// A code point that is a `char` (not a surrogate).
pub open spec fn scalar_value(v: int) -> bool {
    (0 <= v < 0xD800) || (0xE000 <= v < 0x110000)
}

/// Reads the rest of a JSON string literal whose opening `"` was already read:
/// the characters it stands for and how many characters of `t` it takes, up
/// to and including the closing `"`; `None` when `t` is not such a rest (a raw
/// control character, an unknown escape, no closing quote). A `\u` escape of a
/// surrogate is not decoded.
pub open spec fn string_body(t: Seq<char>) -> Option<(Seq<char>, int)>
    decreases t.len(),
{
    if t.len() == 0 {
        None
    } else if t[0] == '"' {
        Some((Seq::empty(), 1))
    } else if t[0] == '\\' {
        if t.len() < 2 {
            None
        } else if t[1] == 'u' {
            if t.len() < 6 {
                None
            } else {
                match hex4(t, 2) {
                    Some(v) => if scalar_value(v) {
                        match string_body(t.subrange(6, t.len() as int)) {
                            Some((s, n)) => Some((seq![v as char] + s, n + 6)),
                            None => None,
                        }
                    } else {
                        None
                    },
                    None => None,
                }
            }
        } else {
            match unescape_char(t[1]) {
                Some(c) => match string_body(t.subrange(2, t.len() as int)) {
                    Some((s, n)) => Some((seq![c] + s, n + 2)),
                    None => None,
                },
                None => None,
            }
        }
    } else if (t[0] as int) < 0x20 {
        None
    } else {
        match string_body(t.drop_first()) {
            Some((s, n)) => Some((seq![t[0]] + s, n + 1)),
            None => None,
        }
    }
}

/// Reads a JSON string literal at the start of `t`: the string it stands for
/// and its length in characters.
pub open spec fn string_literal_at(t: Seq<char>) -> Option<(Seq<char>, int)> {
    if t.len() > 0 && t[0] == '"' {
        match string_body(t.drop_first()) {
            Some((s, n)) => Some((s, n + 1)),
            None => None,
        }
    } else {
        None
    }
}

proof fn lemma_hex_round_trip(n: int)
    requires
        0 <= n < 16,
    ensures
        hex_value(hex_digit(n)) == Some(n),
{
}

/// Whether `c` is written as a two-character escape.
pub open spec fn short_escaped(c: char) -> bool {
    c == '"' || c == '\\' || c == '\x08' || c == '\x0c' || c == '\n' || c == '\r' || c == '\t'
}

/// Reading past the escape of one character gives that character.
pub open spec fn reads_one(c: char, k: int, u: Seq<char>, t: Seq<char>) -> bool {
    string_body(t) == match string_body(u) {
        Some((s, n)) => Some((seq![c] + s, n + k)),
        None => None::<(Seq<char>, int)>,
    }
}

proof fn lemma_short_escape(c: char, u: Seq<char>)
    requires
        short_escaped(c),
    ensures
        reads_one(c, 2, u, escape_char(c) + u),
{
    let t = escape_char(c) + u;
    assert(t[0] == '\\' && t[1] == escape_char(c)[1]);
    assert(t.subrange(2, t.len() as int) =~= u);
}

proof fn lemma_control_escape(c: char, u: Seq<char>)
    requires
        !short_escaped(c),
        (c as int) < 0x20,
    ensures
        reads_one(c, 6, u, escape_char(c) + u),
{
    let t = escape_char(c) + u;
    let v = c as int;
    let hi = v / 16;
    let lo = v % 16;
    assert(0 <= v);
    assert(0 <= hi < 2 && 0 <= lo < 16 && 16 * hi + lo == v) by (nonlinear_arith)
        requires
            0 <= v < 32,
            hi == v / 16,
            lo == v % 16,
    ;
    lemma_hex_round_trip(hi);
    lemma_hex_round_trip(lo);
    assert(t[0] == '\\' && t[1] == 'u' && t[2] == '0' && t[3] == '0');
    assert(t[4] == hex_digit(hi) && t[5] == hex_digit(lo));
    assert(hex4(t, 2) == Some(v));
    assert(v as char == c);
    assert(t.subrange(6, t.len() as int) =~= u);
}

proof fn lemma_plain(c: char, u: Seq<char>)
    requires
        !short_escaped(c),
        (c as int) >= 0x20,
    ensures
        reads_one(c, 1, u, escape_char(c) + u),
{
    let t = escape_char(c) + u;
    assert(escape_char(c) =~= seq![c]);
    assert(t[0] == c);
    assert(t.drop_first() =~= u);
}

proof fn lemma_escaped_body(s: Seq<char>, rest: Seq<char>)
    ensures
        string_body(escape(s) + seq!['"'] + rest) == Some((s, escape(s).len() + 1int)),
    decreases s.len(),
{
    let t = escape(s) + seq!['"'] + rest;
    if s.len() == 0 {
        assert(t[0] == '"');
        assert(s =~= Seq::<char>::empty());
    } else {
        let c = s[0];
        let tail = s.drop_first();
        let u = escape(tail) + seq!['"'] + rest;
        lemma_escaped_body(tail, rest);
        assert(t =~= escape_char(c) + u);
        assert(seq![c] + tail =~= s);
        if short_escaped(c) {
            lemma_short_escape(c, u);
        } else if (c as int) < 0x20 {
            lemma_control_escape(c, u);
        } else {
            lemma_plain(c, u);
        }
    }
}

/// A string literal written for `s` reads back as exactly `s`, and ends where
/// the literal ends, whatever follows it and whatever characters `s` holds.
pub proof fn law_string_literal_reads_back(s: Seq<char>, rest: Seq<char>)
    ensures
        string_literal_at(json_string_literal(s) + rest) == Some(
            (s, json_string_literal(s).len() as int),
        ),
{
    let t = json_string_literal(s) + rest;
    lemma_escaped_body(s, rest);
    assert(t.drop_first() =~= escape(s) + seq!['"'] + rest);
}

// ───────────────────────── the text of a value ─────────────────────────

/// The text of a number: the integer in decimal, or the kept text.
pub open spec fn number_text(n: JsonNumber) -> Seq<char> {
    match n {
        JsonNumber::PosInt(u) => decimal(u as nat),
        JsonNumber::NegInt(i) => if i < 0 {
            "-"@ + decimal((-i) as nat)
        } else {
            decimal(i as nat)
        },
        JsonNumber::Float(s) => s@,
    }
}

/// The compact JSON text of `v`, as `serde_json::to_string` writes a value:
/// no white space, strings as `json_string_literal`, array elements and
/// object members in order, separated by `,`. (`serde_json`'s own map keeps
/// its keys unique and sorted; an object built from one has them so here too.)
pub open spec fn json_text(v: JsonValue) -> Seq<char>
    decreases v,
{
    match v {
        JsonValue::Null => "null"@,
        JsonValue::Bool(b) => if b {
            "true"@
        } else {
            "false"@
        },
        JsonValue::Number(n) => number_text(n),
        JsonValue::Str(s) => json_string_literal(s@),
        JsonValue::Array(items) => "["@ + items_text(items@) + "]"@,
        JsonValue::Object(ms) => "{"@ + members_text(ms@) + "}"@,
    }
}

/// The elements of an array, separated by `,`.
pub open spec fn items_text(s: Seq<JsonValue>) -> Seq<char>
    decreases s,
{
    if s.len() == 0 {
        Seq::empty()
    } else if s.len() == 1 {
        json_text(s[0])
    } else {
        items_text(s.drop_last()) + ","@ + json_text(s[s.len() - 1])
    }
}

/// The members of an object, `"key":value`, separated by `,`.
pub open spec fn members_text(s: Seq<JsonMember>) -> Seq<char>
    decreases s,
{
    if s.len() == 0 {
        Seq::empty()
    } else if s.len() == 1 {
        json_string_literal(s[0].key@) + ":"@ + json_text(s[0].value)
    } else {
        members_text(s.drop_last()) + ","@ + json_string_literal(s[s.len() - 1].key@) + ":"@
            + json_text(s[s.len() - 1].value)
    }
}

fn number_to_text(n: &JsonNumber) -> (r: String)
    ensures
        r@ == number_text(*n),
{
    match n {
        JsonNumber::PosInt(u) => decimal_string(*u as u128),
        JsonNumber::NegInt(i) => if *i < 0 {
            let m: u128 = (0i128 - (*i as i128)) as u128;
            "-".to_owned().concat(decimal_string(m).as_str())
        } else {
            decimal_string(*i as u128)
        },
        JsonNumber::Float(s) => s.clone(),
    }
}

/// Writes the compact JSON text of `v` (see `json_text`).
#[verifier::loop_isolation(false)]
pub fn to_json_text(v: &JsonValue) -> (r: String)
    ensures
        r@ == json_text(*v),
    decreases v,
{
    match v {
        JsonValue::Null => "null".to_owned(),
        JsonValue::Bool(b) => if *b {
            "true".to_owned()
        } else {
            "false".to_owned()
        },
        JsonValue::Number(n) => number_to_text(n),
        JsonValue::Str(s) => json_quote(s.as_str()),
        JsonValue::Array(items) => {
            let n = items.len();
            let mut out = String::new();
            let mut i: usize = 0;
            while i < n
                invariant
                    n == items@.len(),
                    i <= n,
                    out@ == items_text(items@.subrange(0, i as int)),
                decreases n - i,
            {
                proof {
                    assert(decreases_to!(*v => *items));
                    assert(decreases_to!(*items => items@));
                    assert(decreases_to!(items@ => items@[i as int]));
                }
                let item = to_json_text(&items[i]);
                let ghost prefix = items@.subrange(0, i as int);
                let ghost next = items@.subrange(0, i + 1);
                proof {
                    assert(next.drop_last() =~= prefix);
                    assert(next[next.len() - 1] == items@[i as int]);
                }
                if i == 0 {
                    out = item;
                } else {
                    out = out.concat(",").concat(item.as_str());
                }
                i = i + 1;
            }
            proof {
                assert(items@.subrange(0, n as int) =~= items@);
            }
            "[".to_owned().concat(out.as_str()).concat("]")
        },
        JsonValue::Object(ms) => {
            let n = ms.len();
            let mut out = String::new();
            let mut i: usize = 0;
            while i < n
                invariant
                    n == ms@.len(),
                    i <= n,
                    out@ == members_text(ms@.subrange(0, i as int)),
                decreases n - i,
            {
                proof {
                    assert(decreases_to!(*v => *ms));
                    assert(decreases_to!(*ms => ms@));
                    assert(decreases_to!(ms@ => ms@[i as int]));
                    assert(decreases_to!(ms@[i as int] => ms@[i as int].value));
                }
                let value = to_json_text(&ms[i].value);
                let member = json_quote(ms[i].key.as_str()).concat(":").concat(value.as_str());
                let ghost prefix = ms@.subrange(0, i as int);
                let ghost next = ms@.subrange(0, i + 1);
                proof {
                    assert(next.drop_last() =~= prefix);
                    assert(next[next.len() - 1] == ms@[i as int]);
                }
                if i == 0 {
                    out = member;
                } else {
                    out = out.concat(",").concat(member.as_str());
                }
                i = i + 1;
            }
            proof {
                assert(ms@.subrange(0, n as int) =~= ms@);
            }
            "{".to_owned().concat(out.as_str()).concat("}")
        },
    }
}

/// Reads JSON text into the library's model (`None` when it is not JSON).
pub fn json_from_text(text: &str) -> (r: Option<JsonValue>)
    ensures
        r == parsed_json(text@),
{
    parse_json(text)
}

// ───────────────────────── indented text ─────────────────────────

/// The JSON text of `v` as `serde_json::to_string_pretty` writes it, the value
/// standing at indentation `ind`: each array element and object member on a
/// line of its own, indented two spaces deeper than its container, `": "`
/// after a key, and an empty array or object as `[]` or `{}`.
pub open spec fn pretty_text(v: JsonValue, ind: Seq<char>) -> Seq<char>
    decreases v,
{
    match v {
        JsonValue::Array(items) => if items@.len() == 0 {
            "[]"@
        } else {
            "["@ + pretty_items(items@, ind + "  "@) + "\n"@ + ind + "]"@
        },
        JsonValue::Object(ms) => if ms@.len() == 0 {
            "{}"@
        } else {
            "{"@ + pretty_members(ms@, ind + "  "@) + "\n"@ + ind + "}"@
        },
        _ => json_text(v),
    }
}

/// The elements of an array, each on a new line at indentation `ind`.
pub open spec fn pretty_items(s: Seq<JsonValue>, ind: Seq<char>) -> Seq<char>
    decreases s,
{
    if s.len() == 0 {
        Seq::empty()
    } else if s.len() == 1 {
        "\n"@ + ind + pretty_text(s[0], ind)
    } else {
        pretty_items(s.drop_last(), ind) + ",\n"@ + ind + pretty_text(s[s.len() - 1], ind)
    }
}

/// The members of an object, each on a new line at indentation `ind`.
pub open spec fn pretty_members(s: Seq<JsonMember>, ind: Seq<char>) -> Seq<char>
    decreases s,
{
    if s.len() == 0 {
        Seq::empty()
    } else if s.len() == 1 {
        "\n"@ + ind + json_string_literal(s[0].key@) + ": "@ + pretty_text(s[0].value, ind)
    } else {
        pretty_members(s.drop_last(), ind) + ",\n"@ + ind + json_string_literal(
            s[s.len() - 1].key@,
        ) + ": "@ + pretty_text(s[s.len() - 1].value, ind)
    }
}

#[verifier::loop_isolation(false)]
fn pretty_at(v: &JsonValue, ind: &str) -> (r: String)
    ensures
        r@ == pretty_text(*v, ind@),
    decreases v,
{
    match v {
        JsonValue::Array(items) => {
            let n = items.len();
            if n == 0 {
                return "[]".to_owned();
            }
            let inner = ind.to_owned().concat("  ");
            let mut out = String::new();
            let mut i: usize = 0;
            while i < n
                invariant
                    n == items@.len(),
                    i <= n,
                    out@ == pretty_items(items@.subrange(0, i as int), inner@),
                decreases n - i,
            {
                proof {
                    assert(decreases_to!(*v => *items));
                    assert(decreases_to!(*items => items@));
                    assert(decreases_to!(items@ => items@[i as int]));
                }
                let item = pretty_at(&items[i], inner.as_str());
                let ghost prefix = items@.subrange(0, i as int);
                let ghost next = items@.subrange(0, i + 1);
                proof {
                    assert(next.drop_last() =~= prefix);
                    assert(next[next.len() - 1] == items@[i as int]);
                }
                let sep = if i == 0 {
                    "\n"
                } else {
                    ",\n"
                };
                out = out.concat(sep).concat(inner.as_str()).concat(item.as_str());
                proof {
                    if i == 0 {
                        assert(prefix =~= Seq::<JsonValue>::empty());
                    }
                }
                i = i + 1;
            }
            proof {
                assert(items@.subrange(0, n as int) =~= items@);
            }
            "[".to_owned().concat(out.as_str()).concat("\n").concat(ind).concat("]")
        },
        JsonValue::Object(ms) => {
            let n = ms.len();
            if n == 0 {
                return "{}".to_owned();
            }
            let inner = ind.to_owned().concat("  ");
            let mut out = String::new();
            let mut i: usize = 0;
            while i < n
                invariant
                    n == ms@.len(),
                    i <= n,
                    out@ == pretty_members(ms@.subrange(0, i as int), inner@),
                decreases n - i,
            {
                proof {
                    assert(decreases_to!(*v => *ms));
                    assert(decreases_to!(*ms => ms@));
                    assert(decreases_to!(ms@ => ms@[i as int]));
                    assert(decreases_to!(ms@[i as int] => ms@[i as int].value));
                }
                let value = pretty_at(&ms[i].value, inner.as_str());
                let ghost prefix = ms@.subrange(0, i as int);
                let ghost next = ms@.subrange(0, i + 1);
                proof {
                    assert(next.drop_last() =~= prefix);
                    assert(next[next.len() - 1] == ms@[i as int]);
                }
                let sep = if i == 0 {
                    "\n"
                } else {
                    ",\n"
                };
                out = out.concat(sep).concat(inner.as_str()).concat(
                    json_quote(ms[i].key.as_str()).as_str(),
                ).concat(": ").concat(value.as_str());
                proof {
                    if i == 0 {
                        assert(prefix =~= Seq::<JsonMember>::empty());
                    }
                }
                i = i + 1;
            }
            proof {
                assert(ms@.subrange(0, n as int) =~= ms@);
            }
            "{".to_owned().concat(out.as_str()).concat("\n").concat(ind).concat("}")
        },
        _ => to_json_text(v),
    }
}

/// Writes the indented JSON text of `v`, as `serde_json::to_string_pretty`
/// does (see `pretty_text`).
pub fn to_json_pretty_text(v: &JsonValue) -> (r: String)
    ensures
        r@ == pretty_text(*v, Seq::empty()),
{
    proof {
        reveal_strlit("");
    }
    pretty_at(v, "")
}

// ───────────────────────── reading JSON text back ─────────────────────────

/// A JSON value as a text denotes it: numbers as the integer they name or, for
/// any other number, their text.
pub enum JsonDoc {
    Null,
    Bool(bool),
    PosInt(int),
    NegInt(int),
    Float(Seq<char>),
    Str(Seq<char>),
    Array(Seq<JsonDoc>),
    Object(Seq<(Seq<char>, JsonDoc)>),
}

/// What the value `v` denotes.
pub open spec fn json_doc(v: JsonValue) -> JsonDoc
    decreases v,
{
    match v {
        JsonValue::Null => JsonDoc::Null,
        JsonValue::Bool(b) => JsonDoc::Bool(b),
        JsonValue::Number(JsonNumber::PosInt(u)) => JsonDoc::PosInt(u as int),
        JsonValue::Number(JsonNumber::NegInt(i)) => JsonDoc::NegInt(i as int),
        JsonValue::Number(JsonNumber::Float(s)) => JsonDoc::Float(s@),
        JsonValue::Str(s) => JsonDoc::Str(s@),
        JsonValue::Array(items) => JsonDoc::Array(item_docs(items@)),
        JsonValue::Object(ms) => JsonDoc::Object(member_docs(ms@)),
    }
}

pub open spec fn item_docs(s: Seq<JsonValue>) -> Seq<JsonDoc>
    decreases s,
{
    if s.len() == 0 {
        Seq::empty()
    } else {
        seq![json_doc(s[0])] + item_docs(s.drop_first())
    }
}

pub open spec fn member_docs(s: Seq<JsonMember>) -> Seq<(Seq<char>, JsonDoc)>
    decreases s,
{
    if s.len() == 0 {
        Seq::empty()
    } else {
        seq![(s[0].key@, json_doc(s[0].value))] + member_docs(s.drop_first())
    }
}

/// The characters a JSON number can be made of.
pub open spec fn number_char(c: char) -> bool {
    is_digit(c) || c == '-' || c == '+' || c == '.' || c == 'e' || c == 'E'
}

/// How many characters at the start of `t` can belong to a number.
pub open spec fn number_run(t: Seq<char>) -> nat
    decreases t.len(),
{
    if t.len() > 0 && number_char(t[0]) {
        1 + number_run(t.drop_first())
    } else {
        0
    }
}

/// How many decimal digits start `t`.
pub open spec fn digit_run(t: Seq<char>) -> nat
    decreases t.len(),
{
    if t.len() > 0 && is_digit(t[0]) {
        1 + digit_run(t.drop_first())
    } else {
        0
    }
}

/// JSON's number grammar: an optional `-`; `0` or digits not starting with
/// `0`; optionally `.` and digits; optionally `e` or `E`, an optional sign and
/// digits; and nothing else.
pub open spec fn json_number(s: Seq<char>) -> bool {
    let i0: int = if s.len() > 0 && s[0] == '-' {
        1
    } else {
        0
    };
    let d = digit_run(s.subrange(i0, s.len() as int)) as int;
    let i1 = i0 + d;
    let has_frac = i1 < s.len() && s[i1] == '.';
    let f = if has_frac {
        digit_run(s.subrange(i1 + 1, s.len() as int)) as int
    } else {
        0
    };
    let i2 = if has_frac {
        i1 + 1 + f
    } else {
        i1
    };
    let has_exp = i2 < s.len() && (s[i2] == 'e' || s[i2] == 'E');
    let j = if has_exp && i2 + 1 < s.len() && (s[i2 + 1] == '+' || s[i2 + 1] == '-') {
        i2 + 2
    } else {
        i2 + 1
    };
    let g = if has_exp {
        digit_run(s.subrange(j, s.len() as int)) as int
    } else {
        0
    };
    let i3 = if has_exp {
        j + g
    } else {
        i2
    };
    &&& d >= 1
    &&& (d == 1 || s[i0] != '0')
    &&& (!has_frac || f >= 1)
    &&& (!has_exp || g >= 1)
    &&& i3 == s.len()
}

/// Decimal digits as JSON writes an integer: at least one, no leading zero.
pub open spec fn integer_digits(d: Seq<char>) -> bool {
    d.len() > 0 && all_digits(d) && (d.len() == 1 || d[0] != '0')
}

/// The number a number token denotes: a non-negative integer that fits a
/// `u64`, a negative integer that fits an `i64`, else any other JSON number
/// by its text.
pub open spec fn read_number(s: Seq<char>) -> Option<JsonDoc> {
    if integer_digits(s) && digits_value(s) <= u64::MAX {
        Some(JsonDoc::PosInt(digits_value(s)))
    } else if s.len() > 1 && s[0] == '-' && integer_digits(s.drop_first()) && 1 <= digits_value(
        s.drop_first(),
    ) <= 0x8000_0000_0000_0000 {
        Some(JsonDoc::NegInt(-digits_value(s.drop_first())))
    } else if json_number(s) {
        Some(JsonDoc::Float(s))
    } else {
        None
    }
}

/// Reads one JSON value at the start of `t`: what it denotes and how many
/// characters it takes; `None` when `t` does not start with one.
pub open spec fn read_value(t: Seq<char>) -> Option<(JsonDoc, int)>
    decreases t.len(), 0int,
{
    if t.len() == 0 {
        None
    } else if t[0] == 'n' {
        if t.len() >= 4 && t.subrange(0, 4) == "null"@ {
            Some((JsonDoc::Null, 4))
        } else {
            None
        }
    } else if t[0] == 't' {
        if t.len() >= 4 && t.subrange(0, 4) == "true"@ {
            Some((JsonDoc::Bool(true), 4))
        } else {
            None
        }
    } else if t[0] == 'f' {
        if t.len() >= 5 && t.subrange(0, 5) == "false"@ {
            Some((JsonDoc::Bool(false), 5))
        } else {
            None
        }
    } else if t[0] == '"' {
        match string_literal_at(t) {
            Some((s, n)) => Some((JsonDoc::Str(s), n)),
            None => None,
        }
    } else if t[0] == '[' {
        let r = t.drop_first();
        if r.len() > 0 && r[0] == ']' {
            Some((JsonDoc::Array(Seq::empty()), 2))
        } else {
            match read_elements(r) {
                Some((vs, n)) => Some((JsonDoc::Array(vs), n + 1)),
                None => None,
            }
        }
    } else if t[0] == '{' {
        let r = t.drop_first();
        if r.len() > 0 && r[0] == '}' {
            Some((JsonDoc::Object(Seq::empty()), 2))
        } else {
            match read_members(r) {
                Some((ms, n)) => Some((JsonDoc::Object(ms), n + 1)),
                None => None,
            }
        }
    } else {
        let k = number_run(t) as int;
        if 0 < k <= t.len() {
            match read_number(t.subrange(0, k)) {
                Some(d) => Some((d, k)),
                None => None,
            }
        } else {
            None
        }
    }
}

/// Reads the elements of an array after its `[`, up to and including its `]`.
pub open spec fn read_elements(t: Seq<char>) -> Option<(Seq<JsonDoc>, int)>
    decreases t.len(), 1int,
{
    match read_value(t) {
        Some((v, n)) => if 0 < n <= t.len() {
            let r = t.subrange(n, t.len() as int);
            if r.len() > 0 && r[0] == ']' {
                Some((seq![v], n + 1))
            } else if r.len() > 0 && r[0] == ',' {
                match read_elements(r.drop_first()) {
                    Some((vs, m)) => Some((seq![v] + vs, n + 1 + m)),
                    None => None,
                }
            } else {
                None
            }
        } else {
            None
        },
        None => None,
    }
}

/// Reads the members of an object after its `{`, up to and including its `}`.
pub open spec fn read_members(t: Seq<char>) -> Option<(Seq<(Seq<char>, JsonDoc)>, int)>
    decreases t.len(), 1int,
{
    match string_literal_at(t) {
        Some((k, n)) => if 0 < n < t.len() && t[n] == ':' {
            let r = t.subrange(n + 1, t.len() as int);
            match read_value(r) {
                Some((v, m)) => if 0 < m <= r.len() {
                    let q = r.subrange(m, r.len() as int);
                    if q.len() > 0 && q[0] == '}' {
                        Some((seq![(k, v)], n + 1 + m + 1))
                    } else if q.len() > 0 && q[0] == ',' {
                        match read_members(q.drop_first()) {
                            Some((ms, j)) => Some((seq![(k, v)] + ms, n + 1 + m + 1 + j)),
                            None => None,
                        }
                    } else {
                        None
                    }
                } else {
                    None
                },
                None => None,
            }
        } else {
            None
        },
        None => None,
    }
}

/// Reads a whole JSON text: one value and nothing after it.
pub open spec fn read_json(t: Seq<char>) -> Option<JsonDoc> {
    match read_value(t) {
        Some((v, n)) => if n == t.len() {
            Some(v)
        } else {
            None
        },
        None => None,
    }
}

/// Number text that reads back as itself: JSON number grammar, not an
/// integer (which would read back as one).
pub open spec fn float_text(s: Seq<char>) -> bool {
    &&& s.len() > 0
    &&& forall|i: int| 0 <= i < s.len() ==> number_char(#[trigger] s[i])
    &&& json_number(s)
    &&& !all_digits(s)
    &&& !(s[0] == '-' && all_digits(s.drop_first()))
}

/// A value whose text reads back as what it denotes: negative integers are
/// `NegInt` (a non-negative one would read back as `PosInt`), and the text of
/// every other number is a JSON number that is not an integer.
pub open spec fn canonical(v: JsonValue) -> bool
    decreases v,
{
    match v {
        JsonValue::Number(JsonNumber::NegInt(i)) => i < 0,
        JsonValue::Number(JsonNumber::Float(s)) => float_text(s@),
        JsonValue::Array(items) => canonical_items(items@),
        JsonValue::Object(ms) => canonical_members(ms@),
        _ => true,
    }
}

pub open spec fn canonical_items(s: Seq<JsonValue>) -> bool
    decreases s,
{
    s.len() == 0 || (canonical(s[0]) && canonical_items(s.drop_first()))
}

pub open spec fn canonical_members(s: Seq<JsonMember>) -> bool
    decreases s,
{
    s.len() == 0 || (canonical(s[0].value) && canonical_members(s.drop_first()))
}

/// What may follow a value inside a JSON text.
pub open spec fn is_sep(c: char) -> bool {
    c == ',' || c == ']' || c == '}'
}

pub open spec fn ends_value(rest: Seq<char>) -> bool {
    rest.len() == 0 || is_sep(rest[0])
}

proof fn lemma_number_run(a: Seq<char>, rest: Seq<char>)
    requires
        forall|i: int| 0 <= i < a.len() ==> number_char(#[trigger] a[i]),
        ends_value(rest),
    ensures
        number_run(a + rest) == a.len(),
    decreases a.len(),
{
    let t = a + rest;
    if a.len() == 0 {
        assert(t =~= rest);
    } else {
        assert(number_char(a[0]));
        let b = a.drop_first();
        assert forall|i: int| 0 <= i < b.len() implies number_char(#[trigger] b[i]) by {
            assert(b[i] == a[i + 1]);
        }
        lemma_number_run(b, rest);
        assert(t.drop_first() =~= b + rest);
    }
}

proof fn lemma_decimal_integer(n: nat)
    ensures
        integer_digits(decimal(n)),
        digits_value(decimal(n)) == n,
        forall|i: int| 0 <= i < decimal(n).len() ==> number_char(#[trigger] decimal(n)[i]),
        n >= 10 ==> decimal(n).len() > 1 && decimal(n)[0] != '0',
    decreases n,
{
    lemma_decimal_digits(n);
    let d = decimal(n);
    assert forall|i: int| 0 <= i < d.len() implies number_char(#[trigger] d[i]) by {
        assert(is_digit(d[i]));
    }
    if n >= 10 {
        lemma_decimal_integer(n / 10);
        let h = decimal(n / 10);
        assert(d[0] == h[0]);
        lemma_decimal_digits(n / 10);
        if n / 10 < 10 {
            assert(h[0] == crate::text::digit_chars()[(n / 10) as int]);
            assert(crate::text::digit_chars()[(n / 10) as int] as u32 == 0x30 + n / 10);
        }
        assert(d.len() > 1);
        assert(d[0] != '0');
    }
}

proof fn lemma_items_front(s: Seq<JsonValue>)
    requires
        s.len() >= 2,
    ensures
        items_text(s) == json_text(s[0]) + ","@ + items_text(s.drop_first()),
    decreases s.len(),
{
    let dl = s.drop_last();
    let tl = s.drop_first();
    let last = json_text(s[s.len() - 1]);
    assert(items_text(s) == items_text(dl) + ","@ + last);
    if s.len() == 2 {
        assert(dl.len() == 1 && dl[0] == s[0]);
        assert(tl.len() == 1 && tl[0] == s[1]);
        assert(items_text(dl) == json_text(s[0]));
        assert(items_text(tl) == json_text(s[1]));
    } else {
        lemma_items_front(dl);
        assert(dl.drop_first() =~= tl.drop_last());
        assert(dl[0] == s[0]);
        assert(tl[tl.len() - 1] == s[s.len() - 1]);
        assert(items_text(tl) == items_text(tl.drop_last()) + ","@ + last);
        assert(items_text(s) =~= json_text(s[0]) + ","@ + (items_text(dl.drop_first()) + ","@
            + last));
    }
}

proof fn lemma_members_front(s: Seq<JsonMember>)
    requires
        s.len() >= 2,
    ensures
        members_text(s) == json_string_literal(s[0].key@) + ":"@ + json_text(s[0].value) + ","@
            + members_text(s.drop_first()),
    decreases s.len(),
{
    let dl = s.drop_last();
    let tl = s.drop_first();
    let m = s[s.len() - 1];
    let last = json_string_literal(m.key@) + ":"@ + json_text(m.value);
    let first = json_string_literal(s[0].key@) + ":"@ + json_text(s[0].value);
    assert(members_text(s) =~= members_text(dl) + ","@ + last);
    if s.len() == 2 {
        assert(dl.len() == 1 && dl[0] == s[0]);
        assert(tl.len() == 1 && tl[0] == s[1]);
        assert(members_text(dl) =~= first);
        assert(members_text(tl) =~= last);
        assert(members_text(s) =~= first + ","@ + members_text(tl));
    } else {
        lemma_members_front(dl);
        assert(dl.drop_first() =~= tl.drop_last());
        assert(dl[0] == s[0]);
        assert(tl[tl.len() - 1] == m);
        assert(members_text(tl) =~= members_text(tl.drop_last()) + ","@ + last);
        assert(members_text(s) =~= first + ","@ + (members_text(dl.drop_first()) + ","@ + last));
    }
}

proof fn lemma_number(n: JsonNumber, rest: Seq<char>)
    requires
        canonical(JsonValue::Number(n)),
        ends_value(rest),
    ensures
        read_value(number_text(n) + rest) == Some(
            (json_doc(JsonValue::Number(n)), number_text(n).len() as int),
        ),
        number_text(n).len() > 0,
        number_char(number_text(n)[0]),
{
    let a = number_text(n);
    let t = a + rest;
    match n {
        JsonNumber::PosInt(u) => {
            lemma_decimal_integer(u as nat);
        },
        JsonNumber::NegInt(i) => {
            reveal_strlit("-");
            let d = decimal((-i) as nat);
            lemma_decimal_integer((-i) as nat);
            assert(a =~= seq!['-'] + d);
            assert forall|k: int| 0 <= k < a.len() implies number_char(#[trigger] a[k]) by {
                if k > 0 {
                    assert(a[k] == d[k - 1]);
                }
            }
            assert(a.drop_first() =~= d);
            assert(!is_digit(a[0]));
            assert(!integer_digits(a));
        },
        JsonNumber::Float(s) => {},
    }
    lemma_number_run(a, rest);
    assert(t.subrange(0, a.len() as int) =~= a);
    assert(number_char(t[0]));
}

proof fn lemma_value(v: JsonValue, rest: Seq<char>)
    requires
        canonical(v),
        ends_value(rest),
    ensures
        read_value(json_text(v) + rest) == Some((json_doc(v), json_text(v).len() as int)),
        json_text(v).len() > 0,
        !is_sep(json_text(v)[0]),
    decreases v,
{
    let t = json_text(v) + rest;
    match v {
        JsonValue::Null => {
            reveal_strlit("null");
            assert(t.subrange(0, 4) =~= "null"@);
        },
        JsonValue::Bool(b) => {
            reveal_strlit("true");
            reveal_strlit("false");
            if b {
                assert(t.subrange(0, 4) =~= "true"@);
            } else {
                assert(t.subrange(0, 5) =~= "false"@);
            }
        },
        JsonValue::Number(n) => {
            lemma_number(n, rest);
        },
        JsonValue::Str(s) => {
            law_string_literal_reads_back(s@, rest);
        },
        JsonValue::Array(items) => {
            reveal_strlit("[");
            reveal_strlit("]");
            let body = items_text(items@);
            let r = t.drop_first();
            assert(r =~= body + "]"@ + rest);
            if items@.len() == 0 {
                assert(body =~= Seq::<char>::empty());
                assert(r[0] == ']');
                assert(item_docs(items@) =~= Seq::<JsonDoc>::empty());
            } else {
                assert(decreases_to!(v => items));
                assert(decreases_to!(items => items@));
                lemma_elements(items@, rest);
                assert(r[0] == body[0]);
            }
        },
        JsonValue::Object(ms) => {
            reveal_strlit("{");
            reveal_strlit("}");
            let body = members_text(ms@);
            let r = t.drop_first();
            assert(r =~= body + "}"@ + rest);
            if ms@.len() == 0 {
                assert(body =~= Seq::<char>::empty());
                assert(r[0] == '}');
                assert(member_docs(ms@) =~= Seq::<(Seq<char>, JsonDoc)>::empty());
            } else {
                assert(decreases_to!(v => ms));
                assert(decreases_to!(ms => ms@));
                lemma_members(ms@, rest);
                assert(r[0] == body[0]);
            }
        },
    }
}

proof fn lemma_elements(s: Seq<JsonValue>, rest: Seq<char>)
    requires
        s.len() >= 1,
        canonical_items(s),
        ends_value(rest),
    ensures
        read_elements(items_text(s) + "]"@ + rest) == Some(
            (item_docs(s), items_text(s).len() + 1int),
        ),
        items_text(s).len() > 0,
        !is_sep(items_text(s)[0]),
    decreases s,
{
    reveal_strlit("]");
    reveal_strlit(",");
    let t = items_text(s) + "]"@ + rest;
    let tail = s.drop_first();
    let first = json_text(s[0]);
    if s.len() == 1 {
        let after = "]"@ + rest;
        lemma_value(s[0], after);
        assert(t =~= first + after);
        assert(t.subrange(first.len() as int, t.len() as int) =~= after);
        assert(tail =~= Seq::<JsonValue>::empty());
        assert(item_docs(s) =~= seq![json_doc(s[0])]);
    } else {
        lemma_items_front(s);
        let after = ","@ + (items_text(tail) + "]"@ + rest);
        lemma_value(s[0], after);
        assert(t =~= first + after);
        let r = t.subrange(first.len() as int, t.len() as int);
        assert(r =~= after);
        assert(r.drop_first() =~= items_text(tail) + "]"@ + rest);
        lemma_elements(tail, rest);
    }
}

/// The text of one member followed by `after`.
pub open spec fn member_text(m: JsonMember) -> Seq<char> {
    json_string_literal(m.key@) + ":"@ + json_text(m.value)
}

proof fn lemma_member_step(m: JsonMember, after: Seq<char>)
    requires
        canonical(m.value),
        after.len() > 0,
        is_sep(after[0]),
    ensures
        ({
            let t = member_text(m) + after;
            let kn = json_string_literal(m.key@).len() as int;
            let r = t.subrange(kn + 1, t.len() as int);
            let vn = json_text(m.value).len() as int;
            &&& string_literal_at(t) == Some((m.key@, kn))
            &&& 0 < kn < t.len()
            &&& t[kn] == ':'
            &&& read_value(r) == Some((json_doc(m.value), vn))
            &&& 0 < vn <= r.len()
            &&& r.subrange(vn, r.len() as int) == after
        }),
    decreases m,
{
    reveal_strlit(":");
    let key = json_string_literal(m.key@);
    let vt = json_text(m.value);
    let kn = key.len() as int;
    let t = member_text(m) + after;
    assert(t =~= key + (":"@ + (vt + after)));
    law_string_literal_reads_back(m.key@, ":"@ + (vt + after));
    assert(t[kn] == ':');
    let r = t.subrange(kn + 1, t.len() as int);
    assert(r =~= vt + after);
    lemma_value(m.value, after);
    assert(r.subrange(vt.len() as int, r.len() as int) =~= after);
}

#[verifier::rlimit(40)]
proof fn lemma_members(s: Seq<JsonMember>, rest: Seq<char>)
    requires
        s.len() >= 1,
        canonical_members(s),
        ends_value(rest),
    ensures
        read_members(members_text(s) + "}"@ + rest) == Some(
            (member_docs(s), members_text(s).len() + 1int),
        ),
        members_text(s).len() > 0,
        members_text(s)[0] == '"',
    decreases s,
{
    reveal_strlit("}");
    reveal_strlit(",");
    let t = members_text(s) + "}"@ + rest;
    let tail = s.drop_first();
    let m = s[0];
    if s.len() == 1 {
        let after = "}"@ + rest;
        assert(members_text(s) == member_text(m));
        assert(t =~= member_text(m) + after);
        lemma_member_step(m, after);
        assert(tail =~= Seq::<JsonMember>::empty());
        assert(member_docs(s) =~= seq![(m.key@, json_doc(m.value))]);
    } else {
        lemma_members_front(s);
        let after = ","@ + (members_text(tail) + "}"@ + rest);
        assert(t =~= member_text(m) + after);
        lemma_member_step(m, after);
        assert(after.drop_first() =~= members_text(tail) + "}"@ + rest);
        lemma_members(tail, rest);
    }
}

/// The JSON text written for a value reads back as what the value denotes:
/// every string, key and nested value is recovered and nothing in a string can
/// end its literal or the value early. Holds for values whose numbers read
/// back as themselves (`canonical`).
pub proof fn law_json_text_reads_back(v: JsonValue)
    requires
        canonical(v),
    ensures
        read_json(json_text(v)) == Some(json_doc(v)),
{
    lemma_value(v, Seq::empty());
    assert(json_text(v) + Seq::<char>::empty() =~= json_text(v));
}

} // verus!
