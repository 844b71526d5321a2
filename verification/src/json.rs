//! A JSON document model: the values that the settings file, the host probe
//! and the session API exchange, held as plain data.
//!
//! Objects keep their members in a `Vec`; a key names the first member that
//! carries it, which is the only member when the object came from a JSON map.

use vstd::prelude::*;

use crate::text::same_text;

verus! {

/// A JSON number: a non-negative integer, a negative integer, or any other
/// number kept in its textual form.
#[derive(Debug, PartialEq)]
pub enum JsonNumber {
    PosInt(u64),
    NegInt(i64),
    Float(String),
}

/// One `"key": value` member of a JSON object.
#[derive(Debug, PartialEq)]
pub struct JsonMember {
    pub key: String,
    pub value: JsonValue,
}

/// A JSON value.
#[derive(Debug, PartialEq)]
pub enum JsonValue {
    Null,
    Bool(bool),
    Number(JsonNumber),
    Str(String),
    Array(Vec<JsonValue>),
    Object(Vec<JsonMember>),
}

/// The value of the first member of `ms` whose key is `key`.
pub open spec fn member_lookup(ms: Seq<JsonMember>, key: Seq<char>) -> Option<JsonValue>
    decreases ms.len(),
{
    if ms.len() == 0 {
        None
    } else if ms[0].key@ == key {
        Some(ms[0].value)
    } else {
        member_lookup(ms.drop_first(), key)
    }
}

/// `ms` without any member whose key is `key`.
pub open spec fn members_without(ms: Seq<JsonMember>, key: Seq<char>) -> Seq<JsonMember>
    decreases ms.len(),
{
    if ms.len() == 0 {
        ms
    } else if ms[0].key@ == key {
        members_without(ms.drop_first(), key)
    } else {
        seq![ms[0]] + members_without(ms.drop_first(), key)
    }
}

impl JsonValue {
    /// `Value::get(key)`: the member `key` of an object; `None` for any other value.
    pub open spec fn get_spec(self, key: Seq<char>) -> Option<JsonValue> {
        match self {
            JsonValue::Object(ms) => member_lookup(ms@, key),
            _ => None,
        }
    }

    /// `Value::as_str`.
    pub open spec fn str_spec(self) -> Option<Seq<char>> {
        match self {
            JsonValue::Str(s) => Some(s@),
            _ => None,
        }
    }

    /// `Value::as_bool`.
    pub open spec fn bool_spec(self) -> Option<bool> {
        match self {
            JsonValue::Bool(b) => Some(b),
            _ => None,
        }
    }

    /// `Value::as_u64`.
    pub open spec fn u64_spec(self) -> Option<u64> {
        match self {
            JsonValue::Number(JsonNumber::PosInt(u)) => Some(u),
            _ => None,
        }
    }

    /// `Value::as_array`.
    pub open spec fn array_spec(self) -> Option<Seq<JsonValue>> {
        match self {
            JsonValue::Array(v) => Some(v@),
            _ => None,
        }
    }

    /// `Value::is_object`.
    pub open spec fn is_object_spec(self) -> bool {
        self is Object
    }

    /// `v.get(key).and_then(|v| v.as_str())`.
    pub open spec fn str_member(self, key: Seq<char>) -> Option<Seq<char>> {
        match self.get_spec(key) {
            Some(v) => v.str_spec(),
            None => None,
        }
    }

    /// `v.get(key).and_then(|v| v.as_bool())`.
    pub open spec fn bool_member(self, key: Seq<char>) -> Option<bool> {
        match self.get_spec(key) {
            Some(v) => v.bool_spec(),
            None => None,
        }
    }

    /// `v.get(key).and_then(|v| v.as_u64())`.
    pub open spec fn u64_member(self, key: Seq<char>) -> Option<u64> {
        match self.get_spec(key) {
            Some(v) => v.u64_spec(),
            None => None,
        }
    }

    /// An empty object, `Value::Object(Default::default())`.
    pub fn empty_object() -> (r: JsonValue)
        ensures
            r matches JsonValue::Object(ms) && ms@.len() == 0,
            forall|k: Seq<char>| #[trigger] r.get_spec(k) is None,
    {
        JsonValue::Object(Vec::new())
    }

    /// An empty array, `Value::Array(vec![])`.
    pub fn empty_array() -> (r: JsonValue)
        ensures
            r.array_spec() == Some(Seq::<JsonValue>::empty()),
    {
        let v: Vec<JsonValue> = Vec::new();
        JsonValue::Array(v)
    }

    pub fn is_object(&self) -> (r: bool)
        ensures
            r == self.is_object_spec(),
    {
        match self {
            JsonValue::Object(_) => true,
            _ => false,
        }
    }

    pub fn is_array(&self) -> (r: bool)
        ensures
            r == self is Array,
    {
        match self {
            JsonValue::Array(_) => true,
            _ => false,
        }
    }

    pub fn as_str(&self) -> (r: Option<&String>)
        ensures
            r is Some == self.str_spec() is Some,
            r matches Some(s) ==> s@ == self.str_spec()->0,
    {
        match self {
            JsonValue::Str(s) => Some(s),
            _ => None,
        }
    }

    pub fn as_bool(&self) -> (r: Option<bool>)
        ensures
            r == self.bool_spec(),
    {
        match self {
            JsonValue::Bool(b) => Some(*b),
            _ => None,
        }
    }

    pub fn as_u64(&self) -> (r: Option<u64>)
        ensures
            r == self.u64_spec(),
    {
        match self {
            JsonValue::Number(JsonNumber::PosInt(u)) => Some(*u),
            _ => None,
        }
    }

    pub fn as_array(&self) -> (r: Option<&Vec<JsonValue>>)
        ensures
            r is Some == self.array_spec() is Some,
            r matches Some(v) ==> v@ == self.array_spec()->0,
    {
        match self {
            JsonValue::Array(v) => Some(v),
            _ => None,
        }
    }

    /// `Value::get(key)`.
    #[verifier::loop_isolation(false)]
    pub fn get(&self, key: &str) -> (r: Option<&JsonValue>)
        ensures
            r is Some == self.get_spec(key@) is Some,
            r matches Some(v) ==> *v == self.get_spec(key@)->0,
    {
        match self {
            JsonValue::Object(ms) => {
                let n = ms.len();
                let mut i: usize = 0;
                while i < n
                    invariant
                        n == ms@.len(),
                        i <= n,
                        forall|j: int| 0 <= j < i ==> (#[trigger] ms@[j]).key@ != key@,
                    decreases n - i,
                {
                    if same_text(ms[i].key.as_str(), key) {
                        proof {
                            lemma_lookup_skip(ms@, key@, i as int);
                            assert(ms@.subrange(i as int, n as int)[0] == ms@[i as int]);
                        }
                        return Some(&ms[i].value);
                    }
                    i = i + 1;
                }
                proof {
                    lemma_lookup_skip(ms@, key@, n as int);
                }
                None
            },
            _ => None,
        }
    }

    /// `v.get(key).and_then(|v| v.as_str())`, cloned.
    pub fn get_str(&self, key: &str) -> (r: Option<String>)
        ensures
            r is Some == self.str_member(key@) is Some,
            r matches Some(s) ==> s@ == self.str_member(key@)->0,
    {
        match self.get(key) {
            Some(v) => match v.as_str() {
                Some(s) => Some(s.clone()),
                None => None,
            },
            None => None,
        }
    }

    /// `v.get(key).and_then(|v| v.as_bool())`.
    pub fn get_bool(&self, key: &str) -> (r: Option<bool>)
        ensures
            r == self.bool_member(key@),
    {
        match self.get(key) {
            Some(v) => v.as_bool(),
            None => None,
        }
    }

    /// `v.get(key).and_then(|v| v.as_u64())`.
    pub fn get_u64(&self, key: &str) -> (r: Option<u64>)
        ensures
            r == self.u64_member(key@),
    {
        match self.get(key) {
            Some(v) => v.as_u64(),
            None => None,
        }
    }

    /// Moves the member `key` out of an object (`Value::get(key).cloned()`,
    /// without the copy).
    #[verifier::loop_isolation(false)]
    pub fn into_member(self, key: &str) -> (r: Option<JsonValue>)
        ensures
            r == self.get_spec(key@),
    {
        match self {
            JsonValue::Object(ms) => {
                let ghost orig = ms@;
                let mut rest = ms;
                let ghost mut skipped: int = 0;
                while rest.len() > 0
                    invariant
                        0 <= skipped <= orig.len(),
                        rest@ == orig.subrange(skipped, orig.len() as int),
                        forall|j: int| 0 <= j < skipped ==> (#[trigger] orig[j]).key@ != key@,
                    decreases rest.len(),
                {
                    let m = rest.remove(0);
                    if same_text(m.key.as_str(), key) {
                        proof {
                            lemma_lookup_skip(orig, key@, skipped);
                            assert(orig.subrange(skipped, orig.len() as int)[0] == m);
                        }
                        return Some(m.value);
                    }
                    proof {
                        assert(orig[skipped] == m);
                        skipped = skipped + 1;
                    }
                }
                proof {
                    lemma_lookup_skip(orig, key@, skipped);
                }
                None
            },
            _ => None,
        }
    }

    /// `obj.insert(key, value)` on an object: the member `key` now holds `value`,
    /// and every other key holds what it held.
    #[verifier::loop_isolation(false)]
    pub fn with_member(self, key: String, value: JsonValue) -> (r: JsonValue)
        requires
            self is Object,
        ensures
            r is Object,
            r.get_spec(key@) == Some(value),
            forall|k: Seq<char>| k != key@ ==> #[trigger] r.get_spec(k) == self.get_spec(k),
    {
        match self {
            JsonValue::Object(ms) => {
                let ghost orig = ms@;
                let mut ms = ms;
                let n = ms.len();
                let mut i: usize = 0;
                while i < n
                    invariant
                        n == ms@.len(),
                        ms@ == orig,
                        i <= n,
                        forall|j: int| 0 <= j < i ==> (#[trigger] ms@[j]).key@ != key@,
                    decreases n - i,
                {
                    if same_text(ms[i].key.as_str(), key.as_str()) {
                        let ghost k2 = key@;
                        let m = JsonMember { key, value };
                        ms.set(i, m);
                        proof {
                            let new = orig.update(i as int, m);
                            assert(ms@ == new);
                            assert forall|j: int| 0 <= j < i implies (#[trigger] new[j]).key@ != k2 by {
                                assert(new[j] == orig[j]);
                            }
                            lemma_lookup_skip(new, k2, i as int);
                            assert forall|k: Seq<char>| k != k2 implies member_lookup(new, k)
                                == member_lookup(orig, k) by {
                                assert(orig[i as int].key@ == k2);
                                lemma_lookup_update_other(orig, i as int, m, k);
                            }
                        }
                        return JsonValue::Object(ms);
                    }
                    i = i + 1;
                }
                proof {
                    lemma_lookup_skip(orig, key@, n as int);
                }
                let ghost k2 = key@;
                let m = JsonMember { key, value };
                ms.push(m);
                proof {
                    assert forall|k: Seq<char>| true implies member_lookup(orig.push(m), k) == (
                    match member_lookup(orig, k) {
                        Some(v) => Some(v),
                        None => if m.key@ == k {
                            Some(m.value)
                        } else {
                            None
                        },
                    }) by {
                        lemma_lookup_push(orig, m, k);
                    }
                }
                JsonValue::Object(ms)
            },
            _ => self,
        }
    }

    /// `obj.remove(key)` on an object: the key is gone and every other key holds
    /// what it held.
    #[verifier::loop_isolation(false)]
    pub fn without_member(self, key: &str) -> (r: JsonValue)
        requires
            self is Object,
        ensures
            r is Object,
            r.get_spec(key@) is None,
            forall|k: Seq<char>| k != key@ ==> #[trigger] r.get_spec(k) == self.get_spec(k),
    {
        match self {
            JsonValue::Object(ms) => {
                let ghost orig = ms@;
                let mut rest = ms;
                let mut out: Vec<JsonMember> = Vec::new();
                while rest.len() > 0
                    invariant
                        members_without(orig, key@) == out@ + members_without(rest@, key@),
                    decreases rest.len(),
                {
                    let ghost before = rest@;
                    let m = rest.remove(0);
                    proof {
                        assert(before.drop_first() =~= rest@);
                        assert(before[0] == m);
                    }
                    if !same_text(m.key.as_str(), key) {
                        let ghost out_before = out@;
                        out.push(m);
                        proof {
                            assert(out@ + members_without(rest@, key@) =~= out_before + (seq![m]
                                + members_without(rest@, key@)));
                        }
                    }
                }
                proof {
                    assert(members_without(rest@, key@) =~= Seq::<JsonMember>::empty());
                    assert(out@ + Seq::<JsonMember>::empty() =~= out@);
                    assert forall|k: Seq<char>| true implies member_lookup(out@, k) == (if k
                        == key@ {
                        None
                    } else {
                        member_lookup(orig, k)
                    }) by {
                        lemma_lookup_without(orig, key@, k);
                    }
                }
                JsonValue::Object(out)
            },
            _ => self,
        }
    }
}

// ───────────────────────── lemmas on member lookup ─────────────────────────

/// Skipping members whose key differs from `key` does not change the lookup.
pub proof fn lemma_lookup_skip(ms: Seq<JsonMember>, key: Seq<char>, i: int)
    requires
        0 <= i <= ms.len(),
        forall|j: int| 0 <= j < i ==> (#[trigger] ms[j]).key@ != key,
    ensures
        member_lookup(ms, key) == member_lookup(ms.subrange(i, ms.len() as int), key),
    decreases i,
{
    if i == 0 {
        assert(ms.subrange(0, ms.len() as int) =~= ms);
    } else {
        let t = ms.drop_first();
        assert(ms[0].key@ != key);
        assert forall|j: int| 0 <= j < i - 1 implies (#[trigger] t[j]).key@ != key by {
            assert(t[j] == ms[j + 1]);
        }
        lemma_lookup_skip(t, key, i - 1);
        assert(t.subrange(i - 1, t.len() as int) =~= ms.subrange(i, ms.len() as int));
    }
}

/// Replacing a member whose key is not `k` by another whose key is not `k`
/// leaves the lookup of `k` unchanged.
pub proof fn lemma_lookup_update_other(ms: Seq<JsonMember>, i: int, m: JsonMember, k: Seq<char>)
    requires
        0 <= i < ms.len(),
        ms[i].key@ != k,
        m.key@ != k,
    ensures
        member_lookup(ms.update(i, m), k) == member_lookup(ms, k),
    decreases i,
{
    let u = ms.update(i, m);
    if i == 0 {
        assert(u.drop_first() =~= ms.drop_first());
    } else {
        assert(u[0] == ms[0]);
        assert(u.drop_first() =~= ms.drop_first().update(i - 1, m));
        lemma_lookup_update_other(ms.drop_first(), i - 1, m, k);
    }
}

/// Appending a member only answers keys that were not there before.
pub proof fn lemma_lookup_push(ms: Seq<JsonMember>, m: JsonMember, k: Seq<char>)
    ensures
        member_lookup(ms.push(m), k) == (match member_lookup(ms, k) {
            Some(v) => Some(v),
            None => if m.key@ == k {
                Some(m.value)
            } else {
                None
            },
        }),
    decreases ms.len(),
{
    let p = ms.push(m);
    if ms.len() == 0 {
        assert(p.drop_first() =~= Seq::<JsonMember>::empty());
    } else {
        assert(p[0] == ms[0]);
        assert(p.drop_first() =~= ms.drop_first().push(m));
        lemma_lookup_push(ms.drop_first(), m, k);
    }
}

/// Dropping every member `key` removes `key` and keeps every other key.
pub proof fn lemma_lookup_without(ms: Seq<JsonMember>, key: Seq<char>, k: Seq<char>)
    ensures
        member_lookup(members_without(ms, key), k) == (if k == key {
            None
        } else {
            member_lookup(ms, k)
        }),
    decreases ms.len(),
{
    if ms.len() > 0 {
        lemma_lookup_without(ms.drop_first(), key, k);
        if ms[0].key@ != key {
            let w = seq![ms[0]] + members_without(ms.drop_first(), key);
            assert(w[0] == ms[0]);
            assert(w.drop_first() =~= members_without(ms.drop_first(), key));
        }
    }
}

} // verus!
