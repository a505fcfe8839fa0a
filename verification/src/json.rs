//! A JSON document model over plain values.
//!
//! The engine moves structured JSON along its links.  The tree is modelled
//! here with plain vectors and strings so that the logic that inspects it can
//! be verified; numbers are carried as their canonical decimal text.  Parsing
//! and serialisation are done by outside crates behind trusted wrappers.

use crate::util::str_eq;
use vstd::prelude::*;

verus! {

/// A JSON document: an object's entries are kept sorted by key and unique,
/// matching the map representation of the serialiser this crate relies on.
#[derive(Debug, PartialEq, Eq)]
pub enum JsonValue {
    Null,
    Bool(bool),
    /// The number's canonical decimal rendering.
    Number(String),
    Str(String),
    Array(Vec<JsonValue>),
    Object(Vec<(String, JsonValue)>),
}

impl Clone for JsonValue {
    /// A structural copy.  Verified callers do not depend on the result;
    /// the impl exists for unverified embedders and tests.
    fn clone(&self) -> Self
        decreases *self,
    {
        match self {
            JsonValue::Null => JsonValue::Null,
            JsonValue::Bool(b) => JsonValue::Bool(*b),
            JsonValue::Number(n) => JsonValue::Number(n.clone()),
            JsonValue::Str(s) => JsonValue::Str(s.clone()),
            JsonValue::Array(items) => {
                let n = items.len();
                let mut out: Vec<JsonValue> = Vec::new();
                for i in 0..n
                    invariant
                        n == items@.len(),
                        *self matches JsonValue::Array(v) && v == items,
                {
                    out.push(items[i].clone());
                }
                JsonValue::Array(out)
            }
            JsonValue::Object(entries) => {
                let n = entries.len();
                let mut out: Vec<(String, JsonValue)> = Vec::new();
                for i in 0..n
                    invariant
                        n == entries@.len(),
                        *self matches JsonValue::Object(e) && e == entries,
                {
                    let (k, v) = &entries[i];
                    out.push((k.clone(), v.clone()));
                }
                JsonValue::Object(out)
            }
        }
    }
}

impl JsonValue {
    /// Looks a key up among an object's entries; `None` on other variants.
    pub fn get<'a>(&'a self, key: &str) -> (r: Option<&'a JsonValue>)
        ensures
            r == self.spec_get(key@),
    {
        match self {
            JsonValue::Object(entries) => {
                let n = entries.len();
                for i in 0..n
                    invariant
                        n == entries@.len(),
                        forall|j: int| 0 <= j < i ==> entries@[j].0@ != key@,
                        self matches JsonValue::Object(e) && e == entries,
                {
                    if str_eq(entries[i].0.as_str(), key) {
                        return Some(&entries[i].1);
                    }
                }
                None
            }
            _ => None,
        }
    }

    /// What `get` returns: the first entry with the given key.
    pub open spec fn spec_get(&self, key: Seq<char>) -> Option<&JsonValue> {
        match self {
            JsonValue::Object(entries) => {
                if exists|j: int| 0 <= j < entries@.len() && entries@[j].0@ == key {
                    let j = choose|j: int|
                        0 <= j < entries@.len() && entries@[j].0@ == key && (forall|k: int|
                            0 <= k < j ==> entries@[k].0@ != key);
                    Some(&entries@[j].1)
                } else {
                    None
                }
            }
            _ => None,
        }
    }
}

/// An existing match has a first match.
proof fn lemma_first_entry_match(entries: Seq<(String, JsonValue)>, key: Seq<char>, w: int)
    requires
        0 <= w < entries.len(),
        entries[w].0@ == key,
    ensures
        exists|j: int|
            0 <= j < entries.len() && entries[j].0@ == key && (forall|m: int|
                0 <= m < j ==> entries[m].0@ != key),
    decreases w,
{
    if forall|m: int| 0 <= m < w ==> entries[m].0@ != key {
        assert(0 <= w < entries.len() && entries[w].0@ == key && (forall|m: int|
            0 <= m < w ==> entries[m].0@ != key));
    } else {
        let w2 = choose|m: int| 0 <= m < w && entries[m].0@ == key;
        lemma_first_entry_match(entries, key, w2);
    }
}

/// What `spec_get` means: the first entry with the key, if any.
pub proof fn lemma_spec_get_props(v: &JsonValue, key: Seq<char>)
    ensures
        match v {
            JsonValue::Object(entries) => match v.spec_get(key) {
                Some(x) => exists|j: int|
                    0 <= j < entries@.len() && entries@[j].0@ == key && (forall|m: int|
                        0 <= m < j ==> entries@[m].0@ != key) && x == &entries@[j].1,
                None => forall|j: int| 0 <= j < entries@.len() ==> entries@[j].0@ != key,
            },
            _ => v.spec_get(key) is None,
        },
{
    match v {
        JsonValue::Object(entries) => {
            if exists|j: int| 0 <= j < entries@.len() && entries@[j].0@ == key {
                let w = choose|j: int| 0 <= j < entries@.len() && entries@[j].0@ == key;
                lemma_first_entry_match(entries@, key, w);
                let j = choose|j: int|
                    0 <= j < entries@.len() && entries@[j].0@ == key && (forall|m: int|
                        0 <= m < j ==> entries@[m].0@ != key);
                assert(v.spec_get(key) == Some(&entries@[j].1));
            }
        },
        _ => {},
    }
}

#[verifier::external_type_specification]
#[verifier::external_body]
pub struct ExSerdeValue(serde_json::Value);

/// Relies on serde_json's data model: each variant is carried over one for
/// one, a number as its canonical decimal rendering (`Number::to_string`),
/// an object as its sorted, key-unique entry list.
#[verifier::external_body]
fn value_to_json(v: serde_json::Value) -> JsonValue {
    match v {
        serde_json::Value::Null => JsonValue::Null,
        serde_json::Value::Bool(b) => JsonValue::Bool(b),
        serde_json::Value::Number(n) => JsonValue::Number(n.to_string()),
        serde_json::Value::String(s) => JsonValue::Str(s),
        serde_json::Value::Array(a) => JsonValue::Array(a.into_iter().map(value_to_json).collect()),
        serde_json::Value::Object(o) => JsonValue::Object(
            o.into_iter().map(|(k, x)| (k, value_to_json(x))).collect(),
        ),
    }
}

/// Relies on serde_json's data model, in the other direction; a number whose
/// text does not read back is carried as null, which cannot happen to a
/// number this crate produced.
#[verifier::external_body]
pub fn json_to_value(v: &JsonValue) -> serde_json::Value {
    match v {
        JsonValue::Null => serde_json::Value::Null,
        JsonValue::Bool(b) => serde_json::Value::Bool(*b),
        JsonValue::Number(n) => match n.parse::<serde_json::Number>() {
            Ok(num) => serde_json::Value::Number(num),
            Err(_) => serde_json::Value::Null,
        },
        JsonValue::Str(s) => serde_json::Value::String(s.clone()),
        JsonValue::Array(a) => serde_json::Value::Array(a.iter().map(json_to_value).collect()),
        JsonValue::Object(o) => serde_json::Value::Object(
            o.iter().map(|(k, x)| (k.clone(), json_to_value(x))).collect(),
        ),
    }
}

/// What parsing a byte string as a JSON document yields: a function of the
/// bytes alone.
pub uninterp spec fn json_parsed(bytes: Seq<u8>) -> Result<JsonValue, Seq<char>>;

/// Relies on serde_json::from_slice: the parse depends on the bytes alone;
/// the error case carries the parser's message.
#[verifier::external_body]
pub fn parse_json(bytes: &[u8]) -> (r: Result<JsonValue, String>)
    ensures
        match (r, json_parsed(bytes@)) {
            (Ok(v), Ok(sv)) => v == sv,
            (Err(e), Err(se)) => e@ == se,
            _ => false,
        },
{
    match serde_json::from_slice::<serde_json::Value>(bytes) {
        Ok(v) => Ok(value_to_json(v)),
        Err(e) => Err(e.to_string()),
    }
}

/// What the embedded-deserialiser parse of a configuration document yields:
/// a function of the bytes alone.
pub uninterp spec fn config_json_parsed(bytes: Seq<u8>) -> Result<JsonValue, Seq<char>>;

/// Relies on serde_json_wasm::de::from_slice: the parse depends on the bytes
/// alone; its error messages differ from serde_json's and are kept.
#[verifier::external_body]
pub fn parse_config_json(bytes: &[u8]) -> (r: Result<JsonValue, String>)
    ensures
        match (r, config_json_parsed(bytes@)) {
            (Ok(v), Ok(sv)) => v == sv,
            (Err(e), Err(se)) => e@ == se,
            _ => false,
        },
{
    match serde_json_wasm::de::from_slice::<serde_json::Value>(bytes) {
        Ok(v) => Ok(value_to_json(v)),
        Err(e) => Err(e.to_string()),
    }
}

/// The canonical JSON text of a document: a function of the value alone.
pub uninterp spec fn json_text(v: JsonValue) -> Seq<char>;

/// Relies on serde_json's `Value::to_string`: the canonical rendering.
#[verifier::external_body]
pub fn json_to_string(v: &JsonValue) -> (r: String)
    ensures
        r@ == json_text(*v),
{
    json_to_value(v).to_string()
}

/// The key/value pairs a form-urlencoded byte string decodes to, in order.
pub uninterp spec fn urlencoded_pairs(bytes: Seq<u8>) -> Seq<(Seq<char>, Seq<char>)>;

/// The views of a pair list.
pub open spec fn string_pairs_views(ps: Seq<(String, String)>) -> Seq<(Seq<char>, Seq<char>)> {
    ps.map_values(|p: (String, String)| (p.0@, p.1@))
}

/// Relies on form_urlencoded::parse: a pure function of the bytes.
#[verifier::external_body]
pub fn parse_urlencoded(bytes: &[u8]) -> (r: Vec<(String, String)>)
    ensures
        string_pairs_views(r@) == urlencoded_pairs(bytes@),
{
    form_urlencoded::parse(bytes).into_owned().collect()
}

/// The form-urlencoded rendering of a list of keys with optional values.
pub uninterp spec fn urlencoded_of(items: Seq<(Seq<char>, Option<Seq<char>>)>) -> Seq<char>;

/// The views of an item list.
pub open spec fn items_views(items: Seq<(String, Option<String>)>) -> Seq<
    (Seq<char>, Option<Seq<char>>),
> {
    items.map_values(
        |it: (String, Option<String>)|
            (
                it.0@,
                match it.1 {
                    Some(v) => Some(v@),
                    None => None,
                },
            ),
    )
}

/// Appending an item appends its view.
pub proof fn lemma_items_views_push(s: Seq<(String, Option<String>)>, it: (String, Option<String>))
    ensures
        items_views(s.push(it)) =~= items_views(s).push(
            (
                it.0@,
                match it.1 {
                    Some(v) => Some(v@),
                    None => None,
                },
            ),
        ),
{
}

/// Relies on form_urlencoded::Serializer: `append_pair` for a keyed value,
/// `append_key_only` for a bare key; a pure function of the items.
#[verifier::external_body]
pub fn encode_urlencoded(items: &Vec<(String, Option<String>)>) -> (r: String)
    ensures
        r@ == urlencoded_of(items_views(items@)),
{
    let mut enc = form_urlencoded::Serializer::new(String::new());
    for (k, v) in items {
        match v {
            Some(val) => enc.append_pair(k, val),
            None => enc.append_key_only(k),
        };
    }
    enc.finish()
}

/// The percent-encoded rendering of a byte string.
pub uninterp spec fn byte_urlencoded(bytes: Seq<u8>) -> Seq<char>;

/// Relies on form_urlencoded::byte_serialize: a pure function of the bytes.
#[verifier::external_body]
pub fn encode_bytes_urlencoded(bytes: &[u8]) -> (r: String)
    ensures
        r@ == byte_urlencoded(bytes@),
{
    form_urlencoded::byte_serialize(bytes).collect()
}

/// The lower-case folding of a character sequence.
pub uninterp spec fn lower_of(s: Seq<char>) -> Seq<char>;

/// Relies on str::to_lowercase: the result depends on the characters alone.
#[verifier::external_body]
pub fn lowercase(s: &str) -> (r: String)
    ensures
        r@ == lower_of(s@),
{
    s.to_lowercase()
}

/// Relies on std's str::from_utf8: succeeds exactly on valid UTF-8 and
/// decodes those bytes.
#[verifier::external_body]
pub fn utf8_to_string(bytes: &[u8]) -> (r: Option<String>)
    ensures
        match r {
            Some(s) => vstd::utf8::encode_utf8(s@) == bytes@ && vstd::utf8::valid_utf8(bytes@),
            None => !vstd::utf8::valid_utf8(bytes@),
        },
{
    match std::str::from_utf8(bytes) {
        Ok(s) => Some(s.to_string()),
        Err(_) => None,
    }
}

/// Relies on str's `<`: byte-lexicographic order, which for UTF-8 text is
/// the order of the characters.
#[verifier::external_body]
pub fn str_lt(a: &str, b: &str) -> (r: bool)
    ensures
        r == chars_lt(a@, b@),
{
    a < b
}

/// Lexicographic order on character sequences.
pub open spec fn chars_lt(a: Seq<char>, b: Seq<char>) -> bool
    decreases a.len(),
{
    if b.len() == 0 {
        false
    } else if a.len() == 0 {
        true
    } else if a[0] != b[0] {
        a[0] < b[0]
    } else {
        chars_lt(a.drop_first(), b.drop_first())
    }
}

/// Where `insert_sorted` places or replaces an entry: before the first
/// larger key, or over an equal one.
pub open spec fn insert_sorted(s: Seq<(String, JsonValue)>, kv: (String, JsonValue)) -> Seq<
    (String, JsonValue),
>
    decreases s.len(),
{
    if s.len() == 0 {
        seq![kv]
    } else if chars_lt(kv.0@, s[0].0@) {
        seq![kv] + s
    } else if kv.0@ == s[0].0@ {
        seq![kv] + s.drop_first()
    } else {
        seq![s[0]] + insert_sorted(s.drop_first(), kv)
    }
}

/// Inserts an entry keeping keys ordered; an equal key is replaced, as the
/// serialiser's map does on insert.
pub fn object_insert(entries: &mut Vec<(String, JsonValue)>, key: String, value: JsonValue)
    ensures
        final(entries)@ == insert_sorted(old(entries)@, (key, value)),
{
    let ghost kv = (key, value);
    let n = entries.len();
    let mut j: usize = 0;
    while j < n && !str_lt(key.as_str(), entries[j].0.as_str()) && !str_eq(
        key.as_str(),
        entries[j].0.as_str(),
    )
        invariant
            n == entries@.len(),
            0 <= j <= n,
            kv.0 == key,
            forall|k: int|
                0 <= k < j ==> !chars_lt(key@, #[trigger] entries@[k].0@) && entries@[k].0@ != key@,
        decreases n - j,
    {
        j = j + 1;
    }
    if j < n && str_eq(key.as_str(), entries[j].0.as_str()) {
        proof {
            lemma_insert_sorted_replace(entries@, kv, j as int);
        }
        entries[j] = (key, value);
        proof {
            assert(entries@ =~= insert_sorted(old(entries)@, kv));
        }
    } else {
        proof {
            lemma_insert_sorted_fresh(entries@, kv, j as int);
        }
        entries.insert(j, (key, value));
        proof {
            assert(entries@ =~= insert_sorted(old(entries)@, kv));
        }
    }
}

proof fn lemma_insert_sorted_replace(s: Seq<(String, JsonValue)>, kv: (String, JsonValue), j: int)
    requires
        0 <= j < s.len(),
        s[j].0@ == kv.0@,
        forall|k: int| 0 <= k < j ==> !chars_lt(kv.0@, #[trigger] s[k].0@) && s[k].0@ != kv.0@,
    ensures
        insert_sorted(s, kv) == s.update(j, kv),
    decreases j,
{
    if j == 0 {
        assert(!chars_lt(kv.0@, s[0].0@)) by {
            lemma_chars_lt_irrefl(kv.0@);
        }
        assert(insert_sorted(s, kv) == seq![kv] + s.drop_first());
        assert(seq![kv] + s.drop_first() =~= s.update(0, kv));
    } else {
        lemma_insert_sorted_replace(s.drop_first(), kv, j - 1);
        assert(insert_sorted(s, kv) == seq![s[0]] + insert_sorted(s.drop_first(), kv));
        assert(seq![s[0]] + s.drop_first().update(j - 1, kv) =~= s.update(j, kv));
    }
}

proof fn lemma_insert_sorted_fresh(s: Seq<(String, JsonValue)>, kv: (String, JsonValue), j: int)
    requires
        0 <= j <= s.len(),
        forall|k: int| 0 <= k < j ==> !chars_lt(kv.0@, #[trigger] s[k].0@) && s[k].0@ != kv.0@,
        j == s.len() || chars_lt(kv.0@, s[j].0@),
    ensures
        insert_sorted(s, kv) == s.insert(j, kv),
    decreases j,
{
    if j == 0 {
        if s.len() == 0 {
            assert(insert_sorted(s, kv) == seq![kv]);
            assert(seq![kv] =~= s.insert(0, kv));
        } else {
            assert(chars_lt(kv.0@, s[0].0@));
            assert(insert_sorted(s, kv) == seq![kv] + s);
            assert(seq![kv] + s =~= s.insert(0, kv));
        }
    } else {
        lemma_insert_sorted_fresh(s.drop_first(), kv, j - 1);
        assert(insert_sorted(s, kv) == seq![s[0]] + insert_sorted(s.drop_first(), kv));
        assert(seq![s[0]] + s.drop_first().insert(j - 1, kv) =~= s.insert(j, kv));
    }
}

pub proof fn lemma_chars_lt_irrefl(a: Seq<char>)
    ensures
        !chars_lt(a, a),
    decreases a.len(),
{
    if a.len() > 0 {
        lemma_chars_lt_irrefl(a.drop_first());
    }
}

/// Lexicographic order is transitive.
pub proof fn lemma_chars_lt_trans(a: Seq<char>, b: Seq<char>, c: Seq<char>)
    requires
        chars_lt(a, b),
        chars_lt(b, c),
    ensures
        chars_lt(a, c),
    decreases a.len() + b.len() + c.len(),
{
    if b.len() == 0 {
    } else if a.len() == 0 {
    } else if c.len() == 0 {
    } else {
        if a[0] == b[0] && b[0] == c[0] {
            lemma_chars_lt_trans(a.drop_first(), b.drop_first(), c.drop_first());
        }
    }
}

/// Two sequences compare one way, the other, or are equal.
pub proof fn lemma_chars_lt_trichotomy(a: Seq<char>, b: Seq<char>)
    ensures
        chars_lt(a, b) || chars_lt(b, a) || a == b,
    decreases a.len() + b.len(),
{
    if a.len() == 0 && b.len() == 0 {
        assert(a =~= b);
    } else if a.len() > 0 && b.len() > 0 && a[0] == b[0] {
        lemma_chars_lt_trichotomy(a.drop_first(), b.drop_first());
        if a.drop_first() == b.drop_first() {
            assert forall|i: int| 0 <= i < a.len() implies a[i] == b[i] by {
                if i > 0 {
                    assert(a.drop_first()[i - 1] == b.drop_first()[i - 1]);
                }
            }
            assert(a =~= b);
        }
    }
}

/// The keys of an entry list are strictly ordered.
pub open spec fn entries_strictly_sorted(entries: Seq<(String, JsonValue)>) -> bool {
    forall|t1: int, t2: int|
        0 <= t1 < t2 < entries.len() ==> chars_lt(
            (#[trigger] entries[t1]).0@,
            (#[trigger] entries[t2]).0@,
        )
}

/// A sorted insert keeps the keys strictly ordered.
pub proof fn lemma_insert_sorted_stays_sorted(s: Seq<(String, JsonValue)>, kv: (String, JsonValue))
    requires
        entries_strictly_sorted(s),
    ensures
        entries_strictly_sorted(insert_sorted(s, kv)),
    decreases s.len(),
{
    if s.len() == 0 {
    } else if chars_lt(kv.0@, s[0].0@) {
        let r = insert_sorted(s, kv);
        assert forall|t1: int, t2: int|
            0 <= t1 < t2 < r.len() implies chars_lt((#[trigger] r[t1]).0@, (#[trigger] r[t2]).0@)
            by {
            if t1 == 0 {
                if t2 > 1 {
                    lemma_chars_lt_trans(kv.0@, s[0].0@, s[t2 - 1].0@);
                }
            }
        }
    } else if kv.0@ == s[0].0@ {
        let r = insert_sorted(s, kv);
        assert forall|t1: int, t2: int|
            0 <= t1 < t2 < r.len() implies chars_lt((#[trigger] r[t1]).0@, (#[trigger] r[t2]).0@)
            by {
            if t1 == 0 {
                assert(r[t2] == s[t2]);
            }
        }
    } else {
        lemma_chars_lt_trichotomy(kv.0@, s[0].0@);
        assert(chars_lt(s[0].0@, kv.0@));
        lemma_insert_sorted_stays_sorted(s.drop_first(), kv);
        let rest = insert_sorted(s.drop_first(), kv);
        let r = insert_sorted(s, kv);
        assert(r == seq![s[0]] + rest);
        assert forall|t1: int, t2: int|
            0 <= t1 < t2 < r.len() implies chars_lt((#[trigger] r[t1]).0@, (#[trigger] r[t2]).0@)
            by {
            if t1 == 0 {
                assert(r[t2] == rest[t2 - 1]);
                lemma_insert_sorted_members_one(s.drop_first(), kv, t2 - 1);
                if rest[t2 - 1] == kv {
                    assert(chars_lt(s[0].0@, kv.0@));
                } else {
                    let u = choose|u: int|
                        0 <= u < s.drop_first().len() && #[trigger] s.drop_first()[u] == rest[t2
                            - 1];
                    assert(s[u + 1] == rest[t2 - 1]);
                }
            } else {
                assert(r[t1] == rest[t1 - 1] && r[t2] == rest[t2 - 1]);
            }
        }
    }
}

/// Each element of a sorted insert is the new entry or one of the old ones.
pub proof fn lemma_insert_sorted_members_one(
    s: Seq<(String, JsonValue)>,
    kv: (String, JsonValue),
    t: int,
)
    requires
        0 <= t < insert_sorted(s, kv).len(),
    ensures
        insert_sorted(s, kv)[t] == kv || exists|u: int|
            0 <= u < s.len() && #[trigger] s[u] == insert_sorted(s, kv)[t],
    decreases s.len(),
{
    if s.len() == 0 {
    } else if chars_lt(kv.0@, s[0].0@) {
        if t > 0 {
            assert(s[t - 1] == insert_sorted(s, kv)[t]);
        }
    } else if kv.0@ == s[0].0@ {
        if t > 0 {
            assert(s[t] == insert_sorted(s, kv)[t]);
        }
    } else {
        if t == 0 {
            assert(s[0] == insert_sorted(s, kv)[0]);
        } else {
            lemma_insert_sorted_members_one(s.drop_first(), kv, t - 1);
            let e = insert_sorted(s.drop_first(), kv)[t - 1];
            assert(insert_sorted(s, kv)[t] == e);
            if e != kv {
                let u = choose|u: int| 0 <= u < s.drop_first().len() && #[trigger] s.drop_first()[u] == e;
                assert(s[u + 1] == e);
            }
        }
    }
}

/// A sorted insert under a fresh key keeps every old entry.
pub proof fn lemma_insert_sorted_keeps(s: Seq<(String, JsonValue)>, kv: (String, JsonValue), u: int)
    requires
        0 <= u < s.len(),
        forall|t: int| 0 <= t < s.len() ==> (#[trigger] s[t]).0@ != kv.0@,
    ensures
        exists|t: int| 0 <= t < insert_sorted(s, kv).len() && #[trigger] insert_sorted(s, kv)[t]
            == s[u],
    decreases s.len(),
{
    if chars_lt(kv.0@, s[0].0@) {
        assert(insert_sorted(s, kv)[u + 1] == s[u]);
    } else if kv.0@ == s[0].0@ {
        assert(s[0].0@ != kv.0@);
        assert(false);
    } else {
        if u == 0 {
            assert(insert_sorted(s, kv)[0] == s[0]);
        } else {
            lemma_insert_sorted_keeps(s.drop_first(), kv, u - 1);
            let t = choose|t: int|
                0 <= t < insert_sorted(s.drop_first(), kv).len() && #[trigger] insert_sorted(
                    s.drop_first(),
                    kv,
                )[t] == s.drop_first()[u - 1];
            assert(insert_sorted(s, kv)[t + 1] == s[u]);
        }
    }
}

/// A sorted insert contains the inserted entry.
pub proof fn lemma_insert_sorted_has_kv(s: Seq<(String, JsonValue)>, kv: (String, JsonValue))
    ensures
        exists|t: int| 0 <= t < insert_sorted(s, kv).len() && #[trigger] insert_sorted(s, kv)[t]
            == kv,
    decreases s.len(),
{
    if s.len() == 0 {
        assert(insert_sorted(s, kv)[0] == kv);
    } else if chars_lt(kv.0@, s[0].0@) {
        assert(insert_sorted(s, kv)[0] == kv);
    } else if kv.0@ == s[0].0@ {
        assert(insert_sorted(s, kv)[0] == kv);
    } else {
        lemma_insert_sorted_has_kv(s.drop_first(), kv);
        let t = choose|t: int|
            0 <= t < insert_sorted(s.drop_first(), kv).len() && #[trigger] insert_sorted(
                s.drop_first(),
                kv,
            )[t] == kv;
        assert(insert_sorted(s, kv)[t + 1] == kv);
    }
}

} // verus!
