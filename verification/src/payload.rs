//! The value moved along links: raw bytes, a structured JSON document, or a
//! carried failure.

use crate::json::{
    byte_urlencoded, chars_lt, encode_bytes_urlencoded, encode_urlencoded, insert_sorted,
    items_views, json_parsed, json_text, json_to_string, lemma_items_views_push, lower_of,
    lowercase, object_insert, parse_json, parse_urlencoded, string_pairs_views, urlencoded_of,
    urlencoded_pairs, utf8_to_string, JsonValue,
};
use crate::util::str_eq;
use vstd::prelude::*;
use vstd::string::StrSliceExecFns;
use vstd::string::StringExecFns;

verus! {

pub const JSON_CONTENT_TYPE: &'static str = "application/json";

pub const URLENCODED_CONTENT_TYPE: &'static str = "application/x-www-form-urlencoded";

#[derive(Debug, PartialEq, Eq)]
pub enum Payload {
    Raw(Vec<u8>),
    Json(JsonValue),
    Error(String),
}

impl Clone for Payload {
    /// A structural copy.  Verified callers do not depend on the result;
    /// the impl exists for unverified embedders and tests.
    fn clone(&self) -> Self {
        match self {
            Payload::Raw(b) => Payload::Raw(b.clone()),
            Payload::Json(v) => Payload::Json(v.clone()),
            Payload::Error(e) => Payload::Error(e.clone()),
        }
    }
}

/// Whether `needle` occurs contiguously inside `hay`.
pub open spec fn contains_seq(hay: Seq<char>, needle: Seq<char>) -> bool {
    exists|i: int|
        0 <= i && i + needle.len() <= hay.len() && #[trigger] hay.subrange(i, i + needle.len())
            == needle
}

/// Relies on str::contains: true exactly when the needle occurs in the hay.
#[verifier::external_body]
pub fn str_contains(hay: &str, needle: &str) -> (r: bool)
    ensures
        r == contains_seq(hay@, needle@),
{
    hay.contains(needle)
}

impl Payload {
    /// `application/json` for a JSON payload, nothing otherwise.
    pub fn content_type(&self) -> (r: Option<&str>)
        ensures
            match self {
                Payload::Json(_) => r matches Some(s) && s@ == "application/json"@,
                _ => r is None,
            },
    {
        match self {
            Payload::Json(_) => {
                proof {
                    reveal_strlit("application/json");
                }
                Some(JSON_CONTENT_TYPE)
            },
            _ => None,
        }
    }

    /// The byte length a body of this payload reports: unknown for JSON,
    /// exact for raw bytes and errors.
    pub fn len(&self) -> (r: Option<usize>)
        ensures
            match self {
                Payload::Json(_) => r is None,
                Payload::Raw(s) => r == Some(s@.len() as usize),
                Payload::Error(e) => r matches Some(n) && n == vstd::utf8::encode_utf8(e@).len() as usize,
            },
    {
        match self {
            Payload::Json(_) => None,
            Payload::Raw(s) => Some(s.len()),
            Payload::Error(e) => Some(e.as_str().len()),
        }
    }

    /// The JSON null payload.
    pub fn json_null() -> (r: Payload)
        ensures
            r == Payload::Json(JsonValue::Null),
    {
        Payload::Json(JsonValue::Null)
    }
}

/// The object the decoded pairs fold into, later pairs overriding earlier
/// ones with the same key, keys kept in order.
pub open spec fn urlenc_object(ps: Seq<(String, String)>) -> Seq<(String, JsonValue)>
    decreases ps.len(),
{
    if ps.len() == 0 {
        Seq::empty()
    } else {
        insert_sorted(urlenc_object(ps.drop_last()), (ps.last().0, JsonValue::Str(ps.last().1)))
    }
}

/// Parses a form-urlencoded byte string into a JSON object's entries.
pub fn urlencoded_bytes_to_map(input: &[u8]) -> (r: Vec<(String, JsonValue)>)
    ensures
        exists|ps: Seq<(String, String)>|
            string_pairs_views(ps) == urlencoded_pairs(input@) && r@ == urlenc_object(ps),
{
    let pairs = parse_urlencoded(input);
    let mut entries: Vec<(String, JsonValue)> = Vec::new();
    let n = pairs.len();
    for i in 0..n
        invariant
            n == pairs@.len(),
            entries@ == urlenc_object(pairs@.take(i as int)),
    {
        let key = pairs[i].0.clone();
        let value = pairs[i].1.clone();
        object_insert(&mut entries, key, JsonValue::Str(value));
        proof {
            assert(pairs@.take(i + 1).drop_last() =~= pairs@.take(i as int));
            assert(pairs@.take(i + 1).last() == pairs@[i as int]);
        }
    }
    proof {
        assert(pairs@.take(n as int) =~= pairs@);
        assert(string_pairs_views(pairs@) == urlencoded_pairs(input@));
    }
    entries
}

/// What decoding bytes under a content type yields; the result's relation
/// to the input (see `Payload::from_bytes`).
pub open spec fn from_bytes_post(
    bytes: Seq<u8>,
    ct: Option<Seq<char>>,
    bytes_value: Vec<u8>,
    r: Option<Payload>,
) -> bool {
    match ct {
        Some(ct) => {
            if contains_seq(ct, "application/json"@) {
                match json_parsed(bytes) {
                    Ok(v) => r == Some(Payload::Json(v)),
                    Err(e) => r matches Some(p) && p matches Payload::Error(m) && m@ == e,
                }
            } else if contains_seq(ct, "application/x-www-form-urlencoded"@) {
                r matches Some(p) && p matches Payload::Json(jv) && jv matches JsonValue::Object(entries)
                    && exists|ps: Seq<(String, String)>|
                    string_pairs_views(ps) == urlencoded_pairs(bytes) && entries@ == urlenc_object(
                    ps,
                )
            } else {
                r == Some(Payload::Raw(bytes_value))
            }
        },
        None => r == Some(Payload::Raw(bytes_value)),
    }
}

/// The view of an optional content type.
pub open spec fn ct_view(content_type: Option<&str>) -> Option<Seq<char>> {
    match content_type {
        Some(c) => Some(c@),
        None => None,
    }
}

impl Payload {
    /// Decodes bytes under a content type: JSON is parsed (a parse failure
    /// becomes an `Error` payload), form-urlencoded text becomes a JSON
    /// object, anything else passes through as raw bytes.
    pub fn from_bytes(bytes: Vec<u8>, content_type: Option<&str>) -> (r: Option<Payload>)
        ensures
            from_bytes_post(bytes@, ct_view(content_type), bytes, r),
    {
        match content_type {
            Some(ct) => {
                if str_contains(ct, "application/json") {
                    match parse_json(bytes.as_slice()) {
                        Ok(v) => Some(Payload::Json(v)),
                        Err(e) => Some(Payload::Error(e)),
                    }
                } else if str_contains(ct, "application/x-www-form-urlencoded") {
                    Some(Payload::Json(JsonValue::Object(urlencoded_bytes_to_map(bytes.as_slice()))))
                } else {
                    Some(Payload::Raw(bytes))
                }
            },
            None => Some(Payload::Raw(bytes)),
        }
    }

    /// Encodes the payload as body bytes.  A JSON string is emitted as its
    /// literal characters unless the caller asks for JSON; any other JSON
    /// value is emitted as canonical JSON text; raw bytes pass through;
    /// an error payload refuses encoding.
    pub fn to_bytes(&self, content_type: Option<&str>) -> (r: Result<Vec<u8>, String>)
        ensures
            to_bytes_post(*self, ct_view(content_type), r),
    {
        let to_json = match content_type {
            Some(ct) => str_contains(ct, "application/json"),
            None => false,
        };
        match self {
            Payload::Json(v) => match v {
                JsonValue::Str(s) => if !to_json {
                    Ok(s.as_str().as_bytes_vec())
                } else {
                    Ok(json_to_string(v).as_str().as_bytes_vec())
                },
                _ => Ok(json_to_string(v).as_str().as_bytes_vec()),
            },
            Payload::Raw(s) => Ok(vstd::slice::slice_to_vec(s.as_slice())),
            Payload::Error(e) => Err(e.clone()),
        }
    }
}

/// What encoding a payload under a content type yields (see
/// `Payload::to_bytes`).
pub open spec fn to_bytes_post(p: Payload, ct: Option<Seq<char>>, r: Result<Vec<u8>, String>) -> bool {
    let to_json = match ct {
        Some(ct) => contains_seq(ct, "application/json"@),
        None => false,
    };
    match p {
        Payload::Json(v) => match v {
            JsonValue::Str(s) => if !to_json {
                r matches Ok(b) && b@ == vstd::utf8::encode_utf8(s@)
            } else {
                r matches Ok(b) && b@ == vstd::utf8::encode_utf8(json_text(v))
            },
            _ => r matches Ok(b) && b@ == vstd::utf8::encode_utf8(json_text(v)),
        },
        Payload::Raw(s) => r matches Ok(b) && b@ == s@,
        Payload::Error(e) => r matches Err(m) && m@ == e@,
    }
}

/// The header pairs a JSON value denotes: for an object, each string-valued
/// entry and each string element of an array-valued entry, in order; other
/// values denote none.
pub open spec fn hdrs_of_payload(p: Payload) -> Seq<(String, String)> {
    match p {
        Payload::Json(JsonValue::Object(entries)) => hdrs_of_entries(entries@),
        _ => Seq::empty(),
    }
}

pub open spec fn hdrs_of_entries(entries: Seq<(String, JsonValue)>) -> Seq<(String, String)>
    decreases entries.len(),
{
    if entries.len() == 0 {
        Seq::empty()
    } else {
        hdrs_of_entries(entries.drop_last()) + hdrs_of_entry(entries.last())
    }
}

pub open spec fn hdrs_of_entry(e: (String, JsonValue)) -> Seq<(String, String)> {
    match e.1 {
        JsonValue::Str(s) => seq![(e.0, s)],
        JsonValue::Array(a) => hdrs_of_array(e.0, a@),
        _ => Seq::empty(),
    }
}

pub open spec fn hdrs_of_array(k: String, a: Seq<JsonValue>) -> Seq<(String, String)>
    decreases a.len(),
{
    if a.len() == 0 {
        Seq::empty()
    } else {
        hdrs_of_array(k, a.drop_last()) + (match a.last() {
            JsonValue::Str(s) => seq![(k, s)],
            _ => Seq::empty(),
        })
    }
}

impl Payload {
    /// The host-header pairs this payload denotes (see `hdrs_of_json`).
    pub fn to_pwm_headers(&self) -> (r: Vec<(String, String)>)
        ensures
            r@ == hdrs_of_payload(*self),
    {
        let mut out: Vec<(String, String)> = Vec::new();
        match self {
            Payload::Json(v) => {
                match v {
                    JsonValue::Object(entries) => {
                        let n = entries.len();
                        for i in 0..n
                            invariant
                                n == entries@.len(),
                                out@ == hdrs_of_entries(entries@.take(i as int)),
                                *self matches Payload::Json(jv) && jv matches JsonValue::Object(e)
                                    && e == entries,
                        {
                            let (k, entry) = &entries[i];
                            match entry {
                                JsonValue::Array(vs) => {
                                    let m = vs.len();
                                    for j in 0..m
                                        invariant
                                            m == vs@.len(),
                                            n == entries@.len(),
                                            i < n,
                                            entries@[i as int].1 matches JsonValue::Array(a) && a
                                                == vs,
                                            entries@[i as int].0 == *k,
                                            out@ == hdrs_of_entries(entries@.take(i as int))
                                                + hdrs_of_array(*k, vs@.take(j as int)),
                                    {
                                        match &vs[j] {
                                            JsonValue::Str(s) => {
                                                out.push((k.clone(), s.clone()));
                                            },
                                            _ => {},
                                        }
                                        proof {
                                            assert(vs@.take(j + 1).drop_last() =~= vs@.take(
                                                j as int,
                                            ));
                                            assert(vs@.take(j + 1).last() == vs@[j as int]);
                                        }
                                    }
                                    proof {
                                        assert(vs@.take(m as int) =~= vs@);
                                        assert(entries@.take(i + 1).drop_last() =~= entries@.take(
                                            i as int,
                                        ));
                                        assert(entries@.take(i + 1).last() == entries@[i as int]);
                                    }
                                },
                                JsonValue::Str(s) => {
                                    out.push((k.clone(), s.clone()));
                                    proof {
                                        assert(entries@.take(i + 1).drop_last() =~= entries@.take(
                                            i as int,
                                        ));
                                        assert(entries@.take(i + 1).last() == entries@[i as int]);
                                        assert(out@ =~= hdrs_of_entries(entries@.take(i + 1)));
                                    }
                                },
                                _ => {
                                    proof {
                                        assert(entries@.take(i + 1).drop_last() =~= entries@.take(
                                            i as int,
                                        ));
                                        assert(entries@.take(i + 1).last() == entries@[i as int]);
                                        assert(out@ =~= hdrs_of_entries(entries@.take(i + 1)));
                                    }
                                },
                            }
                        }
                        proof {
                            assert(entries@.take(n as int) =~= entries@);
                        }
                    },
                    _ => {},
                }
            },
            _ => {},
        }
        out
    }
}

/// The query items a JSON value denotes: object entries become keyed values
/// (arrays one per element, null a bare key, other values their JSON text),
/// a string becomes a bare key, any other value its JSON text as a bare key.
pub open spec fn qitems_of_json(v: JsonValue) -> Seq<(Seq<char>, Option<Seq<char>>)> {
    match v {
        JsonValue::Object(entries) => qitems_of_entries(entries@),
        JsonValue::Str(s) => seq![(s@, None)],
        _ => seq![(json_text(v), None)],
    }
}

pub open spec fn qitems_of_entries(entries: Seq<(String, JsonValue)>) -> Seq<
    (Seq<char>, Option<Seq<char>>),
>
    decreases entries.len(),
{
    if entries.len() == 0 {
        Seq::empty()
    } else {
        qitems_of_entries(entries.drop_last()) + qitems_of_entry(entries.last())
    }
}

pub open spec fn qitems_of_entry(e: (String, JsonValue)) -> Seq<(Seq<char>, Option<Seq<char>>)> {
    match e.1 {
        JsonValue::Array(vs) => qitems_of_array(e.0@, vs@),
        JsonValue::Str(s) => seq![(e.0@, Some(s@))],
        JsonValue::Null => seq![(e.0@, None)],
        _ => seq![(e.0@, Some(json_text(e.1)))],
    }
}

pub open spec fn qitems_of_array(k: Seq<char>, vs: Seq<JsonValue>) -> Seq<
    (Seq<char>, Option<Seq<char>>),
>
    decreases vs.len(),
{
    if vs.len() == 0 {
        Seq::empty()
    } else {
        qitems_of_array(k, vs.drop_last()) + (match vs.last() {
            JsonValue::Str(s) => seq![(k, Some(s@))],
            _ => seq![(k, Some(json_text(vs.last())))],
        })
    }
}

impl Payload {
    /// Renders the payload as a query string: a JSON value is folded into
    /// form-urlencoded items, raw bytes are percent-encoded, an error yields
    /// the empty string.
    pub fn to_pwm_query(&self) -> (r: String)
        ensures
            match self {
                Payload::Json(v) => r@ == urlencoded_of(qitems_of_json(*v)),
                Payload::Raw(s) => r@ == byte_urlencoded(s@),
                Payload::Error(_) => r@ == Seq::<char>::empty(),
            },
    {
        match self {
            Payload::Json(v) => {
                let mut items: Vec<(String, Option<String>)> = Vec::new();
                match v {
                    JsonValue::Object(entries) => {
                        let n = entries.len();
                        for i in 0..n
                            invariant
                                n == entries@.len(),
                                items_views(items@) == qitems_of_entries(entries@.take(i as int)),
                                *v matches JsonValue::Object(e) && e == entries,
                        {
                            let (k, entry) = &entries[i];
                            match entry {
                                JsonValue::Array(vs) => {
                                    let m = vs.len();
                                    for j in 0..m
                                        invariant
                                            m == vs@.len(),
                                            n == entries@.len(),
                                            i < n,
                                            entries@[i as int].1 matches JsonValue::Array(a) && a
                                                == vs,
                                            entries@[i as int].0 == *k,
                                            items_views(items@) == qitems_of_entries(
                                                entries@.take(i as int),
                                            ) + qitems_of_array(k@, vs@.take(j as int)),
                                    {
                                        let ghost items0 = items@;
                                        match &vs[j] {
                                            JsonValue::Str(s) => {
                                                items.push((k.clone(), Some(s.clone())));
                                            },
                                            other => {
                                                items.push((k.clone(), Some(json_to_string(other))));
                                            },
                                        }
                                        proof {
                                            lemma_items_views_push(items0, items@.last());
                                            assert(items@ == items0.push(items@.last()));
                                            assert(vs@.take(j + 1).drop_last() =~= vs@.take(
                                                j as int,
                                            ));
                                            assert(vs@.take(j + 1).last() == vs@[j as int]);
                                            assert(items_views(items@) =~= qitems_of_entries(
                                                entries@.take(i as int),
                                            ) + qitems_of_array(k@, vs@.take(j + 1)));
                                        }
                                    }
                                    proof {
                                        assert(vs@.take(m as int) =~= vs@);
                                        assert(entries@.take(i + 1).drop_last() =~= entries@.take(
                                            i as int,
                                        ));
                                        assert(entries@.take(i + 1).last() == entries@[i as int]);
                                        assert(items_views(items@) =~= qitems_of_entries(
                                            entries@.take(i + 1),
                                        ));
                                    }
                                },
                                JsonValue::Str(s) => {
                                    let ghost items0 = items@;
                                    items.push((k.clone(), Some(s.clone())));
                                    proof {
                                        lemma_items_views_push(items0, items@.last());
                                        assert(items@ == items0.push(items@.last()));
                                        assert(entries@.take(i + 1).drop_last() =~= entries@.take(
                                            i as int,
                                        ));
                                        assert(entries@.take(i + 1).last() == entries@[i as int]);
                                        assert(items_views(items@) =~= qitems_of_entries(
                                            entries@.take(i + 1),
                                        ));
                                    }
                                },
                                JsonValue::Null => {
                                    let ghost items0 = items@;
                                    items.push((k.clone(), None));
                                    proof {
                                        lemma_items_views_push(items0, items@.last());
                                        assert(items@ == items0.push(items@.last()));
                                        assert(entries@.take(i + 1).drop_last() =~= entries@.take(
                                            i as int,
                                        ));
                                        assert(entries@.take(i + 1).last() == entries@[i as int]);
                                        assert(items_views(items@) =~= qitems_of_entries(
                                            entries@.take(i + 1),
                                        ));
                                    }
                                },
                                other => {
                                    let ghost items0 = items@;
                                    items.push((k.clone(), Some(json_to_string(other))));
                                    proof {
                                        lemma_items_views_push(items0, items@.last());
                                        assert(items@ == items0.push(items@.last()));
                                        assert(entries@.take(i + 1).drop_last() =~= entries@.take(
                                            i as int,
                                        ));
                                        assert(entries@.take(i + 1).last() == entries@[i as int]);
                                        assert(items_views(items@) =~= qitems_of_entries(
                                            entries@.take(i + 1),
                                        ));
                                    }
                                },
                            }
                        }
                        proof {
                            assert(entries@.take(n as int) =~= entries@);
                        }
                    },
                    JsonValue::Str(s) => {
                        let ghost items0 = items@;
                        items.push((s.clone(), None));
                        proof {
                            lemma_items_views_push(items0, items@.last());
                            assert(items@ == items0.push(items@.last()));
                            assert(items_views(items@) =~= qitems_of_json(*v));
                        }
                    },
                    other => {
                        let ghost items0 = items@;
                        items.push((json_to_string(other), None));
                        proof {
                            lemma_items_views_push(items0, items@.last());
                            assert(items@ == items0.push(items@.last()));
                            assert(items_views(items@) =~= qitems_of_json(*v));
                        }
                    },
                }
                encode_urlencoded(&items)
            },
            Payload::Raw(s) => encode_bytes_urlencoded(s.as_slice()),
            Payload::Error(_) => String::new(),
        }
    }
}

/// Finds the first entry with the given key in an object's entry list.
fn find_key(entries: &Vec<(String, JsonValue)>, key: &str) -> (r: Option<usize>)
    ensures
        match r {
            Some(j) => 0 <= j < entries@.len() && entries@[j as int].0@ == key@,
            None => forall|t: int| 0 <= t < entries@.len() ==> entries@[t].0@ != key@,
        },
{
    let n = entries.len();
    for i in 0..n
        invariant
            n == entries@.len(),
            forall|t: int| 0 <= t < i ==> entries@[t].0@ != key@,
    {
        if str_eq(entries[i].0.as_str(), key) {
            return Some(i);
        }
    }
    None
}

/// Every element of the result of a sorted insert is the new entry or one
/// of the old ones.
proof fn lemma_insert_sorted_members(s: Seq<(String, JsonValue)>, kv: (String, JsonValue))
    ensures
        forall|t: int|
            0 <= t < insert_sorted(s, kv).len() ==> (#[trigger] insert_sorted(s, kv)[t] == kv
                || exists|u: int| 0 <= u < s.len() && #[trigger] s[u] == insert_sorted(s, kv)[t]),
    decreases s.len(),
{
    if s.len() == 0 {
    } else if chars_lt(kv.0@, s[0].0@) {
    } else if kv.0@ == s[0].0@ {
    } else {
        lemma_insert_sorted_members(s.drop_first(), kv);
        assert forall|t: int| 0 <= t < insert_sorted(s, kv).len() implies (#[trigger] insert_sorted(
            s,
            kv,
        )[t] == kv || exists|u: int| 0 <= u < s.len() && #[trigger] s[u] == insert_sorted(s, kv)[t])
            by {
            if t == 0 {
                assert(s[0] == insert_sorted(s, kv)[0]);
            } else {
                let e = insert_sorted(s.drop_first(), kv)[t - 1];
                assert(insert_sorted(s, kv)[t] == e);
                if e != kv {
                    let u = choose|u: int| 0 <= u < s.drop_first().len() && s.drop_first()[u] == e;
                    assert(s[u + 1] == e);
                }
            }
        }
    }
}

/// The values that arrived under a lowered header name, in arrival order.
pub open spec fn occurrences(pairs: Seq<(String, String)>, key: Seq<char>) -> Seq<Seq<char>>
    decreases pairs.len(),
{
    if pairs.len() == 0 {
        Seq::empty()
    } else {
        let rest = occurrences(pairs.drop_last(), key);
        if lower_of(pairs.last().0@) == key {
            rest.push(pairs.last().1@)
        } else {
            rest
        }
    }
}

/// A key with at least one arrival has an arriving pair behind it.
pub proof fn lemma_occurrences_nonempty(pairs: Seq<(String, String)>, key: Seq<char>)
    requires
        occurrences(pairs, key).len() >= 1,
    ensures
        exists|k: int| 0 <= k < pairs.len() && lower_of((#[trigger] pairs[k]).0@) == key,
    decreases pairs.len(),
{
    if pairs.len() > 0 {
        if lower_of(pairs.last().0@) == key {
            assert(lower_of(pairs[pairs.len() - 1].0@) == key);
        } else {
            lemma_occurrences_nonempty(pairs.drop_last(), key);
            let k = choose|k: int|
                0 <= k < pairs.drop_last().len() && lower_of((#[trigger] pairs.drop_last()[k]).0@)
                    == key;
            assert(lower_of(pairs[k].0@) == key);
        }
    }
}

/// An entry's value reflects its arrivals: a single one as that string, two
/// or more gathered into an array in arrival order.
pub open spec fn entry_value_matches(v: JsonValue, occ: Seq<Seq<char>>) -> bool {
    if occ.len() == 1 {
        v matches JsonValue::Str(s) && s@ == occ[0]
    } else {
        v matches JsonValue::Array(a) && a@.len() == occ.len() && (forall|j: int|
            0 <= j < a@.len() ==> ((#[trigger] a@[j]) matches JsonValue::Str(s2) && s2@ == occ[j]))
    }
}

/// The grouped header object of an arriving pair list: keys strictly
/// ordered, exactly the lowered arriving names, each carrying its arrivals
/// in order.
pub open spec fn headers_object_ok(
    entries: Seq<(String, JsonValue)>,
    pairs: Seq<(String, String)>,
) -> bool {
    &&& crate::json::entries_strictly_sorted(entries)
    &&& forall|t: int|
        #![trigger entries[t]]
        0 <= t < entries.len() ==> exists|k: int|
            0 <= k < pairs.len() && entries[t].0@ == lower_of(#[trigger] pairs[k].0@)
    &&& forall|k: int|
        #![trigger pairs[k]]
        0 <= k < pairs.len() ==> exists|t: int|
            0 <= t < entries.len() && (#[trigger] entries[t]).0@ == lower_of(pairs[k].0@)
    &&& forall|t: int|
        #![trigger entries[t]]
        0 <= t < entries.len() ==> entry_value_matches(
            entries[t].1,
            occurrences(pairs, entries[t].0@),
        ) && occurrences(pairs, entries[t].0@).len() >= 1
}

/// Every key of the entry list is the lower-case folding of some arriving
/// header name.
pub open spec fn headers_keys_lowered(
    entries: Seq<(String, JsonValue)>,
    pairs: Seq<(String, String)>,
) -> bool {
    forall|t: int|
        #![trigger entries[t]]
        0 <= t < entries.len() ==> exists|k: int|
            0 <= k < pairs.len() && entries[t].0@ == lower_of(#[trigger] pairs[k].0@)
}

/// Collects host headers into a JSON object payload: every key in the
/// object is the lower-case folding of some arriving header name; a
/// repeated key's values are gathered into an array in arrival order.
pub fn from_pwm_headers(vec: Vec<(String, String)>) -> (r: Payload)
    ensures
        r matches Payload::Json(jv) && jv matches JsonValue::Object(entries)
            && headers_keys_lowered(entries@, vec@),
{
    let mut entries: Vec<(String, JsonValue)> = Vec::new();
    let n = vec.len();
    let mut i: usize = 0;
    while i < n
        invariant
            n == vec@.len(),
            0 <= i <= n,
            headers_keys_lowered(entries@, vec@),
        decreases n - i,
    {
        let lk = lowercase(vec[i].0.as_str());
        let v = vec[i].1.clone();
        let ghost entries0 = entries@;
        match find_key(&entries, lk.as_str()) {
            Some(j) => {
                let key = entries[j].0.clone();
                let newv = match &entries[j].1 {
                    JsonValue::Str(s) => {
                        let mut arr: Vec<JsonValue> = Vec::new();
                        arr.push(JsonValue::Str(s.clone()));
                        arr.push(JsonValue::Str(v));
                        JsonValue::Array(arr)
                    },
                    JsonValue::Array(a) => {
                        let mut arr = a.clone();
                        arr.push(JsonValue::Str(v));
                        JsonValue::Array(arr)
                    },
                    _ => JsonValue::Str(v),
                };
                entries[j] = (key, newv);
                proof {
                    assert forall|t: int| #![trigger entries@[t]] 0 <= t < entries@.len() implies exists|k: int|
                        0 <= k < vec@.len() && entries@[t].0@ == lower_of(
                        #[trigger] vec@[k].0@,
                    ) by {
                        assert(entries@[t].0@ == entries0[t].0@);
                        let k = choose|k: int|
                            0 <= k < vec@.len() && entries0[t].0@ == lower_of(
                                #[trigger] vec@[k].0@,
                            );
                        assert(0 <= k < vec@.len() && entries@[t].0@ == lower_of(vec@[k].0@));
                    }
                }
            },
            None => {
                proof {
                    lemma_insert_sorted_members(entries0, (lk, JsonValue::Str(v)));
                }
                object_insert(&mut entries, lk, JsonValue::Str(v));
                proof {
                    assert forall|t: int| #![trigger entries@[t]] 0 <= t < entries@.len() implies exists|k: int|
                        0 <= k < vec@.len() && entries@[t].0@ == lower_of(
                        #[trigger] vec@[k].0@,
                    ) by {
                        if entries@[t] == (lk, JsonValue::Str(v)) {
                            assert(entries@[t].0@ == lower_of(vec@[i as int].0@));
                        } else {
                            let u = choose|u: int|
                                0 <= u < entries0.len() && #[trigger] entries0[u] == entries@[t];
                            let k = choose|k: int|
                                0 <= k < vec@.len() && entries0[u].0@ == lower_of(
                                    #[trigger] vec@[k].0@,
                                );
                            assert(0 <= k < vec@.len() && entries@[t].0@ == lower_of(vec@[k].0@));
                        }
                    }
                }
            },
        }
        i = i + 1;
    }
    Payload::Json(JsonValue::Object(entries))
}

/// The host-header pairs of an optional payload: none when absent.
pub fn to_pwm_headers(payload: Option<&Payload>) -> (r: Vec<(String, String)>)
    ensures
        match payload {
            Some(p) => r@ == hdrs_of_payload(*p),
            None => r@ == Seq::<(String, String)>::empty(),
        },
{
    match payload {
        Some(p) => p.to_pwm_headers(),
        None => Vec::new(),
    }
}

/// The bytes a payload encodes to with no content type requested: a JSON
/// string as its characters, other JSON as canonical text, raw bytes as
/// themselves; an error payload has none.
pub open spec fn body_bytes_ok(p: Payload, b: Seq<u8>) -> bool {
    match p {
        Payload::Json(JsonValue::Str(s)) => b == vstd::utf8::encode_utf8(s@),
        Payload::Json(v) => b == vstd::utf8::encode_utf8(json_text(v)),
        Payload::Raw(s) => b == s@,
        Payload::Error(_) => false,
    }
}

/// Encodes an optional payload into an optional body, with no content type
/// requested; an error payload propagates its message.
pub fn to_pwm_body(payload: Option<&Payload>) -> (r: Result<Option<Vec<u8>>, String>)
    ensures
        match payload {
            None => r matches Ok(o) && o is None,
            Some(p) => match p {
                Payload::Error(e) => r matches Err(m) && m@ == e@,
                _ => r matches Ok(o) && o matches Some(b) && body_bytes_ok(*p, b@),
            },
        },
{
    match payload {
        Some(p) => match p.to_bytes(None) {
            Ok(b) => Ok(Some(b)),
            Err(e) => Err(e),
        },
        None => Ok(None),
    }
}

/// The shape of the default failure document: a `message` entry, and a
/// `request_id` entry when a well-formed one was given.
pub open spec fn error_body_shape(
    v: JsonValue,
    message: Seq<char>,
    request_id: Option<Seq<u8>>,
) -> bool {
    &&& v matches JsonValue::Object(entries)
    &&& {
        let entries = v->Object_0;
        &&& entries@.len() >= 1
        &&& entries@[0].0@ == "message"@
        &&& entries@[0].1 matches JsonValue::Str(s) && s@ == message
        &&& match request_id {
            Some(id) => if vstd::utf8::valid_utf8(id) {
                &&& entries@.len() == 2
                &&& entries@[1].0@ == "request_id"@
                &&& entries@[1].1 matches JsonValue::Str(t) && vstd::utf8::encode_utf8(t@) == id
            } else {
                entries@.len() == 1
            },
            None => entries@.len() == 1,
        }
    }
}

/// Builds the default failure document.
pub fn error_body_json(message: &str, request_id: Option<Vec<u8>>) -> (r: JsonValue)
    ensures
        error_body_shape(
            r,
            message@,
            match request_id {
                Some(id) => Some(id@),
                None => None,
            },
        ),
{
    let mut entries: Vec<(String, JsonValue)> = Vec::new();
    entries.push((String::from_str("message"), JsonValue::Str(message.to_owned())));
    proof {
        reveal_strlit("message");
    }
    match request_id {
        Some(id) => match utf8_to_string(id.as_slice()) {
            Some(text) => {
                entries.push((String::from_str("request_id"), JsonValue::Str(text)));
                proof {
                    reveal_strlit("request_id");
                }
            },
            None => {},
        },
        None => {},
    }
    JsonValue::Object(entries)
}

/// Renders the default failure body: the JSON text of the failure document.
pub fn to_json_error_body(message: &str, request_id: Option<Vec<u8>>) -> (r: String)
    ensures
        exists|v: JsonValue|
            error_body_shape(
                v,
                message@,
                match request_id {
                    Some(id) => Some(id@),
                    None => None,
                },
            ) && r@ == json_text(v),
{
    let v = error_body_json(message, request_id);
    json_to_string(&v)
}

/// Round trip of a raw payload: under a content type that asks for neither
/// JSON nor form decoding, decoding the encoded bytes gives the raw bytes
/// back.
pub proof fn lemma_raw_round_trip(
    bytes: Vec<u8>,
    ct: Option<Seq<char>>,
    encoded: Result<Vec<u8>, String>,
    reread: Vec<u8>,
    decoded: Option<Payload>,
)
    requires
        match ct {
            Some(c) => !contains_seq(c, "application/json"@) && !contains_seq(
                c,
                "application/x-www-form-urlencoded"@,
            ),
            None => true,
        },
        to_bytes_post(Payload::Raw(bytes), ct, encoded),
        encoded matches Ok(b) && b == reread,
        from_bytes_post(reread@, ct, reread, decoded),
    ensures
        decoded matches Some(p) && p matches Payload::Raw(b2) && b2@ == bytes@,
{
}

/// A JSON string payload encodes unquoted when no JSON content type is
/// requested: the body is exactly the string's bytes.
pub proof fn lemma_json_string_unquoted(s: String, encoded: Result<Vec<u8>, String>)
    requires
        to_bytes_post(Payload::Json(JsonValue::Str(s)), None, encoded),
    ensures
        encoded matches Ok(b) && b@ == vstd::utf8::encode_utf8(s@),
{
}

} // verus!
