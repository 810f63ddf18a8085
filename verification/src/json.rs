//! JSON documents, as the backup file holds them.
use vstd::prelude::*;
use crate::text::{chars_eq, chars_of, string_of};

verus! {

/// A JSON value. A number is `UInt` when it reads as a `u64`, else `Int`
/// when it reads as an `i64`, else `OtherNumber`.
pub enum Json {
    Null,
    Bool(bool),
    UInt(u64),
    Int(i64),
    OtherNumber,
    Str(String),
    Array(Vec<Json>),
    Object(Vec<(String, Json)>),
}

/// A JSON value with its text as characters.
pub ghost enum JsonV {
    Null,
    Bool(bool),
    UInt(u64),
    Int(i64),
    OtherNumber,
    Str(Seq<char>),
    Array(Seq<JsonV>),
    Object(Seq<(Seq<char>, JsonV)>),
}

/// The model of a JSON value.
pub open spec fn json_view(j: Json) -> JsonV
    decreases j,
{
    match j {
        Json::Null => JsonV::Null,
        Json::Bool(b) => JsonV::Bool(b),
        Json::UInt(n) => JsonV::UInt(n),
        Json::Int(n) => JsonV::Int(n),
        Json::OtherNumber => JsonV::OtherNumber,
        Json::Str(s) => JsonV::Str(s@),
        Json::Array(v) => JsonV::Array(
            Seq::new(
                v.len() as nat,
                |i: int|
                    if 0 <= i < v.len() {
                        json_view(v@[i])
                    } else {
                        JsonV::Null
                    },
            ),
        ),
        Json::Object(es) => JsonV::Object(
            Seq::new(
                es.len() as nat,
                |i: int|
                    if 0 <= i < es.len() {
                        (es@[i].0@, json_view(es@[i].1))
                    } else {
                        (Seq::empty(), JsonV::Null)
                    },
            ),
        ),
    }
}

impl View for Json {
    type V = JsonV;

    open spec fn view(&self) -> JsonV {
        json_view(*self)
    }
}

/// The value under `key` among an object's entries: the first entry with
/// that key, `null` when there is none.
pub open spec fn lookup(es: Seq<(Seq<char>, JsonV)>, key: Seq<char>) -> JsonV
    decreases es.len(),
{
    if es.len() == 0 {
        JsonV::Null
    } else if es[0].0 == key {
        es[0].1
    } else {
        lookup(es.drop_first(), key)
    }
}

/// The first entry with a key is the one `lookup` finds.
pub proof fn lemma_lookup_at(es: Seq<(Seq<char>, JsonV)>, k: int)
    requires
        0 <= k < es.len(),
        forall|m: int| 0 <= m < k ==> es[m].0 != es[k].0,
    ensures
        lookup(es, es[k].0) == es[k].1,
    decreases k,
{
    if k > 0 {
        let t = es.drop_first();
        assert(t[k - 1] == es[k]);
        assert forall|m: int| 0 <= m < k - 1 implies (#[trigger] t[m]).0 != t[k - 1].0 by {
            assert(t[m] == es[m + 1]);
        }
        lemma_lookup_at(t, k - 1);
    }
}

/// `value[key]`: the value under `key` in an object, `null` for anything
/// else.
pub open spec fn field(j: JsonV, key: Seq<char>) -> JsonV {
    match j {
        JsonV::Object(es) => lookup(es, key),
        _ => JsonV::Null,
    }
}

/// `Value::as_str`.
pub open spec fn as_str(j: JsonV) -> Option<Seq<char>> {
    match j {
        JsonV::Str(s) => Some(s),
        _ => None,
    }
}

/// `Value::as_u64`.
pub open spec fn as_u64(j: JsonV) -> Option<u64> {
    match j {
        JsonV::UInt(n) => Some(n),
        _ => None,
    }
}

/// `Value::as_i64`.
pub open spec fn as_i64(j: JsonV) -> Option<i64> {
    match j {
        JsonV::UInt(n) => if n <= i64::MAX {
            Some(n as i64)
        } else {
            None
        },
        JsonV::Int(n) => Some(n),
        _ => None,
    }
}

/// `Value::as_bool`.
pub open spec fn as_bool(j: JsonV) -> Option<bool> {
    match j {
        JsonV::Bool(b) => Some(b),
        _ => None,
    }
}

/// The items of an array; none for anything else.
pub open spec fn items(j: JsonV) -> Seq<JsonV> {
    match j {
        JsonV::Array(v) => v,
        _ => Seq::empty(),
    }
}

/// An optional text, by its characters.
pub open spec fn opt_text(o: Option<String>) -> Option<Seq<char>> {
    match o {
        Some(s) => Some(s@),
        None => None,
    }
}

/// The value under `key`, when `j` is an object that has it.
pub fn get_field<'a>(j: &'a Json, key: &str) -> (r: Option<&'a Json>)
    ensures
        match r {
            Some(v) => v@ == field(j@, key@),
            None => field(j@, key@) == JsonV::Null,
        },
{
    match j {
        Json::Object(es) => {
            let k = chars_of(key);
            let ghost ev = match j@ {
                JsonV::Object(x) => x,
                _ => Seq::empty(),
            };
            assert(ev.len() == es.len());
            assert(ev.skip(0) =~= ev);
            let mut i: usize = 0;
            while i < es.len()
                invariant
                    i <= es.len(),
                    k@ == key@,
                    j@ == JsonV::Object(ev),
                    ev.len() == es.len(),
                    forall|m: int| 0 <= m < es.len() ==> #[trigger] ev[m] == (es@[m].0@, es@[m].1@),
                    lookup(ev, key@) == lookup(ev.skip(i as int), key@),
                decreases es.len() - i,
            {
                assert(ev.skip(i as int)[0] == ev[i as int]);
                assert(ev.skip(i as int).drop_first() =~= ev.skip(i + 1));
                if chars_eq(&chars_of(es[i].0.as_str()), &k) {
                    return Some(&es[i].1);
                }
                i = i + 1;
            }
            None
        },
        _ => None,
    }
}

/// `Value::as_str`, as an owned string.
pub fn str_value(j: Option<&Json>) -> (r: Option<String>)
    ensures
        opt_text(r) == match j {
            Some(v) => as_str(v@),
            None => None,
        },
{
    match j {
        Some(Json::Str(s)) => Some(string_of(&chars_of(s.as_str()))),
        _ => None,
    }
}

/// `Value::as_u64`.
pub fn u64_value(j: Option<&Json>) -> (r: Option<u64>)
    ensures
        r == match j {
            Some(v) => as_u64(v@),
            None => None,
        },
{
    match j {
        Some(Json::UInt(n)) => Some(*n),
        _ => None,
    }
}

/// `Value::as_i64`.
pub fn i64_value(j: Option<&Json>) -> (r: Option<i64>)
    ensures
        r == match j {
            Some(v) => as_i64(v@),
            None => None,
        },
{
    match j {
        Some(Json::UInt(n)) => if *n <= 0x7fff_ffff_ffff_ffff {
            Some(*n as i64)
        } else {
            None
        },
        Some(Json::Int(n)) => Some(*n),
        _ => None,
    }
}

/// `Value::as_bool`.
pub fn bool_value(j: Option<&Json>) -> (r: Option<bool>)
    ensures
        r == match j {
            Some(v) => as_bool(v@),
            None => None,
        },
{
    match j {
        Some(Json::Bool(b)) => Some(*b),
        _ => None,
    }
}

/// The items of an array, when `j` is one.
pub fn array_items(j: Option<&Json>) -> (r: Option<&Vec<Json>>)
    ensures
        match r {
            Some(v) => j is Some && v@.len() == items(j->0@).len() && forall|i: int|
                0 <= i < v.len() ==> (#[trigger] v@[i])@ == items(j->0@)[i],
            None => j is None || items(j->0@).len() == 0,
        },
{
    match j {
        Some(Json::Array(v)) => Some(v),
        _ => None,
    }
}

/// The entries of an object, by their models.
pub open spec fn entries_view(es: Seq<(String, Json)>) -> Seq<(Seq<char>, JsonV)> {
    Seq::new(es.len(), |i: int| (es[i].0@, es[i].1@))
}

/// The items of an array, by their models.
pub open spec fn items_view(v: Seq<Json>) -> Seq<JsonV> {
    Seq::new(v.len(), |i: int| v[i]@)
}

/// The model of an object is the object of its entries' models.
pub proof fn lemma_object_view(es: Vec<(String, Json)>)
    ensures
        Json::Object(es)@ == JsonV::Object(entries_view(es@)),
{
    assert(match Json::Object(es)@ {
        JsonV::Object(x) => x =~= entries_view(es@),
        _ => false,
    });
}

/// The model of an array is the array of its items' models.
pub proof fn lemma_array_view(v: Vec<Json>)
    ensures
        Json::Array(v)@ == JsonV::Array(items_view(v@)),
{
    assert(match Json::Array(v)@ {
        JsonV::Array(x) => x =~= items_view(v@),
        _ => false,
    });
}

/// Adds the entry `key: value` at the end of an object being built.
pub fn put(es: &mut Vec<(String, Json)>, key: &str, value: Json)
    ensures
        entries_view(final(es)@) == entries_view(old(es)@).push((key@, value@)),
{
    let ghost v = value@;
    es.push((string_of(&chars_of(key)), value));
    assert(entries_view(es@) =~= entries_view(old(es)@).push((key@, v)));
}

/// A string value.
pub fn text_json(s: &str) -> (r: Json)
    ensures
        r@ == JsonV::Str(s@),
{
    Json::Str(string_of(&chars_of(s)))
}

#[verifier::external_type_specification]
#[verifier::external_body]
pub struct ExJsonValue(serde_json::Value);

/// The JSON document that `serde_json::from_slice` reads from `bytes`, as
/// a `Json`; `None` when it reads none.
pub uninterp spec fn json_of(bytes: Seq<u8>) -> Option<JsonV>;

/// The bytes that `serde_json::to_vec_pretty` writes for a document.
pub uninterp spec fn json_text(j: JsonV) -> Seq<u8>;

/// A `serde_json::Value` as a `Json`, variant for variant; a number goes
/// through `Number::as_u64`, then `Number::as_i64`.
#[verifier::external_body]
fn json_from_value(v: serde_json::Value) -> Json {
    match v {
        serde_json::Value::Null => Json::Null,
        serde_json::Value::Bool(b) => Json::Bool(b),
        serde_json::Value::Number(n) => match (n.as_u64(), n.as_i64()) {
            (Some(u), _) => Json::UInt(u),
            (None, Some(i)) => Json::Int(i),
            _ => Json::OtherNumber,
        },
        serde_json::Value::String(s) => Json::Str(s),
        serde_json::Value::Array(a) => Json::Array(a.into_iter().map(json_from_value).collect()),
        serde_json::Value::Object(m) => Json::Object(m.into_iter().map(|(k, x)| (k, json_from_value(x))).collect()),
    }
}

/// A `Json` as a `serde_json::Value`, variant for variant.
#[verifier::external_body]
fn value_from_json(j: &Json) -> serde_json::Value {
    match j {
        Json::Null | Json::OtherNumber => serde_json::Value::Null,
        Json::Bool(b) => serde_json::Value::Bool(*b),
        Json::UInt(n) => serde_json::Value::from(*n),
        Json::Int(n) => serde_json::Value::from(*n),
        Json::Str(s) => serde_json::Value::String(s.clone()),
        Json::Array(v) => serde_json::Value::Array(v.iter().map(value_from_json).collect()),
        Json::Object(es) => serde_json::Value::Object(es.iter().map(|(k, x)| (k.clone(), value_from_json(x))).collect()),
    }
}

/// `serde_json::from_slice` into a `serde_json::Value`: the document the
/// bytes hold, or `None` when they are not JSON (or nest deeper than the
/// parser allows).
#[verifier::external_body]
pub fn parse_json(bytes: &[u8]) -> (r: Option<Json>)
    ensures
        match r {
            Some(j) => json_of(bytes@) == Some(j@),
            None => json_of(bytes@) is None,
        },
{
    serde_json::from_slice::<serde_json::Value>(bytes).ok().map(json_from_value)
}

/// `serde_json::to_vec_pretty` of a document. Writing a `Value` does not
/// fail: its object keys are strings.
#[verifier::external_body]
pub fn json_bytes(j: &Json) -> (r: Vec<u8>)
    ensures
        r@ == json_text(j@),
{
    serde_json::to_vec_pretty(&value_from_json(j)).unwrap_or_default()
}

} // verus!
