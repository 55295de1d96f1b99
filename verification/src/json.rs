//! The structured-data layer of the template format.
//!
//! A template document is a JSON object.  The codec only ever reads its
//! top-level fields, and of nested values only whether they are strings:
//! array elements and object member values one level down.  `JsonValue`
//! holds exactly that much of a parsed document; everything deeper, and
//! every value of a kind the format never uses, collapses into
//! [`JsonValue::Other`] / [`JsonShallow::NonStr`].
//!
//! Parsing and printing of JSON text is done by serde_json behind the two
//! trusted functions below; everything the rest of the crate knows about
//! them is phrased over [`json_doc_of`], the (deterministic) document each
//! byte string parses to.

use serde_json::from_slice;
use serde_json::to_vec_pretty;
use serde_json::Value;
use vstd::prelude::*;

use crate::ids::str_eq;

verus! {

/// A value one level below the top-level object: only its string-ness is
/// ever relevant.
pub enum JsonShallow {
    Str(String),
    NonStr,
}

/// A value of a top-level field of the document.
pub enum JsonValue {
    Null,
    Str(String),
    Arr(Vec<JsonShallow>),
    Obj(Vec<(String, JsonShallow)>),
    /// A boolean or a number: nothing in the format reads one.
    Other,
}

/// Mathematical model of a [`JsonShallow`].
pub ghost enum JsonShallowModel {
    Str(Seq<char>),
    NonStr,
}

/// Mathematical model of a [`JsonValue`].
pub ghost enum JsonModel {
    Null,
    Str(Seq<char>),
    Arr(Seq<JsonShallowModel>),
    Obj(Seq<(Seq<char>, JsonShallowModel)>),
    Other,
}

impl View for JsonShallow {
    type V = JsonShallowModel;

    open spec fn view(&self) -> JsonShallowModel {
        match self {
            JsonShallow::Str(s) => JsonShallowModel::Str(s@),
            JsonShallow::NonStr => JsonShallowModel::NonStr,
        }
    }
}

impl View for JsonValue {
    type V = JsonModel;

    open spec fn view(&self) -> JsonModel {
        match self {
            JsonValue::Null => JsonModel::Null,
            JsonValue::Str(s) => JsonModel::Str(s@),
            JsonValue::Arr(items) => JsonModel::Arr(
                items@.map_values(|x: JsonShallow| x@),
            ),
            JsonValue::Obj(entries) => JsonModel::Obj(
                entries@.map_values(|kv: (String, JsonShallow)| (kv.0@, kv.1@)),
            ),
            JsonValue::Other => JsonModel::Other,
        }
    }
}

/// The model of a decoded top-level object.
pub open spec fn doc_model(doc: Seq<(String, JsonValue)>) -> Seq<(Seq<char>, JsonModel)> {
    doc.map_values(|kv: (String, JsonValue)| (kv.0@, kv.1@))
}

/// The top-level object that `serde_json::from_slice::<serde_json::Value>`
/// yields on these bytes, reduced to what the codec reads; `None` when the
/// bytes are not a JSON document or the document is not an object.  What a
/// byte string parses to depends on the bytes alone.
pub uninterp spec fn json_doc_of(bytes: Seq<u8>) -> Option<Seq<(Seq<char>, JsonModel)>>;

/// Relies on `serde_json::from_slice::<serde_json::Value>` (with the
/// `preserve_order` feature, so object members keep document order, with
/// the last value winning for a repeated key).  Parsing is a pure function
/// of the bytes; the body only reshapes the parsed tree into `JsonValue`.
#[verifier::external_body]
pub(crate) fn parse_json_document(bytes: &[u8]) -> (r: Option<Vec<(String, JsonValue)>>)
    ensures
        match r {
            Some(doc) => json_doc_of(bytes@) == Some(doc_model(doc@)),
            None => json_doc_of(bytes@) is None,
        },
{
    let shallow = |v: Value| if let Value::String(s) = v { JsonShallow::Str(s) } else { JsonShallow::NonStr };
    match from_slice::<Value>(bytes) {
        Ok(Value::Object(top)) => Some(top.into_iter().map(|(k, v)| (k, match v {
            Value::Null => JsonValue::Null,
            Value::String(s) => JsonValue::Str(s),
            Value::Array(a) => JsonValue::Arr(a.into_iter().map(shallow).collect()),
            Value::Object(o) => JsonValue::Obj(o.into_iter().map(|(k2, v2)| (k2, shallow(v2))).collect()),
            _ => JsonValue::Other,
        })).collect()),
        _ => None,
    }
}

/// No string in the document may stand for a value the emitter cannot
/// write back, and no object may repeat a key, or printing and re-parsing
/// would not return the same document.
pub open spec fn spec_value_emittable(v: JsonModel) -> bool {
    match v {
        JsonModel::Null => true,
        JsonModel::Str(_) => true,
        JsonModel::Arr(items) => forall|i: int| 0 <= i < items.len() ==> items[i] is Str,
        JsonModel::Obj(entries) => {
            &&& forall|i: int| 0 <= i < entries.len() ==> (#[trigger] entries[i]).1 is Str
            &&& forall|i: int, j: int|
                0 <= i < j < entries.len() ==> entries[i].0 != entries[j].0
        },
        JsonModel::Other => false,
    }
}

pub open spec fn spec_doc_emittable(doc: Seq<(Seq<char>, JsonModel)>) -> bool {
    &&& forall|i: int, j: int| 0 <= i < j < doc.len() ==> doc[i].0 != doc[j].0
    &&& forall|i: int| 0 <= i < doc.len() ==> spec_value_emittable((#[trigger] doc[i]).1)
}

/// Relies on `serde_json::to_vec_pretty` on a `serde_json::Value`: it
/// cannot fail, its output contains no zero byte (control characters in
/// strings are escaped), and parsing the output back yields the same
/// object, member order preserved.  The body only reshapes `JsonValue`
/// into a `serde_json::Value` tree.
#[verifier::external_body]
pub(crate) fn emit_json_document(doc: &Vec<(String, JsonValue)>) -> (r: Vec<u8>)
    requires
        spec_doc_emittable(doc_model(doc@)),
    ensures
        json_doc_of(r@) == Some(doc_model(doc@)),
        forall|i: int| 0 <= i < r@.len() ==> r@[i] != 0u8,
{
    let shallow = |s: &JsonShallow| if let JsonShallow::Str(t) = s { Value::String(t.clone()) } else { Value::Null };
    let top: serde_json::Map<String, Value> = doc.iter().map(|(k, v)| (k.clone(), match v {
        JsonValue::Null | JsonValue::Other => Value::Null,
        JsonValue::Str(s) => Value::String(s.clone()),
        JsonValue::Arr(a) => Value::Array(a.iter().map(shallow).collect()),
        JsonValue::Obj(o) => Value::Object(o.iter().map(|(k2, v2)| (k2.clone(), shallow(v2))).collect()),
    })).collect();
    to_vec_pretty(&top).unwrap()
}

/// The value of the first member named `key`, if any.
pub open spec fn spec_lookup(doc: Seq<(Seq<char>, JsonModel)>, key: Seq<char>) -> Option<
    JsonModel,
>
    decreases doc.len(),
{
    if doc.len() == 0 {
        None
    } else if doc[0].0 == key {
        Some(doc[0].1)
    } else {
        spec_lookup(doc.drop_first(), key)
    }
}

/// `spec_lookup` returns the member at the first index whose key matches,
/// and `None` when no key matches.
pub proof fn lemma_lookup_first(doc: Seq<(Seq<char>, JsonModel)>, key: Seq<char>, idx: int)
    requires
        0 <= idx <= doc.len(),
        forall|j: int| 0 <= j < idx ==> (#[trigger] doc[j]).0 != key,
    ensures
        idx < doc.len() && doc[idx].0 == key ==> spec_lookup(doc, key) == Some(doc[idx].1),
        idx == doc.len() && (forall|j: int| 0 <= j < doc.len() ==> (#[trigger] doc[j]).0 != key)
            ==> spec_lookup(doc, key) is None,
    decreases doc.len(),
{
    if doc.len() > 0 {
        if doc[0].0 == key {
        } else {
            let sub = doc.drop_first();
            assert(forall|j: int| 0 <= j < doc.len() - 1 ==> #[trigger] sub[j] == doc[j + 1]);
            lemma_lookup_first(sub, key, if idx > 0 { idx - 1 } else { 0 });
        }
    }
}

/// Find the first member named `key` in a decoded document.
pub fn lookup_field<'a>(doc: &'a Vec<(String, JsonValue)>, key: &str) -> (r: Option<
    &'a JsonValue,
>)
    ensures
        match r {
            Some(v) => spec_lookup(doc_model(doc@), key@) == Some(v@),
            None => spec_lookup(doc_model(doc@), key@) is None,
        },
{
    let n = doc.len();
    for idx in 0..n
        invariant
            n == doc@.len(),
            forall|j: int| 0 <= j < idx ==> (#[trigger] doc_model(doc@)[j]).0 != key@,
    {
        if str_eq(doc[idx].0.as_str(), key) {
            proof {
                lemma_lookup_first(doc_model(doc@), key@, idx as int);
            }
            return Some(&doc[idx].1);
        }
    }
    proof {
        lemma_lookup_first(doc_model(doc@), key@, doc@.len() as int);
    }
    None
}

} // verus!
