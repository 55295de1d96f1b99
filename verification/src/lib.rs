//! A verified codec for the ALCOM template definition file format.
//!
//! A template definition file is a JSON document, optionally followed by a
//! single zero byte and an opaque binary tail, describing a reusable
//! project scaffold: a display name, an optional identity, a base-template
//! reference, an optional platform-version constraint, named dependencies
//! with version constraints, and bundled file paths.  This crate parses,
//! validates and serializes that format; [`spec_parse`] is the one
//! mathematical description of what any byte string means.

pub mod codec;
pub mod header;
pub mod ids;
pub mod json;
pub mod laws;

pub use codec::AlcomTemplate;
pub use codec::ParseError;
pub use header::parse_format_version;
pub use ids::is_valid_base_id;
pub use ids::is_valid_id;
pub use ids::validate_identifier;

use vstd::prelude::*;
use vstd::slice::slice_index_get;
use vstd::slice::slice_subrange;

use crate::codec::decode_document;
use crate::codec::encode_document;
use crate::codec::pairs_model;
use crate::codec::spec_encode;
use crate::codec::spec_parse_doc;
use crate::codec::ParseErrorModel;
use crate::codec::TemplateModel;
use crate::ids::str_eq;
use crate::json::emit_json_document;
use crate::json::json_doc_of;
use crate::json::parse_json_document;
use crate::json::spec_doc_emittable;
use crate::json::spec_value_emittable;
use crate::json::JsonShallowModel;

verus! {

/// The index of the first zero byte, or the length when there is none:
/// the document is everything before it, the rest is an uninterpreted
/// binary tail.
pub open spec fn spec_first_zero(b: Seq<u8>) -> int
    decreases b.len(),
{
    if b.len() == 0 {
        0
    } else if b[0] == 0 {
        0
    } else {
        1 + spec_first_zero(b.drop_first())
    }
}

/// `spec_first_zero` is the only index with no zero byte before it and a
/// zero byte (or the end) at it.
pub proof fn lemma_first_zero_is(b: Seq<u8>, d: int)
    requires
        0 <= d <= b.len(),
        forall|j: int| 0 <= j < d ==> b[j] != 0,
        d < b.len() ==> b[d] == 0,
    ensures
        spec_first_zero(b) == d,
    decreases b.len(),
{
    if b.len() == 0 {
    } else if b[0] == 0 {
        assert(d == 0);
    } else {
        assert(d >= 1);
        assert(forall|j: int| 0 <= j < b.len() - 1 ==> #[trigger] b.drop_first()[j] == b[j + 1]);
        lemma_first_zero_is(b.drop_first(), d - 1);
    }
}

/// What a byte string parses to: the document before the first zero byte,
/// decoded and validated.
pub open spec fn spec_parse(bytes: Seq<u8>) -> Result<TemplateModel, ParseErrorModel> {
    match json_doc_of(bytes.take(spec_first_zero(bytes))) {
        Some(doc) => spec_parse_doc(doc),
        None => Err(ParseErrorModel::MalformedDocument("document"@)),
    }
}

/// Parse a template definition file.
///
/// Only the bytes before the first zero byte are interpreted; anything
/// after it never affects the result.
pub fn parse_alcom_template(alcom_template: &[u8]) -> (r: Result<AlcomTemplate, ParseError>)
    ensures
        match r {
            Ok(t) => spec_parse(alcom_template@) == Ok::<TemplateModel, ParseErrorModel>(t@),
            Err(e) => spec_parse(alcom_template@) == Err::<TemplateModel, ParseErrorModel>(e@),
        },
        r matches Ok(t) ==> crate::laws::spec_template_wf(t@),
{
    let n = alcom_template.len();
    let mut end: usize = 0;
    while end < n && *slice_index_get(alcom_template, end) != 0u8
        invariant
            end <= n,
            n == alcom_template@.len(),
            forall|j: int| 0 <= j < end ==> alcom_template@[j] != 0,
        decreases n - end,
    {
        end = end + 1;
    }
    proof {
        lemma_first_zero_is(alcom_template@, end as int);
    }
    let json = slice_subrange(alcom_template, 0, end);
    proof {
        assert(json@ =~= alcom_template@.take(spec_first_zero(alcom_template@)));
    }
    match parse_json_document(json) {
        Some(doc) => {
            let r = decode_document(&doc);
            proof {
                if r is Ok {
                    crate::laws::lemma_parsed_is_wf(
                        crate::json::doc_model(doc@),
                        r->Ok_0@,
                    );
                }
            }
            r
        },
        None => Err(ParseError::MalformedDocument("document".to_owned())),
    }
}

/// Why a template could not be encoded.
#[derive(Debug, Clone, PartialEq, Eq)]
pub enum EncodeError {
    /// Two dependencies share this package name.
    DuplicateDependency(String),
}

/// A template can be written back faithfully iff no two dependencies
/// share a package name: the document carries them as a JSON object,
/// which cannot repeat a key.
pub open spec fn spec_template_encodable(m: TemplateModel) -> bool {
    forall|i: int, j: int|
        0 <= i < j < m.vpm_dependencies.len() ==> (#[trigger] m.vpm_dependencies[i]).0 != (
        #[trigger] m.vpm_dependencies[j]).0
}

/// `bytes` is a serialization of `m`: it parses back to the document `m`
/// encodes to, and holds no zero byte, so a binary tail can follow it.
pub open spec fn spec_is_serialization_of(m: TemplateModel, bytes: Seq<u8>) -> bool {
    &&& json_doc_of(bytes) == Some(spec_encode(m))
    &&& forall|i: int| 0 <= i < bytes.len() ==> bytes[i] != 0
}

/// The document a template encodes to can always be emitted: its nine
/// field names are distinct, and every value is null, a string, strings,
/// or a map of distinct keys to strings.
proof fn lemma_encode_emittable(m: TemplateModel)
    requires
        spec_template_encodable(m),
    ensures
        spec_doc_emittable(spec_encode(m)),
{
    let doc = spec_encode(m);
    reveal_strlit("$type");
    reveal_strlit("formatVersion");
    reveal_strlit("displayName");
    reveal_strlit("updateDate");
    reveal_strlit("id");
    reveal_strlit("base");
    reveal_strlit("unityVersion");
    reveal_strlit("vpmDependencies");
    reveal_strlit("unityPackages");
    assert(doc.len() == 9);
    assert("$type"@.len() == 5);
    assert("formatVersion"@.len() == 13);
    assert("displayName"@.len() == 11);
    assert("updateDate"@.len() == 10);
    assert("id"@.len() == 2);
    assert("base"@.len() == 4);
    assert("unityVersion"@.len() == 12);
    assert("vpmDependencies"@.len() == 15);
    assert("unityPackages"@.len() == 13);
    assert("formatVersion"@[0] == 'f');
    assert("unityPackages"@[0] == 'u');
    assert(forall|i: int, j: int| 0 <= i < j < doc.len() ==> doc[i].0 != doc[j].0);
    let entries = m.vpm_dependencies.map_values(
        |p: (Seq<char>, Seq<char>)| (p.0, JsonShallowModel::Str(p.1)),
    );
    assert forall|i: int, j: int| 0 <= i < j < entries.len() implies entries[i].0
        != entries[j].0 by {
        assert(entries[i].0 == m.vpm_dependencies[i].0);
        assert(entries[j].0 == m.vpm_dependencies[j].0);
    }
    assert(spec_value_emittable(doc[7].1));
    assert(spec_value_emittable(doc[8].1));
    assert(forall|i: int| 0 <= i < doc.len() ==> spec_value_emittable((#[trigger] doc[i]).1));
}

/// Scan the dependency list for a repeated package name.
fn find_duplicate_key(deps: &Vec<(String, String)>) -> (r: Option<String>)
    ensures
        match r {
            Some(k) => exists|i: int, j: int|
                0 <= i < j < deps@.len() && (#[trigger] pairs_model(deps@)[i]).0 == k@ && (
                #[trigger] pairs_model(deps@)[j]).0 == k@,
            None => forall|i: int, j: int|
                0 <= i < j < deps@.len() ==> (#[trigger] pairs_model(deps@)[i]).0 != (
                #[trigger] pairs_model(deps@)[j]).0,
        },
{
    let n = deps.len();
    for i in 0..n
        invariant
            n == deps@.len(),
            forall|a: int, b: int|
                0 <= a < b < n && a < i ==> (#[trigger] pairs_model(deps@)[a]).0 != (
                #[trigger] pairs_model(deps@)[b]).0,
    {
        let mut j = i + 1;
        while j < n
            invariant
                n == deps@.len(),
                i < j,
                i < n,
                forall|b: int|
                    i < b < j ==> (#[trigger] pairs_model(deps@)[b]).0 != pairs_model(
                        deps@,
                    )[i as int].0,
            decreases n - j,
        {
            if str_eq(deps[i].0.as_str(), deps[j].0.as_str()) {
                let key = deps[i].0.clone();
                proof {
                    assert((pairs_model(deps@)[i as int]).0 == key@);
                    assert((pairs_model(deps@)[j as int]).0 == key@);
                }
                return Some(key);
            }
            j = j + 1;
        }
    }
    None
}

/// Serialize a template: a synthesized header (the magic tag and format
/// version `"1.0"`) and every content field, in a stable pretty layout
/// with no trailing binary section.
///
/// No semantic re-validation is performed: prefix rules for `id` and
/// `base` are the parser's business, and a caller holding such a value
/// can write it.  Only what encoding itself needs is checked, that no
/// dependency package name repeats.
pub fn serialize_alcom_template(template: AlcomTemplate) -> (r: Result<Vec<u8>, EncodeError>)
    ensures
        spec_template_encodable(template@) ==> (r matches Ok(bytes)
            && spec_is_serialization_of(template@, bytes@)),
        !spec_template_encodable(template@) ==> (r matches Err(e) && e matches
            EncodeError::DuplicateDependency(k) && exists|i: int, j: int|
            0 <= i < j < template@.vpm_dependencies.len() && (
            #[trigger] template@.vpm_dependencies[i]).0 == k@ && (
            #[trigger] template@.vpm_dependencies[j]).0 == k@),
{
    if let Some(k) = find_duplicate_key(&template.vpm_dependencies) {
        return Err(EncodeError::DuplicateDependency(k));
    }
    proof {
        lemma_encode_emittable(template@);
    }
    let doc = encode_document(&template);
    Ok(emit_json_document(&doc))
}

} // verus!
