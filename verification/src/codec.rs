//! The content codec: between the in-memory template and the fields of the
//! JSON document, plus the post-decode semantic validation.
//!
//! Decoding applies the identifier character-class check to `id` and
//! `base` as the raw strings are read (structural validity); the prefix
//! rules are applied afterwards on the fully decoded value (semantic
//! validity).  `vpmDependencies` and `unityPackages` default to empty when
//! absent; `updateDate`, `id` and `unityVersion` are nullable.

use vstd::prelude::*;

use crate::header::spec_magic;
use crate::header::spec_parse_format_version;
use crate::header::magic_tag;
use crate::header::parse_format_version;
use crate::ids::spec_is_valid_base_id;
use crate::ids::spec_is_valid_id;
use crate::ids::spec_valid_identifier;
use crate::ids::is_valid_base_id;
use crate::ids::is_valid_id;
use crate::ids::str_eq;
use crate::ids::validate_identifier;
use crate::json::JsonModel;
use crate::json::JsonShallow;
use crate::json::JsonShallowModel;
use crate::json::JsonValue;
use crate::json::doc_model;
use crate::json::lookup_field;
use crate::json::spec_lookup;

verus! {

/// A template definition: a display name, an optional identity, the base
/// template it derives from, an optional platform-version constraint,
/// named dependencies with version constraints, and bundled file paths.
///
/// Timestamps and version ranges are carried as their validated string
/// forms; converting them to richer calendar or constraint types is the
/// caller's business.
#[derive(Debug, Clone, PartialEq, Eq)]
pub struct AlcomTemplate {
    pub display_name: String,
    /// RFC 3339 timestamp, already checked to parse.
    pub update_date: Option<String>,
    pub id: Option<String>,
    pub base: String,
    /// Version-range expression, already checked to parse.
    pub unity_version: Option<String>,
    /// Insertion-ordered, keys unique; values are version-range expressions.
    pub vpm_dependencies: Vec<(String, String)>,
    pub unity_packages: Vec<String>,
}

/// Mathematical model of an [`AlcomTemplate`].
#[verifier::ext_equal]
pub ghost struct TemplateModel {
    pub display_name: Seq<char>,
    pub update_date: Option<Seq<char>>,
    pub id: Option<Seq<char>>,
    pub base: Seq<char>,
    pub unity_version: Option<Seq<char>>,
    pub vpm_dependencies: Seq<(Seq<char>, Seq<char>)>,
    pub unity_packages: Seq<Seq<char>>,
}

pub open spec fn opt_string_view(o: &Option<String>) -> Option<Seq<char>> {
    match o {
        Some(s) => Some(s@),
        None => None,
    }
}

/// The model of a dependency list.
pub open spec fn pairs_model(v: Seq<(String, String)>) -> Seq<(Seq<char>, Seq<char>)> {
    v.map_values(|kv: (String, String)| (kv.0@, kv.1@))
}

/// The model of a path list.
pub open spec fn strings_model(v: Seq<String>) -> Seq<Seq<char>> {
    v.map_values(|s: String| s@)
}

impl View for AlcomTemplate {
    type V = TemplateModel;

    open spec fn view(&self) -> TemplateModel {
        TemplateModel {
            display_name: self.display_name@,
            update_date: opt_string_view(&self.update_date),
            id: opt_string_view(&self.id),
            base: self.base@,
            unity_version: opt_string_view(&self.unity_version),
            vpm_dependencies: pairs_model(self.vpm_dependencies@),
            unity_packages: strings_model(self.unity_packages@),
        }
    }
}

/// Why a document was rejected; each variant carries the offending field
/// name or value.
#[derive(Debug, Clone, PartialEq, Eq)]
pub enum ParseError {
    /// Not a JSON object, or a required field missing or of the wrong type.
    MalformedDocument(String),
    /// The `$type` tag is not the magic value.
    UnrecognizedFormat(String),
    /// `formatVersion` does not parse as `major.minor`, or the major
    /// version is not 1.
    UnsupportedVersion(String),
    /// An `id` or `base` string is empty or holds a character outside the
    /// identifier class.
    InvalidIdentifierSyntax(String),
    /// An `id` in the reserved namespace that is not a well-formed unnamed
    /// template id.
    ReservedIdentifierMisuse(String),
    /// A `base` with a prefix forbidden for base references.
    InvalidBaseReference(String),
}

/// Mathematical model of a [`ParseError`].
pub ghost enum ParseErrorModel {
    MalformedDocument(Seq<char>),
    UnrecognizedFormat(Seq<char>),
    UnsupportedVersion(Seq<char>),
    InvalidIdentifierSyntax(Seq<char>),
    ReservedIdentifierMisuse(Seq<char>),
    InvalidBaseReference(Seq<char>),
}

impl View for ParseError {
    type V = ParseErrorModel;

    open spec fn view(&self) -> ParseErrorModel {
        match self {
            ParseError::MalformedDocument(s) => ParseErrorModel::MalformedDocument(s@),
            ParseError::UnrecognizedFormat(s) => ParseErrorModel::UnrecognizedFormat(s@),
            ParseError::UnsupportedVersion(s) => ParseErrorModel::UnsupportedVersion(s@),
            ParseError::InvalidIdentifierSyntax(s) => ParseErrorModel::InvalidIdentifierSyntax(s@),
            ParseError::ReservedIdentifierMisuse(s) => ParseErrorModel::ReservedIdentifierMisuse(
                s@,
            ),
            ParseError::InvalidBaseReference(s) => ParseErrorModel::InvalidBaseReference(s@),
        }
    }
}

/// Whether a string is an RFC 3339 timestamp, as chrono reads one.
pub uninterp spec fn spec_is_rfc3339_datetime(s: Seq<char>) -> bool;

/// Relies on chrono's `FromStr for DateTime<FixedOffset>`, the parser
/// behind chrono's serde support for timestamp strings; whether a string
/// parses depends on its characters alone.
#[verifier::external_body]
fn check_datetime(s: &str) -> (r: bool)
    ensures
        r == spec_is_rfc3339_datetime(s@),
{
    s.parse::<chrono::DateTime<chrono::FixedOffset>>().is_ok()
}

/// Whether a string is a version-range expression, as the package manager
/// reads one.
pub uninterp spec fn spec_is_version_range(s: Seq<char>) -> bool;

/// Relies on `FromStr for vrc_get_vpm::version::VersionRange`, the parser
/// behind that type's serde support; whether a string parses depends on
/// its characters alone.
#[verifier::external_body]
fn check_version_range(s: &str) -> (r: bool)
    ensures
        r == spec_is_version_range(s@),
{
    s.parse::<vrc_get_vpm::version::VersionRange>().is_ok()
}

// ---------------------------------------------------------------------
// Header fields
// ---------------------------------------------------------------------

/// Check `$type` and `formatVersion`: both must be present as strings,
/// the tag must be the magic value, and the major version must be 1.
pub open spec fn spec_check_header(doc: Seq<(Seq<char>, JsonModel)>) -> Result<
    (),
    ParseErrorModel,
> {
    match spec_lookup(doc, "$type"@) {
        Some(JsonModel::Str(ty)) => match spec_lookup(doc, "formatVersion"@) {
            Some(JsonModel::Str(fv)) => if ty != spec_magic() {
                Err(ParseErrorModel::UnrecognizedFormat(ty))
            } else {
                match spec_parse_format_version(fv) {
                    Some(v) => if v.0 == 1 {
                        Ok(())
                    } else {
                        Err(ParseErrorModel::UnsupportedVersion(fv))
                    },
                    None => Err(ParseErrorModel::UnsupportedVersion(fv)),
                }
            },
            _ => Err(ParseErrorModel::MalformedDocument("formatVersion"@)),
        },
        _ => Err(ParseErrorModel::MalformedDocument("$type"@)),
    }
}

fn check_header(doc: &Vec<(String, JsonValue)>) -> (r: Result<(), ParseError>)
    ensures
        match r {
            Ok(_) => spec_check_header(doc_model(doc@)) == Ok::<(), ParseErrorModel>(()),
            Err(e) => spec_check_header(doc_model(doc@)) == Err::<(), ParseErrorModel>(e@),
        },
{
    let ty = match lookup_field(doc, "$type") {
        Some(JsonValue::Str(s)) => s,
        _ => {
            return Err(ParseError::MalformedDocument("$type".to_owned()));
        },
    };
    let fv = match lookup_field(doc, "formatVersion") {
        Some(JsonValue::Str(s)) => s,
        _ => {
            return Err(ParseError::MalformedDocument("formatVersion".to_owned()));
        },
    };
    if !str_eq(ty.as_str(), magic_tag()) {
        return Err(ParseError::UnrecognizedFormat(ty.clone()));
    }
    match parse_format_version(fv.as_str()) {
        Some((major, _minor)) => {
            if major != 1 {
                return Err(ParseError::UnsupportedVersion(fv.clone()));
            }
        },
        None => {
            return Err(ParseError::UnsupportedVersion(fv.clone()));
        },
    }
    Ok(())
}

// ---------------------------------------------------------------------
// Content fields
// ---------------------------------------------------------------------

/// `displayName`: a required string.
pub open spec fn spec_field_display_name(doc: Seq<(Seq<char>, JsonModel)>) -> Result<
    Seq<char>,
    ParseErrorModel,
> {
    match spec_lookup(doc, "displayName"@) {
        Some(JsonModel::Str(s)) => Ok(s),
        _ => Err(ParseErrorModel::MalformedDocument("displayName"@)),
    }
}

fn field_display_name(doc: &Vec<(String, JsonValue)>) -> (r: Result<String, ParseError>)
    ensures
        match r {
            Ok(s) => spec_field_display_name(doc_model(doc@)) == Ok::<_, ParseErrorModel>(s@),
            Err(e) => spec_field_display_name(doc_model(doc@)) == Err::<Seq<char>, _>(e@),
        },
{
    match lookup_field(doc, "displayName") {
        Some(JsonValue::Str(s)) => Ok(s.clone()),
        _ => Err(ParseError::MalformedDocument("displayName".to_owned())),
    }
}

/// `updateDate`: absent or null for none, else a string chrono accepts.
pub open spec fn spec_field_update_date(doc: Seq<(Seq<char>, JsonModel)>) -> Result<
    Option<Seq<char>>,
    ParseErrorModel,
> {
    match spec_lookup(doc, "updateDate"@) {
        None => Ok(None),
        Some(JsonModel::Null) => Ok(None),
        Some(JsonModel::Str(s)) => if spec_is_rfc3339_datetime(s) {
            Ok(Some(s))
        } else {
            Err(ParseErrorModel::MalformedDocument("updateDate"@))
        },
        Some(_) => Err(ParseErrorModel::MalformedDocument("updateDate"@)),
    }
}

fn field_update_date(doc: &Vec<(String, JsonValue)>) -> (r: Result<Option<String>, ParseError>)
    ensures
        match r {
            Ok(o) => spec_field_update_date(doc_model(doc@)) == Ok::<_, ParseErrorModel>(
                opt_string_view(&o),
            ),
            Err(e) => spec_field_update_date(doc_model(doc@)) == Err::<Option<Seq<char>>, _>(e@),
        },
{
    match lookup_field(doc, "updateDate") {
        None => Ok(None),
        Some(JsonValue::Null) => Ok(None),
        Some(JsonValue::Str(s)) => {
            if check_datetime(s.as_str()) {
                Ok(Some(s.clone()))
            } else {
                Err(ParseError::MalformedDocument("updateDate".to_owned()))
            }
        },
        Some(_) => Err(ParseError::MalformedDocument("updateDate".to_owned())),
    }
}

/// `id`: absent or null for none, else a string in the identifier class.
pub open spec fn spec_field_id(doc: Seq<(Seq<char>, JsonModel)>) -> Result<
    Option<Seq<char>>,
    ParseErrorModel,
> {
    match spec_lookup(doc, "id"@) {
        None => Ok(None),
        Some(JsonModel::Null) => Ok(None),
        Some(JsonModel::Str(s)) => if spec_valid_identifier(s) {
            Ok(Some(s))
        } else {
            Err(ParseErrorModel::InvalidIdentifierSyntax(s))
        },
        Some(_) => Err(ParseErrorModel::MalformedDocument("id"@)),
    }
}

fn field_id(doc: &Vec<(String, JsonValue)>) -> (r: Result<Option<String>, ParseError>)
    ensures
        match r {
            Ok(o) => spec_field_id(doc_model(doc@)) == Ok::<_, ParseErrorModel>(
                opt_string_view(&o),
            ),
            Err(e) => spec_field_id(doc_model(doc@)) == Err::<Option<Seq<char>>, _>(e@),
        },
{
    match lookup_field(doc, "id") {
        None => Ok(None),
        Some(JsonValue::Null) => Ok(None),
        Some(JsonValue::Str(s)) => {
            if validate_identifier(s.as_str()) {
                Ok(Some(s.clone()))
            } else {
                Err(ParseError::InvalidIdentifierSyntax(s.clone()))
            }
        },
        Some(_) => Err(ParseError::MalformedDocument("id".to_owned())),
    }
}

/// `base`: a required string in the identifier class.
pub open spec fn spec_field_base(doc: Seq<(Seq<char>, JsonModel)>) -> Result<
    Seq<char>,
    ParseErrorModel,
> {
    match spec_lookup(doc, "base"@) {
        Some(JsonModel::Str(s)) => if spec_valid_identifier(s) {
            Ok(s)
        } else {
            Err(ParseErrorModel::InvalidIdentifierSyntax(s))
        },
        _ => Err(ParseErrorModel::MalformedDocument("base"@)),
    }
}

fn field_base(doc: &Vec<(String, JsonValue)>) -> (r: Result<String, ParseError>)
    ensures
        match r {
            Ok(s) => spec_field_base(doc_model(doc@)) == Ok::<_, ParseErrorModel>(s@),
            Err(e) => spec_field_base(doc_model(doc@)) == Err::<Seq<char>, _>(e@),
        },
{
    match lookup_field(doc, "base") {
        Some(JsonValue::Str(s)) => {
            if validate_identifier(s.as_str()) {
                Ok(s.clone())
            } else {
                Err(ParseError::InvalidIdentifierSyntax(s.clone()))
            }
        },
        _ => Err(ParseError::MalformedDocument("base".to_owned())),
    }
}

/// `unityVersion`: absent or null for none, else a string the version
/// parser accepts.
pub open spec fn spec_field_unity_version(doc: Seq<(Seq<char>, JsonModel)>) -> Result<
    Option<Seq<char>>,
    ParseErrorModel,
> {
    match spec_lookup(doc, "unityVersion"@) {
        None => Ok(None),
        Some(JsonModel::Null) => Ok(None),
        Some(JsonModel::Str(s)) => if spec_is_version_range(s) {
            Ok(Some(s))
        } else {
            Err(ParseErrorModel::MalformedDocument("unityVersion"@))
        },
        Some(_) => Err(ParseErrorModel::MalformedDocument("unityVersion"@)),
    }
}

fn field_unity_version(doc: &Vec<(String, JsonValue)>) -> (r: Result<Option<String>, ParseError>)
    ensures
        match r {
            Ok(o) => spec_field_unity_version(doc_model(doc@)) == Ok::<_, ParseErrorModel>(
                opt_string_view(&o),
            ),
            Err(e) => spec_field_unity_version(doc_model(doc@)) == Err::<Option<Seq<char>>, _>(
                e@,
            ),
        },
{
    match lookup_field(doc, "unityVersion") {
        None => Ok(None),
        Some(JsonValue::Null) => Ok(None),
        Some(JsonValue::Str(s)) => {
            if check_version_range(s.as_str()) {
                Ok(Some(s.clone()))
            } else {
                Err(ParseError::MalformedDocument("unityVersion".to_owned()))
            }
        },
        Some(_) => Err(ParseError::MalformedDocument("unityVersion".to_owned())),
    }
}

// ---------------------------------------------------------------------
// vpmDependencies
// ---------------------------------------------------------------------

/// Every member value is a string the version parser accepts.
pub open spec fn spec_dep_entries_ok(entries: Seq<(Seq<char>, JsonShallowModel)>) -> bool {
    forall|i: int|
        0 <= i < entries.len() ==> (#[trigger] entries[i]).1 is Str && spec_is_version_range(
            entries[i].1->Str_0,
        )
}

/// Insert with ordered-map semantics: a repeated key keeps its first
/// position and takes the new value.
pub open spec fn spec_index_insert(
    m: Seq<(Seq<char>, Seq<char>)>,
    k: Seq<char>,
    v: Seq<char>,
) -> Seq<(Seq<char>, Seq<char>)>
    decreases m.len(),
{
    if m.len() == 0 {
        seq![(k, v)]
    } else if m[0].0 == k {
        seq![(k, v)] + m.drop_first()
    } else {
        seq![m[0]] + spec_index_insert(m.drop_first(), k, v)
    }
}

/// The dependency map an entry list decodes to: entries inserted in order.
pub open spec fn spec_deps_model(entries: Seq<(Seq<char>, JsonShallowModel)>) -> Seq<
    (Seq<char>, Seq<char>),
>
    decreases entries.len(),
{
    if entries.len() == 0 {
        Seq::empty()
    } else {
        spec_index_insert(
            spec_deps_model(entries.drop_last()),
            entries.last().0,
            entries.last().1->Str_0,
        )
    }
}

/// `spec_index_insert` updates the first match in place, or appends.
pub(crate) proof fn lemma_index_insert_at(m: Seq<(Seq<char>, Seq<char>)>, k: Seq<char>, v: Seq<char>, idx: int)
    requires
        0 <= idx <= m.len(),
        forall|j: int| 0 <= j < idx ==> (#[trigger] m[j]).0 != k,
    ensures
        idx < m.len() && m[idx].0 == k ==> spec_index_insert(m, k, v) == m.update(idx, (k, v)),
        idx == m.len() && (forall|j: int| 0 <= j < m.len() ==> (#[trigger] m[j]).0 != k)
            ==> spec_index_insert(m, k, v) == m.push((k, v)),
    decreases m.len(),
{
    if m.len() == 0 {
        assert(spec_index_insert(m, k, v) =~= m.push((k, v)));
    } else if m[0].0 == k {
        if idx < m.len() && m[idx].0 == k {
            assert(idx == 0);
            assert(seq![(k, v)] + m.drop_first() =~= m.update(0, (k, v)));
        }
    } else {
        let sub = m.drop_first();
        assert(forall|j: int| 0 <= j < m.len() - 1 ==> #[trigger] sub[j] == m[j + 1]);
        lemma_index_insert_at(sub, k, v, if idx > 0 { idx - 1 } else { 0 });
        if idx < m.len() && m[idx].0 == k {
            assert(idx > 0);
            assert(spec_index_insert(sub, k, v) == sub.update(idx - 1, (k, v)));
            assert(seq![m[0]] + sub.update(idx - 1, (k, v)) =~= m.update(idx, (k, v)));
        } else if idx == m.len() && (forall|j: int|
            0 <= j < m.len() ==> (#[trigger] m[j]).0 != k) {
            assert(forall|j: int| 0 <= j < sub.len() ==> (#[trigger] sub[j]).0 != k);
            assert(spec_index_insert(sub, k, v) == sub.push((k, v)));
            assert(seq![m[0]] + sub.push((k, v)) =~= m.push((k, v)));
        }
    }
}

/// Insert a binding into the decoded dependency list, first position kept,
/// last value winning.
fn index_insert(out: &mut Vec<(String, String)>, k: String, v: String)
    ensures
        pairs_model(final(out)@) == spec_index_insert(pairs_model(old(out)@), k@, v@),
{
    let n = out.len();
    for idx in 0..n
        invariant
            n == out@.len(),
            out@ == old(out)@,
            forall|j: int| 0 <= j < idx ==> (#[trigger] pairs_model(out@)[j]).0 != k@,
    {
        if str_eq(out[idx].0.as_str(), k.as_str()) {
            proof {
                lemma_index_insert_at(pairs_model(out@), k@, v@, idx as int);
            }
            out.set(idx, (k, v));
            proof {
                assert(pairs_model(out@) =~= pairs_model(old(out)@).update(
                    idx as int,
                    (k@, v@),
                ));
            }
            return ;
        }
    }
    proof {
        lemma_index_insert_at(pairs_model(out@), k@, v@, out@.len() as int);
    }
    out.push((k, v));
    proof {
        assert(pairs_model(out@) =~= pairs_model(old(out)@).push((k@, v@)));
    }
}

/// The model of a decoded object's entry list.
pub open spec fn obj_model(entries: Seq<(String, JsonShallow)>) -> Seq<
    (Seq<char>, JsonShallowModel),
> {
    entries.map_values(|kv: (String, JsonShallow)| (kv.0@, kv.1@))
}

fn decode_deps(entries: &Vec<(String, JsonShallow)>) -> (r: Result<
    Vec<(String, String)>,
    ParseError,
>)
    ensures
        match r {
            Ok(v) => spec_dep_entries_ok(obj_model(entries@)) && pairs_model(v@)
                == spec_deps_model(obj_model(entries@)),
            Err(e) => !spec_dep_entries_ok(obj_model(entries@)) && e@
                == ParseErrorModel::MalformedDocument("vpmDependencies"@),
        },
{
    let mut out: Vec<(String, String)> = Vec::new();
    let n = entries.len();
    for i in 0..n
        invariant
            n == entries@.len(),
            spec_dep_entries_ok(obj_model(entries@).take(i as int)),
            pairs_model(out@) == spec_deps_model(obj_model(entries@).take(i as int)),
    {
        let value = match &entries[i].1 {
            JsonShallow::Str(s) => s,
            JsonShallow::NonStr => {
                proof {
                    assert(obj_model(entries@)[i as int].1 is NonStr);
                }
                return Err(ParseError::MalformedDocument("vpmDependencies".to_owned()));
            },
        };
        if !check_version_range(value.as_str()) {
            proof {
                assert(obj_model(entries@)[i as int].1->Str_0 == value@);
            }
            return Err(ParseError::MalformedDocument("vpmDependencies".to_owned()));
        }
        index_insert(&mut out, entries[i].0.clone(), value.clone());
        proof {
            assert(obj_model(entries@).take(i + 1).drop_last() =~= obj_model(entries@).take(
                i as int,
            ));
            assert(obj_model(entries@).take(i + 1).last() == obj_model(entries@)[i as int]);
        }
    }
    proof {
        assert(obj_model(entries@).take(n as int) =~= obj_model(entries@));
    }
    Ok(out)
}

/// `vpmDependencies`: absent for empty, else an object of version-range
/// strings, decoded in order.
pub open spec fn spec_field_deps(doc: Seq<(Seq<char>, JsonModel)>) -> Result<
    Seq<(Seq<char>, Seq<char>)>,
    ParseErrorModel,
> {
    match spec_lookup(doc, "vpmDependencies"@) {
        None => Ok(Seq::empty()),
        Some(JsonModel::Obj(entries)) => if spec_dep_entries_ok(entries) {
            Ok(spec_deps_model(entries))
        } else {
            Err(ParseErrorModel::MalformedDocument("vpmDependencies"@))
        },
        Some(_) => Err(ParseErrorModel::MalformedDocument("vpmDependencies"@)),
    }
}

fn field_deps(doc: &Vec<(String, JsonValue)>) -> (r: Result<Vec<(String, String)>, ParseError>)
    ensures
        match r {
            Ok(v) => spec_field_deps(doc_model(doc@)) == Ok::<_, ParseErrorModel>(
                pairs_model(v@),
            ),
            Err(e) => spec_field_deps(doc_model(doc@)) == Err::<
                Seq<(Seq<char>, Seq<char>)>,
                _,
            >(e@),
        },
{
    match lookup_field(doc, "vpmDependencies") {
        None => {
            proof {
                assert(pairs_model(Seq::<(String, String)>::empty()) =~= Seq::<
                    (Seq<char>, Seq<char>),
                >::empty());
            }
            Ok(Vec::new())
        },
        Some(JsonValue::Obj(entries)) => decode_deps(entries),
        Some(_) => Err(ParseError::MalformedDocument("vpmDependencies".to_owned())),
    }
}

// ---------------------------------------------------------------------
// unityPackages
// ---------------------------------------------------------------------

/// Every array element is a string (a file path).
pub open spec fn spec_pkg_items_ok(items: Seq<JsonShallowModel>) -> bool {
    forall|i: int| 0 <= i < items.len() ==> (#[trigger] items[i]) is Str
}

pub open spec fn spec_pkgs_model(items: Seq<JsonShallowModel>) -> Seq<Seq<char>> {
    items.map_values(|x: JsonShallowModel| x->Str_0)
}

/// The model of a decoded array's item list.
pub open spec fn arr_model(items: Seq<JsonShallow>) -> Seq<JsonShallowModel> {
    items.map_values(|x: JsonShallow| x@)
}

fn decode_pkgs(items: &Vec<JsonShallow>) -> (r: Result<Vec<String>, ParseError>)
    ensures
        match r {
            Ok(v) => spec_pkg_items_ok(arr_model(items@)) && strings_model(v@)
                == spec_pkgs_model(arr_model(items@)),
            Err(e) => !spec_pkg_items_ok(arr_model(items@)) && e@
                == ParseErrorModel::MalformedDocument("unityPackages"@),
        },
{
    let mut out: Vec<String> = Vec::new();
    let n = items.len();
    for i in 0..n
        invariant
            n == items@.len(),
            out@.len() == i,
            forall|j: int| 0 <= j < i ==> (#[trigger] arr_model(items@)[j]) is Str,
            forall|j: int| 0 <= j < i ==> (#[trigger] out@[j])@ == arr_model(items@)[j]->Str_0,
    {
        match &items[i] {
            JsonShallow::Str(s) => {
                proof {
                    assert(arr_model(items@)[i as int] == JsonShallowModel::Str(s@));
                }
                out.push(s.clone());
            },
            JsonShallow::NonStr => {
                proof {
                    assert(arr_model(items@)[i as int] is NonStr);
                }
                return Err(ParseError::MalformedDocument("unityPackages".to_owned()));
            },
        }
    }
    proof {
        assert(strings_model(out@) =~= spec_pkgs_model(arr_model(items@)));
    }
    Ok(out)
}

/// `unityPackages`: absent for empty, else an array of path strings.
pub open spec fn spec_field_pkgs(doc: Seq<(Seq<char>, JsonModel)>) -> Result<
    Seq<Seq<char>>,
    ParseErrorModel,
> {
    match spec_lookup(doc, "unityPackages"@) {
        None => Ok(Seq::empty()),
        Some(JsonModel::Arr(items)) => if spec_pkg_items_ok(items) {
            Ok(spec_pkgs_model(items))
        } else {
            Err(ParseErrorModel::MalformedDocument("unityPackages"@))
        },
        Some(_) => Err(ParseErrorModel::MalformedDocument("unityPackages"@)),
    }
}

fn field_pkgs(doc: &Vec<(String, JsonValue)>) -> (r: Result<Vec<String>, ParseError>)
    ensures
        match r {
            Ok(v) => spec_field_pkgs(doc_model(doc@)) == Ok::<_, ParseErrorModel>(
                strings_model(v@),
            ),
            Err(e) => spec_field_pkgs(doc_model(doc@)) == Err::<Seq<Seq<char>>, _>(e@),
        },
{
    match lookup_field(doc, "unityPackages") {
        None => {
            proof {
                assert(strings_model(Seq::<String>::empty()) =~= Seq::<Seq<char>>::empty());
            }
            Ok(Vec::new())
        },
        Some(JsonValue::Arr(items)) => decode_pkgs(items),
        Some(_) => Err(ParseError::MalformedDocument("unityPackages".to_owned())),
    }
}

// ---------------------------------------------------------------------
// Whole documents
// ---------------------------------------------------------------------

/// The semantic pass over the decoded value: prefix rules for `id`, then
/// for `base`.
pub open spec fn spec_semantic_base(base: Seq<char>) -> Option<ParseErrorModel> {
    if !spec_is_valid_base_id(base) {
        Some(ParseErrorModel::InvalidBaseReference(base))
    } else {
        None
    }
}

pub open spec fn spec_semantic(id: Option<Seq<char>>, base: Seq<char>) -> Option<
    ParseErrorModel,
> {
    match id {
        Some(s) => if !spec_is_valid_id(s) {
            Some(ParseErrorModel::ReservedIdentifierMisuse(s))
        } else {
            spec_semantic_base(base)
        },
        None => spec_semantic_base(base),
    }
}

/// What a decoded document means: header first, then the content fields,
/// then the semantic checks.
pub open spec fn spec_parse_doc(doc: Seq<(Seq<char>, JsonModel)>) -> Result<
    TemplateModel,
    ParseErrorModel,
> {
    match spec_check_header(doc) {
        Err(e) => Err(e),
        Ok(_) => match spec_field_display_name(doc) {
            Err(e) => Err(e),
            Ok(display_name) => match spec_field_update_date(doc) {
                Err(e) => Err(e),
                Ok(update_date) => match spec_field_id(doc) {
                    Err(e) => Err(e),
                    Ok(id) => match spec_field_base(doc) {
                        Err(e) => Err(e),
                        Ok(base) => match spec_field_unity_version(doc) {
                            Err(e) => Err(e),
                            Ok(unity_version) => match spec_field_deps(doc) {
                                Err(e) => Err(e),
                                Ok(deps) => match spec_field_pkgs(doc) {
                                    Err(e) => Err(e),
                                    Ok(pkgs) => match spec_semantic(id, base) {
                                        Some(e) => Err(e),
                                        None => Ok(
                                            TemplateModel {
                                                display_name,
                                                update_date,
                                                id,
                                                base,
                                                unity_version,
                                                vpm_dependencies: deps,
                                                unity_packages: pkgs,
                                            },
                                        ),
                                    },
                                },
                            },
                        },
                    },
                },
            },
        },
    }
}

/// Decode and validate one document.
pub fn decode_document(doc: &Vec<(String, JsonValue)>) -> (r: Result<AlcomTemplate, ParseError>)
    ensures
        match r {
            Ok(t) => spec_parse_doc(doc_model(doc@)) == Ok::<TemplateModel, ParseErrorModel>(t@),
            Err(e) => spec_parse_doc(doc_model(doc@)) == Err::<TemplateModel, ParseErrorModel>(
                e@,
            ),
        },
{
    if let Err(e) = check_header(doc) {
        return Err(e);
    }
    let display_name = match field_display_name(doc) {
        Ok(v) => v,
        Err(e) => {
            return Err(e);
        },
    };
    let update_date = match field_update_date(doc) {
        Ok(v) => v,
        Err(e) => {
            return Err(e);
        },
    };
    let id = match field_id(doc) {
        Ok(v) => v,
        Err(e) => {
            return Err(e);
        },
    };
    let base = match field_base(doc) {
        Ok(v) => v,
        Err(e) => {
            return Err(e);
        },
    };
    let unity_version = match field_unity_version(doc) {
        Ok(v) => v,
        Err(e) => {
            return Err(e);
        },
    };
    let vpm_dependencies = match field_deps(doc) {
        Ok(v) => v,
        Err(e) => {
            return Err(e);
        },
    };
    let unity_packages = match field_pkgs(doc) {
        Ok(v) => v,
        Err(e) => {
            return Err(e);
        },
    };
    if let Some(s) = &id {
        if !is_valid_id(s.as_str()) {
            return Err(ParseError::ReservedIdentifierMisuse(s.clone()));
        }
    }
    if !is_valid_base_id(base.as_str()) {
        return Err(ParseError::InvalidBaseReference(base.clone()));
    }
    Ok(
        AlcomTemplate {
            display_name,
            update_date,
            id,
            base,
            unity_version,
            vpm_dependencies,
            unity_packages,
        },
    )
}

// ---------------------------------------------------------------------
// Encoding
// ---------------------------------------------------------------------

/// A nullable string field.
pub open spec fn spec_opt_field(o: Option<Seq<char>>) -> JsonModel {
    match o {
        Some(s) => JsonModel::Str(s),
        None => JsonModel::Null,
    }
}

/// The document a template encodes to: a synthesized header, then every
/// content field, empty containers written rather than omitted.
pub open spec fn spec_encode(m: TemplateModel) -> Seq<(Seq<char>, JsonModel)> {
    seq![
        ("$type"@, JsonModel::Str(spec_magic())),
        ("formatVersion"@, JsonModel::Str("1.0"@)),
        ("displayName"@, JsonModel::Str(m.display_name)),
        ("updateDate"@, spec_opt_field(m.update_date)),
        ("id"@, spec_opt_field(m.id)),
        ("base"@, JsonModel::Str(m.base)),
        ("unityVersion"@, spec_opt_field(m.unity_version)),
        (
            "vpmDependencies"@,
            JsonModel::Obj(
                m.vpm_dependencies.map_values(
                    |p: (Seq<char>, Seq<char>)| (p.0, JsonShallowModel::Str(p.1)),
                ),
            ),
        ),
        (
            "unityPackages"@,
            JsonModel::Arr(
                m.unity_packages.map_values(|s: Seq<char>| JsonShallowModel::Str(s)),
            ),
        ),
    ]
}

fn opt_field(o: &Option<String>) -> (v: JsonValue)
    ensures
        v@ == spec_opt_field(opt_string_view(o)),
{
    match o {
        Some(s) => JsonValue::Str(s.clone()),
        None => JsonValue::Null,
    }
}

/// Build the document for a template.
pub fn encode_document(t: &AlcomTemplate) -> (doc: Vec<(String, JsonValue)>)
    ensures
        doc_model(doc@) == spec_encode(t@),
{
    let mut deps_obj: Vec<(String, JsonShallow)> = Vec::new();
    let dn = t.vpm_dependencies.len();
    for i in 0..dn
        invariant
            dn == t.vpm_dependencies@.len(),
            deps_obj@.len() == i,
            forall|j: int|
                0 <= j < i ==> ((#[trigger] deps_obj@[j]).1 matches JsonShallow::Str(v)
                    && deps_obj@[j].0@ == t.vpm_dependencies@[j].0@ && v@
                    == t.vpm_dependencies@[j].1@),
    {
        deps_obj.push((t.vpm_dependencies[i].0.clone(), JsonShallow::Str(
            t.vpm_dependencies[i].1.clone(),
        )));
    }
    let mut pkgs_arr: Vec<JsonShallow> = Vec::new();
    let pn = t.unity_packages.len();
    for i in 0..pn
        invariant
            pn == t.unity_packages@.len(),
            pkgs_arr@.len() == i,
            forall|j: int|
                0 <= j < i ==> ((#[trigger] pkgs_arr@[j]) matches JsonShallow::Str(v) && v@
                    == t.unity_packages@[j]@),
    {
        pkgs_arr.push(JsonShallow::Str(t.unity_packages[i].clone()));
    }
    proof {
        assert(obj_model(deps_obj@) =~= t@.vpm_dependencies.map_values(
            |p: (Seq<char>, Seq<char>)| (p.0, JsonShallowModel::Str(p.1)),
        ));
        assert(arr_model(pkgs_arr@) =~= t@.unity_packages.map_values(
            |s: Seq<char>| JsonShallowModel::Str(s),
        ));
    }
    let mut doc: Vec<(String, JsonValue)> = Vec::new();
    doc.push(("$type".to_owned(), JsonValue::Str(magic_tag().to_owned())));
    doc.push(("formatVersion".to_owned(), JsonValue::Str("1.0".to_owned())));
    doc.push(("displayName".to_owned(), JsonValue::Str(t.display_name.clone())));
    doc.push(("updateDate".to_owned(), opt_field(&t.update_date)));
    doc.push(("id".to_owned(), opt_field(&t.id)));
    doc.push(("base".to_owned(), JsonValue::Str(t.base.clone())));
    doc.push(("unityVersion".to_owned(), opt_field(&t.unity_version)));
    doc.push(("vpmDependencies".to_owned(), JsonValue::Obj(deps_obj)));
    doc.push(("unityPackages".to_owned(), JsonValue::Arr(pkgs_arr)));
    proof {
        assert(doc_model(doc@) =~= spec_encode(t@));
    }
    doc
}

} // verus!
