//! The crate-level laws: statements that relate `parse` and `serialize`
//! across all inputs, proved once and for all.

use vstd::prelude::*;

use crate::codec::spec_dep_entries_ok;
use crate::codec::spec_deps_model;
use crate::codec::spec_index_insert;
use crate::codec::spec_encode;
use crate::codec::spec_is_rfc3339_datetime;
use crate::codec::spec_is_version_range;
use crate::codec::spec_opt_field;
use crate::codec::spec_parse_doc;
use crate::codec::lemma_index_insert_at;
use crate::codec::ParseErrorModel;
use crate::codec::TemplateModel;
use crate::header::spec_digits_val;
use crate::header::spec_magic;
use crate::header::spec_parse_format_version;
use crate::header::lemma_first_dot_is;
use crate::ids::spec_is_valid_base_id;
use crate::ids::spec_is_valid_id;
use crate::ids::spec_valid_identifier;
use crate::json::spec_lookup;
use crate::json::JsonModel;
use crate::json::JsonShallowModel;
use crate::lemma_first_zero_is;
use crate::spec_is_serialization_of;
use crate::spec_parse;
use crate::spec_template_encodable;

verus! {

/// A template every part of which would be accepted by the parser: the
/// semantic invariants of the data model.
pub open spec fn spec_template_wf(m: TemplateModel) -> bool {
    &&& (m.update_date matches Some(s) ==> spec_is_rfc3339_datetime(s))
    &&& (m.id matches Some(s) ==> spec_valid_identifier(s) && spec_is_valid_id(s))
    &&& spec_valid_identifier(m.base)
    &&& spec_is_valid_base_id(m.base)
    &&& (m.unity_version matches Some(s) ==> spec_is_version_range(s))
    &&& (forall|i: int|
        0 <= i < m.vpm_dependencies.len() ==> spec_is_version_range(
            (#[trigger] m.vpm_dependencies[i]).1,
        ))
    &&& spec_template_encodable(m)
}

/// Every field of the encoded document, by name.
proof fn lemma_encode_lookups(m: TemplateModel)
    ensures
        spec_lookup(spec_encode(m), "$type"@) == Some(JsonModel::Str(spec_magic())),
        spec_lookup(spec_encode(m), "formatVersion"@) == Some(JsonModel::Str("1.0"@)),
        spec_lookup(spec_encode(m), "displayName"@) == Some(JsonModel::Str(m.display_name)),
        spec_lookup(spec_encode(m), "updateDate"@) == Some(spec_opt_field(m.update_date)),
        spec_lookup(spec_encode(m), "id"@) == Some(spec_opt_field(m.id)),
        spec_lookup(spec_encode(m), "base"@) == Some(JsonModel::Str(m.base)),
        spec_lookup(spec_encode(m), "unityVersion"@) == Some(spec_opt_field(m.unity_version)),
        spec_lookup(spec_encode(m), "vpmDependencies"@) == Some(
            JsonModel::Obj(
                m.vpm_dependencies.map_values(
                    |p: (Seq<char>, Seq<char>)| (p.0, JsonShallowModel::Str(p.1)),
                ),
            ),
        ),
        spec_lookup(spec_encode(m), "unityPackages"@) == Some(
            JsonModel::Arr(
                m.unity_packages.map_values(|s: Seq<char>| JsonShallowModel::Str(s)),
            ),
        ),
{
    let doc = spec_encode(m);
    reveal_strlit("$type");
    reveal_strlit("formatVersion");
    reveal_strlit("displayName");
    reveal_strlit("updateDate");
    reveal_strlit("id");
    reveal_strlit("base");
    reveal_strlit("unityVersion");
    reveal_strlit("vpmDependencies");
    reveal_strlit("unityPackages");
    assert("$type"@.len() == 5);
    assert("formatVersion"@.len() == 13);
    assert("displayName"@.len() == 11);
    assert("updateDate"@.len() == 10);
    assert("id"@.len() == 2);
    assert("base"@.len() == 4);
    assert("unityVersion"@.len() == 12);
    assert("vpmDependencies"@.len() == 15);
    assert("unityPackages"@.len() == 13);
    assert("formatVersion"@[0] == 'f');
    assert("unityPackages"@[0] == 'u');
    crate::json::lemma_lookup_first(doc, "$type"@, 0);
    crate::json::lemma_lookup_first(doc, "formatVersion"@, 1);
    crate::json::lemma_lookup_first(doc, "displayName"@, 2);
    crate::json::lemma_lookup_first(doc, "updateDate"@, 3);
    crate::json::lemma_lookup_first(doc, "id"@, 4);
    crate::json::lemma_lookup_first(doc, "base"@, 5);
    crate::json::lemma_lookup_first(doc, "unityVersion"@, 6);
    crate::json::lemma_lookup_first(doc, "vpmDependencies"@, 7);
    crate::json::lemma_lookup_first(doc, "unityPackages"@, 8);
}

/// `"1.0"` reads as major 1, minor 0.
proof fn lemma_version_one_zero()
    ensures
        spec_parse_format_version("1.0"@) == Some((1u32, 0u32)),
{
    reveal_strlit("1.0");
    let s = "1.0"@;
    assert(s.len() == 3);
    assert(s[1] == '.');
    lemma_first_dot_is(s, 1);
    let major_s = s.take(1);
    let minor_s = s.skip(2);
    assert(major_s.drop_last() =~= Seq::<char>::empty());
    assert(major_s.last() == '1');
    assert(spec_digits_val(major_s) == 1) by {
        assert(spec_digits_val(Seq::<char>::empty()) == 0);
    }
    assert(minor_s.drop_last() =~= Seq::<char>::empty());
    assert(minor_s.last() == '0');
    assert(spec_digits_val(minor_s) == 0) by {
        assert(spec_digits_val(Seq::<char>::empty()) == 0);
    }
}

/// Inserting a list of bindings with pairwise distinct keys reproduces
/// the list.
proof fn lemma_deps_model_identity(pairs: Seq<(Seq<char>, Seq<char>)>)
    requires
        forall|i: int, j: int|
            0 <= i < j < pairs.len() ==> (#[trigger] pairs[i]).0 != (#[trigger] pairs[j]).0,
    ensures
        spec_deps_model(
            pairs.map_values(|p: (Seq<char>, Seq<char>)| (p.0, JsonShallowModel::Str(p.1))),
        ) == pairs,
    decreases pairs.len(),
{
    let entries = pairs.map_values(
        |p: (Seq<char>, Seq<char>)| (p.0, JsonShallowModel::Str(p.1)),
    );
    if pairs.len() == 0 {
        assert(spec_deps_model(entries) =~= pairs);
    } else {
        let prefix = pairs.drop_last();
        assert(entries.drop_last() =~= prefix.map_values(
            |p: (Seq<char>, Seq<char>)| (p.0, JsonShallowModel::Str(p.1)),
        ));
        lemma_deps_model_identity(prefix);
        let k = pairs.last().0;
        let v = pairs.last().1;
        assert(entries.last().0 == k);
        assert(entries.last().1->Str_0 == v);
        assert(forall|i: int| 0 <= i < prefix.len() ==> (#[trigger] prefix[i]).0 != k);
        lemma_index_insert_at(prefix, k, v, prefix.len() as int);
        assert(prefix.push((k, v)) =~= pairs);
    }
}

/// Decoding the document a well-formed template encodes to yields the
/// template back, field by field.
pub proof fn lemma_parse_doc_of_encode(m: TemplateModel)
    requires
        spec_template_wf(m),
    ensures
        spec_parse_doc(spec_encode(m)) == Ok::<TemplateModel, ParseErrorModel>(m),
{
    let doc = spec_encode(m);
    lemma_encode_lookups(m);
    lemma_version_one_zero();
    let entries = m.vpm_dependencies.map_values(
        |p: (Seq<char>, Seq<char>)| (p.0, JsonShallowModel::Str(p.1)),
    );
    assert(crate::codec::spec_dep_entries_ok(entries));
    lemma_deps_model_identity(m.vpm_dependencies);
    let items = m.unity_packages.map_values(|s: Seq<char>| JsonShallowModel::Str(s));
    assert(crate::codec::spec_pkgs_model(items) =~= m.unity_packages);
    assert(spec_parse_doc(doc) matches Ok(t) && t =~= m);
}

/// Round trip: parsing any serialization of a well-formed template yields
/// a value equal to the template in every field.  Together with the
/// postcondition of `serialize_alcom_template`, this covers
/// `parse_alcom_template(serialize_alcom_template(t))` for every
/// well-formed `t`.
pub proof fn lemma_round_trip(m: TemplateModel, bytes: Seq<u8>)
    requires
        spec_template_wf(m),
        spec_is_serialization_of(m, bytes),
    ensures
        spec_parse(bytes) == Ok::<TemplateModel, ParseErrorModel>(m),
{
    lemma_first_zero_is(bytes, bytes.len() as int);
    assert(bytes.take(bytes.len() as int) =~= bytes);
    lemma_parse_doc_of_encode(m);
}

/// Any `$type` other than the exact magic string is rejected, whatever
/// the rest of the document holds.
pub proof fn lemma_rejects_wrong_type(doc: Seq<(Seq<char>, JsonModel)>, ty: Seq<char>, fv: Seq<char>)
    requires
        spec_lookup(doc, "$type"@) == Some(JsonModel::Str(ty)),
        spec_lookup(doc, "formatVersion"@) == Some(JsonModel::Str(fv)),
        ty != spec_magic(),
    ensures
        spec_parse_doc(doc) == Err::<TemplateModel, ParseErrorModel>(
            ParseErrorModel::UnrecognizedFormat(ty),
        ),
{
}

/// Bytes after the first zero byte never affect the result, whatever they
/// hold, further zero bytes included.
pub proof fn lemma_trailing_bytes_ignored(doc: Seq<u8>, tail: Seq<u8>)
    requires
        forall|i: int| 0 <= i < doc.len() ==> doc[i] != 0,
    ensures
        spec_parse(doc + seq![0u8] + tail) == spec_parse(doc),
{
    let all = doc + seq![0u8] + tail;
    assert(all[doc.len() as int] == 0);
    assert(forall|j: int| 0 <= j < doc.len() ==> all[j] == doc[j]);
    lemma_first_zero_is(all, doc.len() as int);
    lemma_first_zero_is(doc, doc.len() as int);
    assert(all.take(doc.len() as int) =~= doc);
    assert(doc.take(doc.len() as int) =~= doc);
}

/// `vpmDependencies` and `unityPackages` absent from the document decode
/// to empty containers, not an error.
pub proof fn lemma_absent_containers_empty(doc: Seq<(Seq<char>, JsonModel)>, m: TemplateModel)
    requires
        spec_parse_doc(doc) == Ok::<TemplateModel, ParseErrorModel>(m),
        spec_lookup(doc, "vpmDependencies"@) is None,
        spec_lookup(doc, "unityPackages"@) is None,
    ensures
        m.vpm_dependencies == Seq::<(Seq<char>, Seq<char>)>::empty(),
        m.unity_packages == Seq::<Seq<char>>::empty(),
{
}

/// Pairwise distinct keys.
pub open spec fn spec_unique_keys(m: Seq<(Seq<char>, Seq<char>)>) -> bool {
    forall|i: int, j: int| 0 <= i < j < m.len() ==> (#[trigger] m[i]).0 != (#[trigger] m[j]).0
}

/// Inserting a binding keeps keys pairwise distinct, and every binding of
/// the result is the inserted one or one that was already there.
proof fn lemma_index_insert_props(m: Seq<(Seq<char>, Seq<char>)>, k: Seq<char>, v: Seq<char>)
    requires
        spec_unique_keys(m),
    ensures
        spec_unique_keys(spec_index_insert(m, k, v)),
        forall|i: int|
            0 <= i < spec_index_insert(m, k, v).len() ==> (#[trigger] spec_index_insert(m, k, v)[i]
                == (k, v) || exists|j: int| 0 <= j < m.len() && m[j] == spec_index_insert(m, k, v)[i]),
    decreases m.len(),
{
    let out = spec_index_insert(m, k, v);
    if m.len() == 0 {
    } else if m[0].0 == k {
        assert(out == seq![(k, v)] + m.drop_first());
        assert forall|i: int| 0 <= i < out.len() implies (#[trigger] out[i] == (k, v) || exists|j: int|
            0 <= j < m.len() && m[j] == out[i]) by {
            if i > 0 {
                assert(m[i] == out[i]);
            }
        }
    } else {
        let sub = m.drop_first();
        assert(forall|j: int| 0 <= j < sub.len() ==> #[trigger] sub[j] == m[j + 1]);
        lemma_index_insert_props(sub, k, v);
        let ins = spec_index_insert(sub, k, v);
        assert(out == seq![m[0]] + ins);
        assert forall|i: int| 0 <= i < out.len() implies (#[trigger] out[i] == (k, v) || exists|j: int|
            0 <= j < m.len() && m[j] == out[i]) by {
            if i == 0 {
                assert(m[0] == out[0]);
            } else {
                assert(out[i] == ins[i - 1]);
                if !(ins[i - 1] == (k, v)) {
                    let j = choose|j: int| 0 <= j < sub.len() && sub[j] == ins[i - 1];
                    assert(m[j + 1] == out[i]);
                }
            }
        }
        assert forall|i1: int, i2: int| 0 <= i1 < i2 < out.len() implies (#[trigger] out[i1]).0 != (
        #[trigger] out[i2]).0 by {
            if i1 == 0 {
                assert(out[i2] == ins[i2 - 1]);
                if ins[i2 - 1] == (k, v) {
                    assert(out[i2].0 == k);
                } else {
                    let j = choose|j: int| 0 <= j < sub.len() && sub[j] == ins[i2 - 1];
                    assert(m[j + 1] == out[i2]);
                }
            } else {
                assert(out[i1] == ins[i1 - 1]);
                assert(out[i2] == ins[i2 - 1]);
            }
        }
    }
}

/// Whatever entry list an object held, the decoded dependency map has
/// pairwise distinct keys, and every value came from the entry list.
proof fn lemma_deps_model_wf(entries: Seq<(Seq<char>, JsonShallowModel)>)
    requires
        spec_dep_entries_ok(entries),
    ensures
        spec_unique_keys(spec_deps_model(entries)),
        forall|i: int|
            0 <= i < spec_deps_model(entries).len() ==> spec_is_version_range(
                (#[trigger] spec_deps_model(entries)[i]).1,
            ),
    decreases entries.len(),
{
    if entries.len() > 0 {
        let prefix = entries.drop_last();
        assert(forall|j: int| 0 <= j < prefix.len() ==> #[trigger] prefix[j] == entries[j]);
        lemma_deps_model_wf(prefix);
        let k = entries.last().0;
        let v = entries.last().1->Str_0;
        assert(spec_is_version_range(v));
        lemma_index_insert_props(spec_deps_model(prefix), k, v);
        let out = spec_deps_model(entries);
        assert forall|i: int| 0 <= i < out.len() implies spec_is_version_range(
            (#[trigger] out[i]).1,
        ) by {
            if !(out[i] == (k, v)) {
                let j = choose|j: int|
                    0 <= j < spec_deps_model(prefix).len() && spec_deps_model(prefix)[j] == out[i];
                assert(spec_is_version_range(spec_deps_model(prefix)[j].1));
            }
        }
    }
}

/// Every successfully parsed template satisfies all semantic invariants:
/// it can be serialized, and the round trip applies to it.
pub proof fn lemma_parsed_is_wf(doc: Seq<(Seq<char>, JsonModel)>, m: TemplateModel)
    requires
        spec_parse_doc(doc) == Ok::<TemplateModel, ParseErrorModel>(m),
    ensures
        spec_template_wf(m),
{
    match spec_lookup(doc, "vpmDependencies"@) {
        None => {}
        Some(JsonModel::Obj(entries)) => {
            lemma_deps_model_wf(entries);
        }
        Some(_) => {}
    }
}

} // verus!
