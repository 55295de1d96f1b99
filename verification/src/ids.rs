//! Identifier validation for template ids and base-template references.
//!
//! An identifier is a non-empty string over `[0-9A-Za-z._-]`.  On top of that
//! character-class rule, a template id that starts with the reserved prefix
//! must be an "unnamed template" id: the unnamed prefix followed by exactly
//! 32 lowercase hex characters.  A base-template reference must not start
//! with the unnamed prefix nor with the VCC-imported prefix.

use vstd::prelude::*;

verus! {

/// Characters allowed in an identifier: ASCII digits, ASCII letters,
/// `.`, `_` and `-`.
pub open spec fn spec_is_id_char(c: char) -> bool {
    (48 <= c as u32 && c as u32 <= 57)  // '0' ..= '9'
    || (65 <= c as u32 && c as u32 <= 90)  // 'A' ..= 'Z'
    || (97 <= c as u32 && c as u32 <= 122)  // 'a' ..= 'z'
    || c == '.' || c == '_' || c == '-'
}

fn is_id_char(c: char) -> (r: bool)
    ensures
        r == spec_is_id_char(c),
{
    let u = c as u32;
    (48 <= u && u <= 57) || (65 <= u && u <= 90) || (97 <= u && u <= 122) || c == '.' || c == '_'
        || c == '-'
}

/// A lowercase hexadecimal digit: `0-9` or `a-f`.
pub open spec fn spec_is_lower_hex(c: char) -> bool {
    (48 <= c as u32 && c as u32 <= 57) || (97 <= c as u32 && c as u32 <= 102)
}

fn is_lower_hex(c: char) -> (r: bool)
    ensures
        r == spec_is_lower_hex(c),
{
    let u = c as u32;
    (48 <= u && u <= 57) || (97 <= u && u <= 102)
}

/// A valid identifier: non-empty, all characters in the identifier class.
pub open spec fn spec_valid_identifier(s: Seq<char>) -> bool {
    s.len() > 0 && forall|i: int| 0 <= i < s.len() ==> spec_is_id_char(#[trigger] s[i])
}

/// True iff `s` is non-empty and every character is alphanumeric, `.`, `_` or `-`.
pub fn validate_identifier(s: &str) -> (r: bool)
    ensures
        r == spec_valid_identifier(s@),
{
    let n = s.unicode_len();
    if n == 0 {
        return false;
    }
    for i in 0..n
        invariant
            n == s@.len(),
            forall|j: int| 0 <= j < i ==> spec_is_id_char(#[trigger] s@[j]),
    {
        if !is_id_char(s.get_char(i)) {
            return false;
        }
    }
    true
}

/// Character-for-character string equality, usable where the spec speaks
/// of the views of two strings.
pub fn str_eq(a: &str, b: &str) -> (r: bool)
    ensures
        r == (a@ == b@),
{
    let an = a.unicode_len();
    let bn = b.unicode_len();
    if an != bn {
        return false;
    }
    for i in 0..an
        invariant
            an == a@.len(),
            an == b@.len(),
            forall|j: int| 0 <= j < i ==> a@[j] == b@[j],
    {
        if a.get_char(i) != b.get_char(i) {
            return false;
        }
    }
    proof {
        assert(a@ =~= b@);
    }
    true
}

/// `p` is a prefix of `s`.
pub open spec fn spec_has_prefix(s: Seq<char>, p: Seq<char>) -> bool {
    p.len() <= s.len() && s.subrange(0, p.len() as int) == p
}

fn str_has_prefix(s: &str, p: &str) -> (r: bool)
    ensures
        r == spec_has_prefix(s@, p@),
{
    let sn = s.unicode_len();
    let pn = p.unicode_len();
    if pn > sn {
        return false;
    }
    for i in 0..pn
        invariant
            sn == s@.len(),
            pn == p@.len(),
            pn <= sn,
            forall|j: int| 0 <= j < i ==> s@[j] == p@[j],
    {
        if s.get_char(i) != p.get_char(i) {
            proof {
                assert(s@.subrange(0, p@.len() as int)[i as int] == s@[i as int]);
            }
            return false;
        }
    }
    proof {
        assert(s@.subrange(0, p@.len() as int) =~= p@);
    }
    true
}

/// The prefix reserved for system-owned identifier namespaces.
pub open spec fn spec_reserved_prefix() -> Seq<char> {
    "com.anatawa12.vrc-get."@
}

pub fn reserved_template_prefix() -> (s: &'static str)
    ensures
        s@ == spec_reserved_prefix(),
{
    "com.anatawa12.vrc-get."
}

/// The prefix of system-generated unnamed templates, nested under the
/// reserved prefix.
pub open spec fn spec_unnamed_prefix() -> Seq<char> {
    "com.anatawa12.vrc-get.unnamed."@
}

pub fn unnamed_template_prefix() -> (s: &'static str)
    ensures
        s@ == spec_unnamed_prefix(),
{
    "com.anatawa12.vrc-get.unnamed."
}

/// The prefix of templates imported from the VCC ecosystem, which may not
/// serve as base-template references.
pub open spec fn spec_vcc_prefix() -> Seq<char> {
    "com.anatawa12.vrc-get.vcc."@
}

pub fn vcc_template_prefix() -> (s: &'static str)
    ensures
        s@ == spec_vcc_prefix(),
{
    "com.anatawa12.vrc-get.vcc."
}

/// A valid template id: if it starts with the reserved prefix, it must be
/// the unnamed prefix followed by exactly 32 lowercase hex characters;
/// otherwise any identifier is accepted.
pub open spec fn spec_is_valid_id(s: Seq<char>) -> bool {
    if spec_has_prefix(s, spec_reserved_prefix()) {
        &&& spec_has_prefix(s, spec_unnamed_prefix())
        &&& s.len() == spec_unnamed_prefix().len() + 32
        &&& forall|i: int|
            spec_unnamed_prefix().len() <= i < s.len() ==> spec_is_lower_hex(#[trigger] s[i])
    } else {
        true
    }
}

/// Semantic check for a template id that already passed the character-class
/// validation.
pub fn is_valid_id(id: &str) -> (r: bool)
    ensures
        r == spec_is_valid_id(id@),
{
    if !str_has_prefix(id, reserved_template_prefix()) {
        return true;
    }
    let unnamed = unnamed_template_prefix();
    if !str_has_prefix(id, unnamed) {
        return false;
    }
    let n = id.unicode_len();
    let pn = unnamed.unicode_len();
    if n - pn != 32 {
        return false;
    }
    for i in pn..n
        invariant
            n == id@.len(),
            pn == spec_unnamed_prefix().len(),
            pn <= i <= n,
            n == pn + 32,
            spec_has_prefix(id@, spec_reserved_prefix()),
            spec_has_prefix(id@, spec_unnamed_prefix()),
            forall|j: int| pn <= j < i ==> spec_is_lower_hex(#[trigger] id@[j]),
    {
        if !is_lower_hex(id.get_char(i)) {
            return false;
        }
    }
    true
}

/// A valid base-template reference: neither unnamed nor VCC-imported.
pub open spec fn spec_is_valid_base_id(s: Seq<char>) -> bool {
    !spec_has_prefix(s, spec_unnamed_prefix()) && !spec_has_prefix(s, spec_vcc_prefix())
}

/// Semantic check for a base-template reference.
pub fn is_valid_base_id(id: &str) -> (r: bool)
    ensures
        r == spec_is_valid_base_id(id@),
{
    !str_has_prefix(id, unnamed_template_prefix()) && !str_has_prefix(id, vcc_template_prefix())
}

} // verus!
