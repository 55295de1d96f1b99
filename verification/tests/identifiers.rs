//! Identifier rules, both through the validators and end to end through
//! `parse_alcom_template`.

use alcom_template::is_valid_base_id;
use alcom_template::is_valid_id;
use alcom_template::parse_alcom_template;
use alcom_template::parse_format_version;
use alcom_template::validate_identifier;
use alcom_template::ParseError;

const MAGIC: &str = "com.anatawa12.vrc-get.custom-template";
const RESERVED: &str = "com.anatawa12.vrc-get.";
const UNNAMED: &str = "com.anatawa12.vrc-get.unnamed.";
const VCC: &str = "com.anatawa12.vrc-get.vcc.";
const HEX32: &str = "0123456789abcdef0123456789abcdef";

fn doc_with_id(id: &str) -> Vec<u8> {
    format!(
        "{{\"$type\":\"{}\",\"formatVersion\":\"1.0\",\"displayName\":\"T\",\"id\":\"{}\",\"base\":\"com.example.base\"}}",
        MAGIC, id
    )
    .into_bytes()
}

fn doc_with_base(base: &str) -> Vec<u8> {
    format!(
        "{{\"$type\":\"{}\",\"formatVersion\":\"1.0\",\"displayName\":\"T\",\"base\":\"{}\"}}",
        MAGIC, base
    )
    .into_bytes()
}

#[test]
fn identifier_character_class() {
    assert!(validate_identifier("com.example.Template_1-x"));
    assert!(!validate_identifier(""));
    assert!(!validate_identifier("has space"));
    assert!(!validate_identifier("exclaim!"));
    assert!(!validate_identifier("slash/slash"));
}

#[test]
fn unnamed_id_with_32_hex_accepted() {
    let id = format!("{}{}", UNNAMED, HEX32);
    assert!(is_valid_id(&id));
    let t = parse_alcom_template(&doc_with_id(&id)).unwrap();
    assert_eq!(t.id.as_deref(), Some(id.as_str()));
}

#[test]
fn unnamed_id_with_31_hex_rejected() {
    let id = format!("{}{}", UNNAMED, &HEX32[..31]);
    assert!(!is_valid_id(&id));
    let r = parse_alcom_template(&doc_with_id(&id));
    assert!(matches!(r, Err(ParseError::ReservedIdentifierMisuse(v)) if v == id));
}

#[test]
fn unnamed_id_with_33_hex_rejected() {
    let id = format!("{}{}a", UNNAMED, HEX32);
    assert!(!is_valid_id(&id));
    let r = parse_alcom_template(&doc_with_id(&id));
    assert!(matches!(r, Err(ParseError::ReservedIdentifierMisuse(_))));
}

#[test]
fn unnamed_id_with_uppercase_hex_rejected() {
    let id = format!("{}{}F", UNNAMED, &HEX32[..31]);
    assert!(!is_valid_id(&id));
    let r = parse_alcom_template(&doc_with_id(&id));
    assert!(matches!(r, Err(ParseError::ReservedIdentifierMisuse(_))));
}

#[test]
fn reserved_id_without_unnamed_prefix_rejected() {
    let id = format!("{}something-else", RESERVED);
    assert!(!is_valid_id(&id));
    let r = parse_alcom_template(&doc_with_id(&id));
    assert!(matches!(r, Err(ParseError::ReservedIdentifierMisuse(v)) if v == id));
}

#[test]
fn ordinary_id_accepted() {
    assert!(is_valid_id("com.example.mine"));
    let t = parse_alcom_template(&doc_with_id("com.example.mine")).unwrap();
    assert_eq!(t.id.as_deref(), Some("com.example.mine"));
}

#[test]
fn id_with_bad_character_is_syntax_error() {
    let r = parse_alcom_template(&doc_with_id("bad id"));
    assert!(matches!(r, Err(ParseError::InvalidIdentifierSyntax(v)) if v == "bad id"));
}

#[test]
fn empty_id_is_syntax_error() {
    let r = parse_alcom_template(&doc_with_id(""));
    assert!(matches!(r, Err(ParseError::InvalidIdentifierSyntax(v)) if v.is_empty()));
}

#[test]
fn null_id_is_none() {
    let bytes = format!(
        "{{\"$type\":\"{}\",\"formatVersion\":\"1.0\",\"displayName\":\"T\",\"id\":null,\"base\":\"b\"}}",
        MAGIC
    );
    let t = parse_alcom_template(bytes.as_bytes()).unwrap();
    assert_eq!(t.id, None);
}

#[test]
fn unnamed_base_rejected() {
    let base = format!("{}{}", UNNAMED, HEX32);
    assert!(!is_valid_base_id(&base));
    let r = parse_alcom_template(&doc_with_base(&base));
    assert!(matches!(r, Err(ParseError::InvalidBaseReference(v)) if v == base));
}

#[test]
fn vcc_base_rejected() {
    let base = format!("{}imported", VCC);
    assert!(!is_valid_base_id(&base));
    let r = parse_alcom_template(&doc_with_base(&base));
    assert!(matches!(r, Err(ParseError::InvalidBaseReference(v)) if v == base));
}

#[test]
fn reserved_but_not_forbidden_base_accepted() {
    // The reserved prefix alone is not forbidden for a base, only the
    // unnamed and VCC sub-namespaces are.
    let base = format!("{}builtin", RESERVED);
    assert!(is_valid_base_id(&base));
    let t = parse_alcom_template(&doc_with_base(&base)).unwrap();
    assert_eq!(t.base, base);
}

#[test]
fn ordinary_base_accepted() {
    assert!(is_valid_base_id("com.example.base"));
}

#[test]
fn base_with_bad_character_is_syntax_error() {
    let r = parse_alcom_template(&doc_with_base("no good"));
    assert!(matches!(r, Err(ParseError::InvalidIdentifierSyntax(v)) if v == "no good"));
}

#[test]
fn format_version_parser_values() {
    assert_eq!(parse_format_version("1.0"), Some((1, 0)));
    assert_eq!(parse_format_version("1.7"), Some((1, 7)));
    assert_eq!(parse_format_version("10.042"), Some((10, 42)));
    assert_eq!(parse_format_version("+1.+0"), Some((1, 0)));
    assert_eq!(parse_format_version("1"), None);
    assert_eq!(parse_format_version("1."), None);
    assert_eq!(parse_format_version(".5"), None);
    assert_eq!(parse_format_version("1.x"), None);
    assert_eq!(parse_format_version("1.2.3"), None);
    assert_eq!(parse_format_version("-1.0"), None);
    assert_eq!(parse_format_version("4294967295.0"), Some((4294967295, 0)));
    assert_eq!(parse_format_version("4294967296.0"), None);
}
