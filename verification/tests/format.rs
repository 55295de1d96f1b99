//! Header and document-level behaviour of `parse_alcom_template`.

use alcom_template::parse_alcom_template;
use alcom_template::ParseError;

const MAGIC: &str = "com.anatawa12.vrc-get.custom-template";

fn doc_with(ty: &str, version: &str, rest: &str) -> Vec<u8> {
    format!(
        "{{\"$type\":\"{}\",\"formatVersion\":\"{}\",\"displayName\":\"T\",\"base\":\"com.example.base\"{}}}",
        ty, version, rest
    )
    .into_bytes()
}

#[test]
fn minimal_document_parses() {
    let t = parse_alcom_template(&doc_with(MAGIC, "1.0", "")).unwrap();
    assert_eq!(t.display_name, "T");
    assert_eq!(t.base, "com.example.base");
    assert_eq!(t.update_date, None);
    assert_eq!(t.id, None);
    assert_eq!(t.unity_version, None);
    assert_eq!(t.vpm_dependencies, Vec::<(String, String)>::new());
    assert_eq!(t.unity_packages, Vec::<String>::new());
}

#[test]
fn wrong_type_tag_rejected() {
    let r = parse_alcom_template(&doc_with("com.example.other", "1.0", ""));
    assert!(matches!(r, Err(ParseError::UnrecognizedFormat(v)) if v == "com.example.other"));
}

#[test]
fn type_tag_with_extra_suffix_rejected() {
    let ty = format!("{}x", MAGIC);
    let r = parse_alcom_template(&doc_with(&ty, "1.0", ""));
    assert!(matches!(r, Err(ParseError::UnrecognizedFormat(_))));
}

#[test]
fn format_version_two_rejected() {
    let r = parse_alcom_template(&doc_with(MAGIC, "2.0", ""));
    assert!(matches!(r, Err(ParseError::UnsupportedVersion(v)) if v == "2.0"));
}

#[test]
fn format_version_not_numeric_rejected() {
    let r = parse_alcom_template(&doc_with(MAGIC, "abc", ""));
    assert!(matches!(r, Err(ParseError::UnsupportedVersion(v)) if v == "abc"));
}

#[test]
fn format_version_without_minor_rejected() {
    let r = parse_alcom_template(&doc_with(MAGIC, "1", ""));
    assert!(matches!(r, Err(ParseError::UnsupportedVersion(v)) if v == "1"));
}

#[test]
fn format_version_bad_minor_rejected() {
    let r = parse_alcom_template(&doc_with(MAGIC, "1.x", ""));
    assert!(matches!(r, Err(ParseError::UnsupportedVersion(v)) if v == "1.x"));
}

#[test]
fn minor_version_is_ignored() {
    let a = parse_alcom_template(&doc_with(MAGIC, "1.0", "")).unwrap();
    let b = parse_alcom_template(&doc_with(MAGIC, "1.7", "")).unwrap();
    assert_eq!(a, b);
}

#[test]
fn missing_type_tag_rejected() {
    let bytes = b"{\"formatVersion\":\"1.0\",\"displayName\":\"T\",\"base\":\"b\"}";
    let r = parse_alcom_template(bytes);
    assert!(matches!(r, Err(ParseError::MalformedDocument(f)) if f == "$type"));
}

#[test]
fn missing_format_version_rejected() {
    let bytes = format!("{{\"$type\":\"{}\",\"displayName\":\"T\",\"base\":\"b\"}}", MAGIC);
    let r = parse_alcom_template(bytes.as_bytes());
    assert!(matches!(r, Err(ParseError::MalformedDocument(f)) if f == "formatVersion"));
}

#[test]
fn non_string_type_tag_rejected() {
    let bytes = b"{\"$type\":3,\"formatVersion\":\"1.0\",\"displayName\":\"T\",\"base\":\"b\"}";
    let r = parse_alcom_template(bytes);
    assert!(matches!(r, Err(ParseError::MalformedDocument(f)) if f == "$type"));
}

#[test]
fn not_json_rejected() {
    let r = parse_alcom_template(b"this is not json");
    assert!(matches!(r, Err(ParseError::MalformedDocument(f)) if f == "document"));
}

#[test]
fn non_object_document_rejected() {
    let r = parse_alcom_template(b"[1, 2, 3]");
    assert!(matches!(r, Err(ParseError::MalformedDocument(f)) if f == "document"));
}

#[test]
fn missing_display_name_rejected() {
    let bytes = format!(
        "{{\"$type\":\"{}\",\"formatVersion\":\"1.0\",\"base\":\"b\"}}",
        MAGIC
    );
    let r = parse_alcom_template(bytes.as_bytes());
    assert!(matches!(r, Err(ParseError::MalformedDocument(f)) if f == "displayName"));
}

#[test]
fn missing_base_rejected() {
    let bytes = format!(
        "{{\"$type\":\"{}\",\"formatVersion\":\"1.0\",\"displayName\":\"T\"}}",
        MAGIC
    );
    let r = parse_alcom_template(bytes.as_bytes());
    assert!(matches!(r, Err(ParseError::MalformedDocument(f)) if f == "base"));
}

#[test]
fn bad_update_date_rejected() {
    let r = parse_alcom_template(&doc_with(MAGIC, "1.0", ",\"updateDate\":\"yesterday\""));
    assert!(matches!(r, Err(ParseError::MalformedDocument(f)) if f == "updateDate"));
}

#[test]
fn good_update_date_kept() {
    let t = parse_alcom_template(&doc_with(
        MAGIC,
        "1.0",
        ",\"updateDate\":\"2024-01-02T03:04:05Z\"",
    ))
    .unwrap();
    assert_eq!(t.update_date.as_deref(), Some("2024-01-02T03:04:05Z"));
}

#[test]
fn null_update_date_is_none() {
    let t = parse_alcom_template(&doc_with(MAGIC, "1.0", ",\"updateDate\":null")).unwrap();
    assert_eq!(t.update_date, None);
}

#[test]
fn bad_unity_version_rejected() {
    let r = parse_alcom_template(&doc_with(MAGIC, "1.0", ",\"unityVersion\":\"!!\""));
    assert!(matches!(r, Err(ParseError::MalformedDocument(f)) if f == "unityVersion"));
}

#[test]
fn good_unity_version_kept() {
    let t = parse_alcom_template(&doc_with(MAGIC, "1.0", ",\"unityVersion\":\">=2019.4.0\""))
        .unwrap();
    assert_eq!(t.unity_version.as_deref(), Some(">=2019.4.0"));
}

#[test]
fn dependencies_decode_in_document_order() {
    let t = parse_alcom_template(&doc_with(
        MAGIC,
        "1.0",
        ",\"vpmDependencies\":{\"b.pkg\":\">=2.0.0\",\"a.pkg\":\">=1.0.0\"}",
    ))
    .unwrap();
    assert_eq!(
        t.vpm_dependencies,
        vec![
            ("b.pkg".to_owned(), ">=2.0.0".to_owned()),
            ("a.pkg".to_owned(), ">=1.0.0".to_owned()),
        ]
    );
}

#[test]
fn repeated_dependency_keeps_position_takes_last_value() {
    let t = parse_alcom_template(&doc_with(
        MAGIC,
        "1.0",
        ",\"vpmDependencies\":{\"a\":\">=1.0.0\",\"b\":\">=3.0.0\",\"a\":\">=2.0.0\"}",
    ))
    .unwrap();
    assert_eq!(
        t.vpm_dependencies,
        vec![
            ("a".to_owned(), ">=2.0.0".to_owned()),
            ("b".to_owned(), ">=3.0.0".to_owned()),
        ]
    );
}

#[test]
fn bad_dependency_value_rejected() {
    let r = parse_alcom_template(&doc_with(
        MAGIC,
        "1.0",
        ",\"vpmDependencies\":{\"a\":\"!!\"}",
    ));
    assert!(matches!(r, Err(ParseError::MalformedDocument(f)) if f == "vpmDependencies"));
}

#[test]
fn non_string_dependency_value_rejected() {
    let r = parse_alcom_template(&doc_with(MAGIC, "1.0", ",\"vpmDependencies\":{\"a\":1}"));
    assert!(matches!(r, Err(ParseError::MalformedDocument(f)) if f == "vpmDependencies"));
}

#[test]
fn null_dependencies_rejected() {
    let r = parse_alcom_template(&doc_with(MAGIC, "1.0", ",\"vpmDependencies\":null"));
    assert!(matches!(r, Err(ParseError::MalformedDocument(f)) if f == "vpmDependencies"));
}

#[test]
fn packages_decode_in_order() {
    let t = parse_alcom_template(&doc_with(
        MAGIC,
        "1.0",
        ",\"unityPackages\":[\"Assets/a.unitypackage\",\"Assets/b.unitypackage\"]",
    ))
    .unwrap();
    assert_eq!(
        t.unity_packages,
        vec!["Assets/a.unitypackage".to_owned(), "Assets/b.unitypackage".to_owned()]
    );
}

#[test]
fn non_string_package_rejected() {
    let r = parse_alcom_template(&doc_with(MAGIC, "1.0", ",\"unityPackages\":[\"a\",7]"));
    assert!(matches!(r, Err(ParseError::MalformedDocument(f)) if f == "unityPackages"));
}

#[test]
fn unknown_fields_are_ignored() {
    let t = parse_alcom_template(&doc_with(
        MAGIC,
        "1.0",
        ",\"extra\":{\"deep\":[1,2,{\"x\":false}]},\"another\":true",
    ))
    .unwrap();
    assert_eq!(t.display_name, "T");
}
