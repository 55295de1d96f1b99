//! Serialization: round trips, the zero-byte boundary, and the encoded
//! layout.

use alcom_template::parse_alcom_template;
use alcom_template::serialize_alcom_template;
use alcom_template::AlcomTemplate;
use alcom_template::EncodeError;

fn full_template() -> AlcomTemplate {
    AlcomTemplate {
        display_name: "My \"quoted\" template \u{263a}".to_owned(),
        update_date: Some("2024-01-02T03:04:05Z".to_owned()),
        id: Some("com.example.mine".to_owned()),
        base: "com.example.base".to_owned(),
        unity_version: Some(">=2019.4.0".to_owned()),
        vpm_dependencies: vec![
            ("com.example.b".to_owned(), ">=2.0.0".to_owned()),
            ("com.example.a".to_owned(), ">=1.0.0".to_owned()),
        ],
        unity_packages: vec!["Assets/one.unitypackage".to_owned(), "Assets/two".to_owned()],
    }
}

fn minimal_template() -> AlcomTemplate {
    AlcomTemplate {
        display_name: "T".to_owned(),
        update_date: None,
        id: None,
        base: "com.example.base".to_owned(),
        unity_version: None,
        vpm_dependencies: Vec::new(),
        unity_packages: Vec::new(),
    }
}

#[test]
fn round_trip_full() {
    let t = full_template();
    let bytes = serialize_alcom_template(t.clone()).unwrap();
    let back = parse_alcom_template(&bytes).unwrap();
    assert_eq!(back, t);
}

#[test]
fn round_trip_minimal() {
    let t = minimal_template();
    let bytes = serialize_alcom_template(t.clone()).unwrap();
    let back = parse_alcom_template(&bytes).unwrap();
    assert_eq!(back, t);
    assert_eq!(back.vpm_dependencies, Vec::<(String, String)>::new());
    assert_eq!(back.unity_packages, Vec::<String>::new());
}

#[test]
fn round_trip_unnamed_id() {
    let mut t = minimal_template();
    t.id = Some("com.anatawa12.vrc-get.unnamed.0123456789abcdef0123456789abcdef".to_owned());
    let bytes = serialize_alcom_template(t.clone()).unwrap();
    assert_eq!(parse_alcom_template(&bytes).unwrap(), t);
}

#[test]
fn serialization_has_no_zero_byte() {
    let bytes = serialize_alcom_template(full_template()).unwrap();
    assert!(bytes.iter().all(|&b| b != 0));
}

#[test]
fn serialization_is_json_with_all_fields() {
    let bytes = serialize_alcom_template(minimal_template()).unwrap();
    let value: serde_json::Value = serde_json::from_slice(&bytes).unwrap();
    let obj = value.as_object().unwrap();
    assert_eq!(
        obj.get("$type").and_then(|v| v.as_str()),
        Some("com.anatawa12.vrc-get.custom-template")
    );
    assert_eq!(obj.get("formatVersion").and_then(|v| v.as_str()), Some("1.0"));
    assert_eq!(obj.get("displayName").and_then(|v| v.as_str()), Some("T"));
    assert!(obj.get("updateDate").unwrap().is_null());
    assert!(obj.get("id").unwrap().is_null());
    assert_eq!(obj.get("base").and_then(|v| v.as_str()), Some("com.example.base"));
    assert!(obj.get("unityVersion").unwrap().is_null());
    // Empty containers are written, not omitted.
    assert_eq!(obj.get("vpmDependencies").unwrap().as_object().unwrap().len(), 0);
    assert_eq!(obj.get("unityPackages").unwrap().as_array().unwrap().len(), 0);
    assert_eq!(obj.len(), 9);
}

#[test]
fn dependency_order_is_preserved() {
    let bytes = serialize_alcom_template(full_template()).unwrap();
    let back = parse_alcom_template(&bytes).unwrap();
    assert_eq!(back.vpm_dependencies[0].0, "com.example.b");
    assert_eq!(back.vpm_dependencies[1].0, "com.example.a");
}

#[test]
fn duplicate_dependency_cannot_serialize() {
    let mut t = minimal_template();
    t.vpm_dependencies = vec![
        ("same".to_owned(), ">=1.0.0".to_owned()),
        ("other".to_owned(), ">=1.0.0".to_owned()),
        ("same".to_owned(), ">=2.0.0".to_owned()),
    ];
    let r = serialize_alcom_template(t);
    assert!(matches!(r, Err(EncodeError::DuplicateDependency(k)) if k == "same"));
}

#[test]
fn trailing_bytes_after_zero_are_ignored() {
    let t = full_template();
    let mut bytes = serialize_alcom_template(t.clone()).unwrap();
    let plain = parse_alcom_template(&bytes).unwrap();
    bytes.push(0);
    bytes.extend_from_slice(b"\x01\x02binary\x00junk\xff\x00");
    let tailed = parse_alcom_template(&bytes).unwrap();
    assert_eq!(plain, tailed);
    assert_eq!(tailed, t);
}

#[test]
fn trailing_garbage_cannot_rescue_a_bad_document() {
    let mut bytes = b"not json".to_vec();
    bytes.push(0);
    let mut good = serialize_alcom_template(minimal_template()).unwrap();
    bytes.append(&mut good);
    assert!(parse_alcom_template(&bytes).is_err());
}

#[test]
fn parsed_template_always_serializes() {
    // Parsing guarantees the semantic invariants, so a parsed value can
    // always be written back, and reads the same again.
    let doc = format!(
        "{{\"formatVersion\":\"1.3\",\"$type\":\"com.anatawa12.vrc-get.custom-template\",\
         \"unityPackages\":[\"P\"],\"displayName\":\"D\",\"base\":\"com.example.base\",\
         \"vpmDependencies\":{{\"a\":\">=1.0.0\"}}}}"
    );
    let first = parse_alcom_template(doc.as_bytes()).unwrap();
    let bytes = serialize_alcom_template(first.clone()).unwrap();
    let second = parse_alcom_template(&bytes).unwrap();
    assert_eq!(first, second);
}

#[test]
fn zero_byte_alone_is_empty_document() {
    assert!(parse_alcom_template(b"\x00").is_err());
    assert!(parse_alcom_template(b"").is_err());
}
