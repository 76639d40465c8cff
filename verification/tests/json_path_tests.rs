use bc_server::json::{Json, JsonNumber};
use bc_server::json_path::{apply_dotted_path, merge_set_into_object};

fn num(n: i64) -> Json {
    Json::Number(JsonNumber::Int(n))
}

fn get<'a>(root: &'a [(String, Json)], key: &str) -> Option<&'a Json> {
    root.iter().find(|(k, _)| k == key).map(|(_, v)| v)
}

#[test]
fn dotted_extension_settings_nested() {
    let mut root: Vec<(String, Json)> = Vec::new();
    root.push((
        "ExtensionSettings".into(),
        Json::Object(vec![("Other".into(), num(1))]),
    ));
    apply_dotted_path(
        &mut root,
        "ExtensionSettings.UndergroundPrison",
        Json::Object(vec![("Owned".into(), Json::Bool(true)), ("Vault".into(), num(100))]),
    );
    assert_eq!(
        get(&root, "ExtensionSettings").and_then(|v| v.get("Other")).and_then(|v| v.as_i64()),
        Some(1)
    );
    assert_eq!(
        get(&root, "ExtensionSettings")
            .and_then(|v| v.get("UndergroundPrison"))
            .and_then(|v| v.get("Owned"))
            .and_then(|v| v.as_bool()),
        Some(true)
    );
    assert!(get(&root, "ExtensionSettings.UndergroundPrison").is_none());
}

#[test]
fn creates_missing_parent() {
    let mut root: Vec<(String, Json)> = Vec::new();
    apply_dotted_path(&mut root, "ExtensionSettings.UndergroundPrison", num(42));
    assert_eq!(
        get(&root, "ExtensionSettings").and_then(|v| v.get("UndergroundPrison")),
        Some(&num(42))
    );
}

#[test]
fn plain_key_still_works() {
    let mut root: Vec<(String, Json)> = Vec::new();
    apply_dotted_path(&mut root, "Money", num(500));
    assert_eq!(get(&root, "Money").and_then(|v| v.as_i64()), Some(500));
}

#[test]
fn non_object_parent_is_replaced() {
    let mut root: Vec<(String, Json)> = vec![("A".into(), num(3))];
    apply_dotted_path(&mut root, "A.B", num(4));
    assert_eq!(get(&root, "A").and_then(|v| v.get("B")), Some(&num(4)));
}

#[test]
fn empty_segments_are_ignored() {
    let mut root: Vec<(String, Json)> = Vec::new();
    apply_dotted_path(&mut root, "..", num(1));
    assert!(root.is_empty());
    apply_dotted_path(&mut root, ".A..B.", num(2));
    assert_eq!(get(&root, "A").and_then(|v| v.get("B")), Some(&num(2)));
}

#[test]
fn merge_skips_identity_fields() {
    let mut root: Vec<(String, Json)> = vec![("AccountName".into(), Json::Str("ME".into()))];
    let set: Vec<(String, Json)> = vec![
        ("AccountName".into(), Json::Str("OTHER".into())),
        ("MapData".into(), num(1)),
        ("_id".into(), num(2)),
        ("Money".into(), num(5)),
        ("ExtensionSettings.X".into(), num(6)),
    ];
    merge_set_into_object(&mut root, &set);
    assert_eq!(get(&root, "AccountName"), Some(&Json::Str("ME".into())));
    assert!(get(&root, "MapData").is_none());
    assert!(get(&root, "_id").is_none());
    assert_eq!(get(&root, "Money"), Some(&num(5)));
    assert_eq!(get(&root, "ExtensionSettings").and_then(|v| v.get("X")), Some(&num(6)));
}
