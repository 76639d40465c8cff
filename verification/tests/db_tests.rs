use bc_server::db::{
    is_sqlite_busy, json_object_to_set_map, json_to_i64, normalize_sqlite_url, password_from_json, regex_escape,
    EmptyDatabaseUrl, NotAnObject,
};
use bc_server::json::{FloatNumber, Json, JsonNumber};

fn num(n: i64) -> Json {
    Json::Number(JsonNumber::Int(n))
}

#[test]
fn set_map_skips_id_and_map_data() {
    let v = Json::Object(vec![
        ("_id".to_string(), num(1)),
        ("Money".to_string(), num(5)),
        ("MapData".to_string(), num(2)),
        ("Title".to_string(), Json::Str("x".to_string())),
    ]);
    let m = json_object_to_set_map(&v).unwrap();
    assert_eq!(m, vec![("Money".to_string(), num(5)), ("Title".to_string(), Json::Str("x".to_string()))]);
    assert_eq!(json_object_to_set_map(&num(1)), Err(NotAnObject));
}

#[test]
fn regex_escape_specials() {
    assert_eq!(regex_escape("a.b*c"), "a\\.b\\*c");
    assert_eq!(regex_escape("(x|y)$"), "\\(x\\|y\\)\\$");
    assert_eq!(regex_escape("plain@mail"), "plain@mail");
}

#[test]
fn busy_errors() {
    assert!(is_sqlite_busy("Error: Database is LOCKED"));
    assert!(is_sqlite_busy("returned (code: 5) busy"));
    assert!(!is_sqlite_busy("no such table"));
}

#[test]
fn integer_readings() {
    assert_eq!(json_to_i64(&num(7)), Some(7));
    assert_eq!(json_to_i64(&Json::Str("42".to_string())), Some(42));
    assert_eq!(json_to_i64(&Json::Str("4x".to_string())), None);
    assert_eq!(json_to_i64(&Json::Number(JsonNumber::Big(u64::MAX))), Some(-1));
    let f = FloatNumber { bits: 2.7f64.to_bits(), floor: 2, trunc: 2, round: 3 };
    assert_eq!(json_to_i64(&Json::Number(JsonNumber::Float(f))), Some(2));
    assert_eq!(json_to_i64(&Json::Bool(true)), None);
}

#[test]
fn password_field() {
    let doc = Json::Object(vec![("Password".to_string(), Json::Str("h".to_string()))]);
    assert_eq!(password_from_json(&doc), "h");
    let doc = Json::Object(vec![("Password".to_string(), num(3))]);
    assert_eq!(password_from_json(&doc), "");
    assert_eq!(password_from_json(&Json::Object(vec![])), "");
}

#[test]
fn sqlite_urls() {
    assert_eq!(normalize_sqlite_url("  "), Err(EmptyDatabaseUrl));
    assert_eq!(normalize_sqlite_url(":memory:").unwrap(), "sqlite::memory:");
    assert_eq!(normalize_sqlite_url("sqlite://:memory:").unwrap(), "sqlite::memory:");
    assert_eq!(normalize_sqlite_url("sqlite:///var/db/bc.db").unwrap(), "sqlite://var/db/bc.db");
    assert_eq!(normalize_sqlite_url("sqlite://data/bc.db").unwrap(), "sqlite:data/bc.db");
    assert_eq!(normalize_sqlite_url("sqlite:bc.db").unwrap(), "sqlite:bc.db");
    assert_eq!(normalize_sqlite_url(" bc.db ").unwrap(), "sqlite:bc.db");
}
