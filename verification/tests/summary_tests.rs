use bc_server::json::{Json, JsonNumber};
use bc_server::summary::{public_prison_summary, public_prison_summary_at, resolve_private_appearance};
use bc_server::time::common_time;

fn num(n: i64) -> Json {
    Json::Number(JsonNumber::Int(n))
}

fn text(s: &str) -> Json {
    Json::Str(s.to_string())
}

fn obj(entries: Vec<(&str, Json)>) -> Json {
    Json::Object(entries.into_iter().map(|(k, v)| (k.to_string(), v)).collect())
}

fn first_slave(summary: &Json) -> &Json {
    let sectors = summary.get("Sectors").and_then(|s| s.as_array()).unwrap();
    let slaves = sectors[0].get("Slaves").and_then(|s| s.as_array()).unwrap();
    &slaves[0]
}

#[test]
fn offline_public_summary_keeps_remote_rental_identity() {
    let extension = obj(vec![(
        "UndergroundPrison",
        obj(vec![
            ("Owned", Json::Bool(true)),
            ("Permission", text("Public")),
            ("Name", text("Offline block")),
            (
                "Sectors",
                Json::Array(vec![obj(vec![
                    ("Unlocked", Json::Bool(true)),
                    ("Type", text("Mine")),
                    ("BaseSlaveCapacity", num(5)),
                    ("ExtraCapacity", num(0)),
                    ("Overseers", Json::Array(vec![obj(vec![("Name", text("Guard"))])])),
                    (
                        "Slaves",
                        Json::Array(vec![obj(vec![
                            ("Name", text("Renter")),
                            ("Strength", num(50)),
                            ("Willpower", num(50)),
                            ("RenterMemberNumber", num(42)),
                            ("RenterPrivateIndex", num(-1)),
                            ("RentRole", text("Self")),
                            ("Until", num(common_time() + 60_000)),
                        ])]),
                    ),
                ])]),
            ),
        ]),
    )]);
    let summary = public_prison_summary(9, "Owner", &extension, None, false, 12).expect("public prison");
    let listing = &summary.listing;
    assert_eq!(listing.get("Online"), Some(&Json::Bool(false)));
    assert_eq!(listing.get("RentalsAuthoritative"), Some(&Json::Bool(true)));
    assert_eq!(first_slave(listing).get("RenterMemberNumber"), Some(&num(42)));
    assert_eq!(first_slave(listing).get("RentRole"), Some(&text("Self")));
}

fn prison(slaves: Vec<Json>, overseers: Vec<Json>, sector_type: &str) -> Json {
    obj(vec![(
        "UndergroundPrison",
        obj(vec![
            ("Owned", Json::Bool(true)),
            ("Permission", text("Public")),
            ("Name", text("")),
            (
                "Sectors",
                Json::Array(vec![
                    obj(vec![
                        ("Unlocked", Json::Bool(true)),
                        ("Type", text(sector_type)),
                        ("BaseSlaveCapacity", num(2)),
                        ("ExtraCapacity", num(-3)),
                        ("Overseers", Json::Array(overseers)),
                        ("Slaves", Json::Array(slaves)),
                    ]),
                    obj(vec![("Unlocked", Json::Bool(false))]),
                ]),
            ),
        ]),
    )])
}

#[test]
fn summary_lists_active_rentals_only() {
    let active = obj(vec![("Name", text("A")), ("Until", num(2000)), ("Strength", num(70))]);
    let expired = obj(vec![("Name", text("B")), ("Until", num(500))]);
    let ext = prison(vec![active, expired], vec![], "Factory");
    let s = public_prison_summary_at(9, "Owner", &ext, None, true, 5, 1000).unwrap();
    let l = &s.listing;
    assert_eq!(l.get_str("Name"), Some("Owner"));
    assert_eq!(l.get_i64("SectorCount"), Some(1));
    assert_eq!(l.get_i64("SlaveCount"), Some(1));
    assert_eq!(l.get_i64("LastActive"), Some(5));
    let sector = &l.get("Sectors").and_then(|v| v.as_array()).unwrap()[0];
    assert_eq!(sector.get_i64("BaseSlaveCapacity"), Some(5));
    assert_eq!(sector.get_i64("ExtraCapacity"), Some(0));
    assert_eq!(sector.get_str("Type"), Some("Factory"));
    let slave = first_slave(l);
    assert_eq!(slave.get_str("Name"), Some("A"));
    assert_eq!(slave.get_i64("Strength"), Some(70));
    assert_eq!(slave.get_i64("Willpower"), Some(50));
    assert_eq!(slave.get_str("AssetFamily"), Some("Female3DCG"));
    assert_eq!(slave.get_str("CharacterID"), Some(""));
    assert_eq!(s.workers.len(), 1);
    assert!(s.workers[0].factory);
    assert!(!s.workers[0].overseen);
    assert_eq!(s.workers[0].strength, Some(JsonNumber::Int(70)));
    assert_eq!(s.workers[0].willpower, None);
}

#[test]
fn private_prison_has_no_summary() {
    let ext = obj(vec![(
        "UndergroundPrison",
        obj(vec![("Owned", Json::Bool(true)), ("Permission", text("Private"))]),
    )]);
    assert!(public_prison_summary_at(9, "Owner", &ext, None, true, 0, 0).is_none());
    assert!(public_prison_summary_at(9, "Owner", &obj(vec![]), None, true, 0, 0).is_none());
}

#[test]
fn appearance_borrowed_from_private_character() {
    let npcs = vec![
        obj(vec![
            ("Name", text("Maid")),
            ("AssetFamily", text("Family2")),
            ("Appearance", Json::Array(vec![num(1)])),
            ("Title", text("Head")),
        ]),
        obj(vec![("Name", text("Cook")), ("Appearance", Json::Array(vec![num(2)]))]),
    ];
    let by_index = obj(vec![("PrivateIndex", num(1))]);
    let (family, appearance, title) = resolve_private_appearance(Some(&npcs), &by_index);
    assert_eq!(family, "Family2");
    assert_eq!(appearance, Json::Array(vec![num(1)]));
    assert_eq!(title, Some("Head".to_string()));
    let by_name = obj(vec![("Name", text("Cook")), ("Title", text("Mine"))]);
    let (family, appearance, title) = resolve_private_appearance(Some(&npcs), &by_name);
    assert_eq!(family, "Female3DCG");
    assert_eq!(appearance, Json::Array(vec![num(2)]));
    assert_eq!(title, Some("Mine".to_string()));
    let own = obj(vec![("Appearance", Json::Array(vec![num(3)])), ("PrivateIndex", num(1))]);
    let (_, appearance, title) = resolve_private_appearance(Some(&npcs), &own);
    assert_eq!(appearance, Json::Array(vec![num(3)]));
    assert_eq!(title, None);
    let (family, appearance, _) = resolve_private_appearance(None, &by_index);
    assert_eq!(family, "Female3DCG");
    assert_eq!(appearance, Json::Array(vec![]));
}
