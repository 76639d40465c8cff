use bc_server::admin::{apply_room_update, room_update_request};
use bc_server::db::{merge_account_update, MergeRefusal};
use bc_server::json::{Json, JsonNumber};
use bc_server::limits::{check_ip_connection_limit_at, MessageRateLimiter};
use bc_server::listing::shown_in_public_list;
use bc_server::relations::{lovership_target_ok, offline_release_allowed, ownership_target, OwnershipTarget};
use bc_server::sectors::joined_sector_snapshot;
use bc_server::state::account::OnlineAccount;
use bc_server::state::chatroom::ChatRoom;
use bc_server::state::world::{PrisonSectorSession, World};

fn num(n: i64) -> Json {
    Json::Number(JsonNumber::Int(n))
}

fn text(s: &str) -> Json {
    Json::Str(s.to_string())
}

fn obj(entries: Vec<(&str, Json)>) -> Json {
    Json::Object(entries.into_iter().map(|(k, v)| (k.to_string(), v)).collect())
}

fn entries(pairs: Vec<(&str, Json)>) -> Vec<(String, Json)> {
    pairs.into_iter().map(|(k, v)| (k.to_string(), v)).collect()
}

fn account(sid: &str, member: i64, name: &str) -> OnlineAccount {
    OnlineAccount::new_created(sid.to_string(), name.to_uppercase(), member, name.to_string(), "PROD".to_string(), 0)
}

fn room(id: &str, name: &str, env: &str, members: Vec<i64>) -> ChatRoom {
    let mut r = ChatRoom::new_at(id.to_string(), name.to_string(), env.to_string(), "Alice".to_string(), 1, 0);
    r.members = members;
    r
}

/// Alice (1) and Bob (2) in room "r1"; Carol (3) online in no room.
fn parlor_world() -> World {
    let mut w = World::new(100);
    let mut a = account("s1", 1, "Alice");
    a.chat_room_id = Some("r1".to_string());
    let mut b = account("s2", 2, "Bob");
    b.chat_room_id = Some("r1".to_string());
    w.insert_account(a);
    w.insert_account(b);
    w.insert_account(account("s3", 3, "Carol"));
    w.insert_room(room("r1", "Parlor", "PROD", vec![1, 2]));
    w
}

fn update_named(name: &str) -> Json {
    obj(vec![
        ("Name", text(name)),
        ("Description", text("")),
        ("Background", text("Introduction")),
        ("Admin", Json::Array(vec![num(1)])),
        ("Ban", Json::Array(vec![])),
    ])
}

#[test]
fn rename_refused_when_another_environment_has_the_name() {
    let mut w = parlor_world();
    w.insert_room(room("r2", "Garden", "DEV", vec![]));
    let u = room_update_request(&update_named("GARDEN")).unwrap();
    assert_eq!(apply_room_update(&mut w, "r1", u), Err(()));
    assert_eq!(w.chat_rooms.get("r1").unwrap().name, "Parlor");
    let u = room_update_request(&update_named("parlor")).unwrap();
    assert_eq!(apply_room_update(&mut w, "r1", u), Ok(true));
    assert_eq!(w.chat_rooms.get("r1").unwrap().name, "parlor");
    let u = room_update_request(&update_named("Library")).unwrap();
    assert_eq!(apply_room_update(&mut w, "r1", u), Ok(true));
    let u = room_update_request(&update_named("Hall")).unwrap();
    assert_eq!(apply_room_update(&mut w, "r9", u), Ok(false));
}

#[test]
fn ownership_requests_reach_room_members_or_offline_releases() {
    let w = parlor_world();
    assert_eq!(ownership_target(&w, "s1", 2, false), OwnershipTarget::InRoom);
    assert_eq!(ownership_target(&w, "s1", 3, false), OwnershipTarget::Ignore);
    assert_eq!(ownership_target(&w, "s1", 3, true), OwnershipTarget::ReleaseOffline);
    assert_eq!(ownership_target(&w, "s3", 2, true), OwnershipTarget::Ignore);
    assert_eq!(ownership_target(&w, "s9", 2, false), OwnershipTarget::Ignore);
}

#[test]
fn offline_release_needs_the_stored_owner() {
    let doc = obj(vec![("Ownership", obj(vec![("MemberNumber", num(1))]))]);
    assert!(offline_release_allowed(&doc, 1));
    assert!(!offline_release_allowed(&doc, 2));
    assert!(!offline_release_allowed(&obj(vec![]), 1));
}

#[test]
fn lovership_needs_another_room_member_who_did_not_blacklist() {
    let w = parlor_world();
    assert!(lovership_target_ok(&w, "s1", 2));
    assert!(!lovership_target_ok(&w, "s1", 1));
    assert!(!lovership_target_ok(&w, "s1", 3));
    assert!(!lovership_target_ok(&w, "s3", 1));
    let mut w = parlor_world();
    let mut b = account("s2", 2, "Bob");
    b.chat_room_id = Some("r1".to_string());
    b.black_list = vec![1];
    w.insert_account(b);
    assert!(!lovership_target_ok(&w, "s1", 2));
}

#[test]
fn sector_snapshot_only_for_members_on_it() {
    let mut w = parlor_world();
    w.prison_sector_sessions =
        vec![PrisonSectorSession { host_member_number: 1, sector_index: 0, members: vec![1, 2] }];
    assert_eq!(joined_sector_snapshot(&w, 1, 0, 2).unwrap().len(), 2);
    assert!(joined_sector_snapshot(&w, 1, 0, 3).is_none());
    assert!(joined_sector_snapshot(&w, 1, 1, 2).is_none());
}

#[test]
fn own_prison_listed_only_when_asked() {
    assert!(shown_in_public_list(5, 6, false));
    assert!(!shown_in_public_list(5, 5, false));
    assert!(shown_in_public_list(5, 5, true));
}

fn stored() -> Vec<(String, Json)> {
    entries(vec![
        ("AccountName", text("ALICE")),
        ("Password", text("$2b$10$hash")),
        ("MemberNumber", num(7)),
        ("Name", text("Alice")),
        ("Email", text("a@b.com")),
        ("Money", num(5)),
    ])
}

#[test]
fn account_update_merges_and_keeps_key_columns() {
    let set = entries(vec![("Money", num(9)), ("ExtensionSettings.UndergroundPrison", text("x")), ("_id", num(1))]);
    let (doc, cols) = merge_account_update(stored(), &set).unwrap();
    let d = Json::Object(doc);
    assert_eq!(d.get_i64("Money"), Some(9));
    assert_eq!(d.get("ExtensionSettings").unwrap().get_str("UndergroundPrison"), Some("x"));
    assert!(d.get("_id").is_none());
    assert_eq!(cols.account_name, "ALICE");
    assert_eq!(cols.password, "$2b$10$hash");
    assert_eq!(cols.member_number, Some(7));
    assert_eq!(cols.name.as_deref(), Some("Alice"));
    assert_eq!(cols.email.as_deref(), Some("a@b.com"));
    assert_eq!(cols.last_login, None);

    let set = entries(vec![("MemberNumber", text("8")), ("Email", text("c@d.com"))]);
    let (_, cols) = merge_account_update(stored(), &set).unwrap();
    assert_eq!(cols.member_number, Some(8));
    assert_eq!(cols.email.as_deref(), Some("c@d.com"));
}

#[test]
fn account_update_refusals() {
    let set = entries(vec![("Password", text(""))]);
    assert!(matches!(merge_account_update(stored(), &set), Err(MergeRefusal::EmptyPasswordOverwrite)));
    let no_name = entries(vec![("Password", text("h"))]);
    assert!(matches!(merge_account_update(no_name, &entries(vec![])), Err(MergeRefusal::NoAccountName)));
    let no_password = entries(vec![("AccountName", text("BOB"))]);
    let (_, cols) = merge_account_update(no_password, &entries(vec![("Password", text(""))])).unwrap();
    assert_eq!(cols.password, "");
}

#[test]
fn rate_limiter_refuses_the_message_over_the_limit_within_a_second() {
    let mut r = MessageRateLimiter::new(2);
    assert!(!r.check_at(5000));
    assert!(!r.check_at(5100));
    assert!(r.check_at(5200));
    assert!(r.check_at(6100));
    assert!(!r.check_at(7300));
    let mut z = MessageRateLimiter::new(0);
    assert!(!z.check_at(5000));
    assert!(!z.check_at(5000));
    assert!(!z.check());
    let mut fresh = MessageRateLimiter::new(3);
    assert!(!fresh.check());
}

#[test]
fn connection_limits_by_rate_and_count() {
    let mut w = World::new(100);
    assert!(!check_ip_connection_limit_at(&mut w, "1.2.3.4", 3, 2, 10_000));
    assert!(!check_ip_connection_limit_at(&mut w, "1.2.3.4", 3, 2, 10_100));
    assert!(check_ip_connection_limit_at(&mut w, "1.2.3.4", 3, 2, 10_200));
    assert!(!check_ip_connection_limit_at(&mut w, "1.2.3.4", 3, 2, 20_000));
    assert!(check_ip_connection_limit_at(&mut w, "1.2.3.4", 3, 2, 40_000));
    assert!(!check_ip_connection_limit_at(&mut w, "5.6.7.8", 3, 2, 40_000));
}
